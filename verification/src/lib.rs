//! Mesh ingestion and re-indexing.
//!
//! A face-based model format indexes each vertex attribute (position, normal,
//! texture coordinate) independently; a rasterization pipeline wants one dense
//! vertex list addressed by a single index per corner.  This crate converts
//! between the two: it deduplicates per-corner attribute-index tuples into a
//! dense vertex list, re-emits every polygon as triangles over the new dense
//! indices, and carries per-group materials through.  It also provides the
//! resulting in-memory mesh data model with its composition (append)
//! operations.
//!
//! Scalar attribute values are carried as opaque 32-bit words; the pipeline
//! moves them but never interprets them, so callers may store any fixed
//! 32-bit encoding (for example the bit pattern of an IEEE 754 single).

pub mod adjust;
pub mod errors;
pub mod index;
pub mod mesh;
pub mod model;
pub mod reindex;
pub mod seqs;
pub mod shapes;
pub mod vertex;

pub use errors::AttributeKind;
pub use errors::ReindexError;
pub use index::IndexType;
pub use mesh::Material;
pub use mesh::Mesh;
pub use mesh::Triangle;
pub use mesh::TriangleList;
pub use model::Group;
pub use model::IndexTuple;
pub use model::MaterialRecord;
pub use model::Model;
pub use model::Object;
pub use reindex::reindex;
pub use vertex::ExtractVertex;
pub use vertex::VertexPosition;
pub use vertex::VertexPositionNormal;
pub use vertex::VertexPositionNormalTexture;
