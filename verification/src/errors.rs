//! Error values produced by re-indexing and mesh composition.

use vstd::prelude::*;

verus! {

/// Which attribute array an out-of-range index pointed into.
#[derive(Clone, Copy, Debug, PartialEq, Eq, Structural)]
pub enum AttributeKind {
    Position,
    Normal,
    Texture,
}

/// Why re-indexing or a mesh composition operation failed.
///
/// Every failure aborts the whole operation; no partial mesh is returned.
#[derive(Clone, Copy, Debug, PartialEq, Eq, Structural)]
pub enum ReindexError {
    /// A corner referenced an entry past the end of an attribute array.
    IndexOutOfRange { kind: AttributeKind, len: usize, index: usize },
    /// A corner supplied a texture index but no normal index, while the
    /// target vertex shape needs a normal.
    MissingNormalIndex,
    /// A corner supplied a normal index but no texture index, while the
    /// target vertex shape needs a texture coordinate.
    MissingTextureIndex,
    /// A polygon's corner count is not a multiple of three.
    PolygonNotTriangulated { len: usize },
    /// A dense vertex index does not fit the chosen index type.
    IndexOverflow { index: usize },
}

} // verus!
