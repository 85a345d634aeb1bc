//! Vertex shapes and per-shape attribute extraction.
//!
//! A target vertex shape is fixed per re-indexing invocation.  Which fields
//! a corner tuple must supply depends on the shape; the per-shape policy
//! lives in the [`ExtractVertex`] impls and is stated exactly by their
//! `extract_spec` bodies.

use vstd::prelude::*;

use crate::errors::AttributeKind;
use crate::errors::ReindexError;
use crate::model::IndexTuple;
use crate::model::Model;

verus! {

broadcast use vstd::slice::axiom_slice_get_usize;

/// A vertex with 3D position only.
#[derive(Clone, Copy, Debug, PartialEq)]
pub struct VertexPosition {
    pub position: [u32; 3],
}

/// A vertex with 3D position and normal.
#[derive(Clone, Copy, Debug, PartialEq)]
pub struct VertexPositionNormal {
    pub position: [u32; 3],
    pub normal: [u32; 3],
}

/// A vertex with 3D position, normal, and 2D texture coordinates.
#[derive(Clone, Copy, Debug, PartialEq)]
pub struct VertexPositionNormalTexture {
    pub position: [u32; 3],
    pub normal: [u32; 3],
    pub texture: [u32; 2],
}

/// The error reported when an attribute index overruns its array.
pub open spec fn oob(kind: AttributeKind, len: nat, index: usize) -> ReindexError {
    ReindexError::IndexOutOfRange { kind, len: len as usize, index }
}

/// Fetch `slice[index]`, or report which attribute array was overrun.
pub fn get_checked<'a, T>(slice: &'a [T], index: usize, kind: AttributeKind) -> (r: Result<
    &'a T,
    ReindexError,
>)
    ensures
        index < slice@.len() ==> (r matches Ok(v) && *v == slice@[index as int]),
        index >= slice@.len() ==> r == Err::<&'a T, ReindexError>(oob(kind, slice@.len(), index)),
{
    let len = slice.len();
    match slice.get(index) {
        Some(v) => Ok(v),
        None => Err(ReindexError::IndexOutOfRange { kind, len, index }),
    }
}

/// Extraction of a vertex of one shape from a model's attribute arrays,
/// following the shape's field-presence policy for the corner's
/// attribute-index tuple.
pub trait ExtractVertex: Sized {
    /// What extraction returns, for every model and corner tuple.
    spec fn extract_spec(model: &Model, tuple: IndexTuple) -> Result<Self, ReindexError>;

    /// Extract the vertex; agrees with `extract_spec` on all inputs.
    fn extract(model: &Model, tuple: &IndexTuple) -> (r: Result<Self, ReindexError>)
        ensures
            r == Self::extract_spec(model, *tuple),
    ;
}

impl VertexPosition {
    /// Read the position array at `p`, validating the index.
    pub open spec fn extract_at(model: &Model, p: usize) -> Result<VertexPosition, ReindexError> {
        if p < model.position@.len() {
            Ok(VertexPosition { position: model.position@[p as int] })
        } else {
            Err(oob(AttributeKind::Position, model.position@.len(), p))
        }
    }
}

/// Position-only policy: only the position field is read; texture and normal
/// fields, if present, are ignored.
impl ExtractVertex for VertexPosition {
    open spec fn extract_spec(model: &Model, tuple: IndexTuple) -> Result<Self, ReindexError> {
        Self::extract_at(model, tuple.0)
    }

    fn extract(model: &Model, tuple: &IndexTuple) -> (r: Result<Self, ReindexError>) {
        let position = match get_checked(model.position.as_slice(), tuple.0,
            AttributeKind::Position) {
            Ok(v) => *v,
            Err(e) => {
                return Err(e);
            },
        };
        Ok(VertexPosition { position })
    }
}

impl VertexPositionNormal {
    /// Read the position array at `p` and the normal array at `n`,
    /// validating both indices in that order.
    pub open spec fn extract_at(model: &Model, p: usize, n: usize) -> Result<
        VertexPositionNormal,
        ReindexError,
    > {
        if p >= model.position@.len() {
            Err(oob(AttributeKind::Position, model.position@.len(), p))
        } else if n >= model.normal@.len() {
            Err(oob(AttributeKind::Normal, model.normal@.len(), n))
        } else {
            Ok(
                VertexPositionNormal {
                    position: model.position@[p as int],
                    normal: model.normal@[n as int],
                },
            )
        }
    }
}

/// Position+normal policy: a corner with neither texture nor normal index
/// reuses its position index as the normal index; a corner with a normal
/// index uses it (whether or not a texture index is present); a corner with
/// a texture index but no normal index is an error.
impl ExtractVertex for VertexPositionNormal {
    open spec fn extract_spec(model: &Model, tuple: IndexTuple) -> Result<Self, ReindexError> {
        match (tuple.1, tuple.2) {
            (Option::None, Option::None) => Self::extract_at(model, tuple.0, tuple.0),
            (_, Option::Some(n)) => Self::extract_at(model, tuple.0, n),
            (Option::Some(_), Option::None) => Err(ReindexError::MissingNormalIndex),
        }
    }

    fn extract(model: &Model, tuple: &IndexTuple) -> (r: Result<Self, ReindexError>) {
        let (p, n): (usize, usize) = match (tuple.1, tuple.2) {
            (None, None) => (tuple.0, tuple.0),
            (_, Some(n)) => (tuple.0, n),
            (Some(_), None) => {
                return Err(ReindexError::MissingNormalIndex);
            },
        };
        let position = match get_checked(model.position.as_slice(), p, AttributeKind::Position) {
            Ok(v) => *v,
            Err(e) => {
                return Err(e);
            },
        };
        let normal = match get_checked(model.normal.as_slice(), n, AttributeKind::Normal) {
            Ok(v) => *v,
            Err(e) => {
                return Err(e);
            },
        };
        Ok(VertexPositionNormal { position, normal })
    }
}

impl VertexPositionNormalTexture {
    /// Read position `p`, normal `n`, and texture `t`, validating the
    /// indices in that order.
    pub open spec fn extract_at(model: &Model, p: usize, n: usize, t: usize) -> Result<
        VertexPositionNormalTexture,
        ReindexError,
    > {
        if p >= model.position@.len() {
            Err(oob(AttributeKind::Position, model.position@.len(), p))
        } else if n >= model.normal@.len() {
            Err(oob(AttributeKind::Normal, model.normal@.len(), n))
        } else if t >= model.texture@.len() {
            Err(oob(AttributeKind::Texture, model.texture@.len(), t))
        } else {
            Ok(
                VertexPositionNormalTexture {
                    position: model.position@[p as int],
                    normal: model.normal@[n as int],
                    texture: model.texture@[t as int],
                },
            )
        }
    }
}

/// Position+normal+texture policy: a corner with all attribute fields absent
/// reuses its position index for both normal and texture; a corner with both
/// texture and normal indices uses them; a corner with only one of the two
/// is an error naming the missing field.
impl ExtractVertex for VertexPositionNormalTexture {
    open spec fn extract_spec(model: &Model, tuple: IndexTuple) -> Result<Self, ReindexError> {
        match (tuple.1, tuple.2) {
            (Option::None, Option::None) => Self::extract_at(model, tuple.0, tuple.0, tuple.0),
            (Option::Some(t), Option::Some(n)) => Self::extract_at(model, tuple.0, n, t),
            (Option::Some(_), Option::None) => Err(ReindexError::MissingNormalIndex),
            (Option::None, Option::Some(_)) => Err(ReindexError::MissingTextureIndex),
        }
    }

    fn extract(model: &Model, tuple: &IndexTuple) -> (r: Result<Self, ReindexError>) {
        let (p, n, t): (usize, usize, usize) = match (tuple.1, tuple.2) {
            (None, None) => (tuple.0, tuple.0, tuple.0),
            (Some(t), Some(n)) => (tuple.0, n, t),
            (Some(_), None) => {
                return Err(ReindexError::MissingNormalIndex);
            },
            (None, Some(_)) => {
                return Err(ReindexError::MissingTextureIndex);
            },
        };
        let position = match get_checked(model.position.as_slice(), p, AttributeKind::Position) {
            Ok(v) => *v,
            Err(e) => {
                return Err(e);
            },
        };
        let normal = match get_checked(model.normal.as_slice(), n, AttributeKind::Normal) {
            Ok(v) => *v,
            Err(e) => {
                return Err(e);
            },
        };
        let texture = match get_checked(model.texture.as_slice(), t, AttributeKind::Texture) {
            Ok(v) => *v,
            Err(e) => {
                return Err(e);
            },
        };
        Ok(VertexPositionNormalTexture { position, normal, texture })
    }
}

/// Shape-policy conformance for the position+normal shape: a corner with
/// neither texture nor normal index reuses the position index as the normal
/// index; a corner with a texture index but no normal index fails with
/// [`ReindexError::MissingNormalIndex`]; a corner with a normal index uses
/// it, whether or not a texture index is present.
pub proof fn lemma_position_normal_policy(model: &Model, p: usize, t: Option<usize>, n: usize)
    ensures
        VertexPositionNormal::extract_spec(model, IndexTuple(p, Option::None, Option::None))
            == VertexPositionNormal::extract_at(model, p, p),
        t is Some ==> VertexPositionNormal::extract_spec(model, IndexTuple(p, t, Option::None))
            == Err::<VertexPositionNormal, ReindexError>(ReindexError::MissingNormalIndex),
        VertexPositionNormal::extract_spec(model, IndexTuple(p, t, Option::Some(n)))
            == VertexPositionNormal::extract_at(model, p, n),
{
}

} // verus!
