//! The parsed-model data handed to the re-indexer.
//!
//! An external parser supplies these values: dense, 0-indexed attribute
//! arrays and a nested object/group/polygon structure whose corners reference
//! the arrays through [`IndexTuple`]s.

use vstd::prelude::*;

verus! {

/// A per-corner reference into the independently indexed attribute arrays:
/// position index, then optional texture and normal indices.
///
/// Two tuples are equal exactly when all three fields are equal; a missing
/// index is distinct from every concrete index.
#[derive(Clone, Copy, Debug, PartialEq, Eq)]
pub struct IndexTuple(pub usize, pub Option<usize>, pub Option<usize>);

/// The fields of an external material record that the mesh pipeline reads.
/// Fields left absent fall back to documented defaults during conversion.
#[derive(Clone, Copy, Debug, PartialEq, Eq)]
pub struct MaterialRecord {
    /// Diffuse color, three scalar words.
    pub kd: Option<[u32; 3]>,
    /// Specular color, three scalar words.
    pub ks: Option<[u32; 3]>,
    /// Opacity, one scalar word.
    pub d: Option<u32>,
}

/// One polygon group: a list of polygons, each a flat corner list whose
/// length must be a multiple of three (already triangulated fans), plus an
/// optional material reference.
#[derive(Clone, Debug)]
pub struct Group {
    pub polys: Vec<Vec<IndexTuple>>,
    pub material: Option<MaterialRecord>,
}

/// One object of the model: an ordered list of polygon groups.
#[derive(Clone, Debug)]
pub struct Object {
    pub groups: Vec<Group>,
}

/// A parsed face-based model: dense attribute arrays plus the objects whose
/// polygon corners reference them.
#[derive(Clone, Debug)]
pub struct Model {
    /// Positions, three scalar words each.
    pub position: Vec<[u32; 3]>,
    /// Normals, three scalar words each.
    pub normal: Vec<[u32; 3]>,
    /// Texture coordinates, two scalar words each.
    pub texture: Vec<[u32; 2]>,
    pub objects: Vec<Object>,
}

/// Equality test for corner tuples, usable from executable code.
pub fn tuple_eq(a: &IndexTuple, b: &IndexTuple) -> (r: bool)
    ensures
        r <==> *a == *b,
{
    let positions_match = a.0 == b.0;
    let textures_match = match (a.1, b.1) {
        (Option::None, Option::None) => true,
        (Option::Some(x), Option::Some(y)) => x == y,
        _ => false,
    };
    let normals_match = match (a.2, b.2) {
        (Option::None, Option::None) => true,
        (Option::Some(x), Option::Some(y)) => x == y,
        _ => false,
    };
    positions_match && textures_match && normals_match
}

} // verus!
