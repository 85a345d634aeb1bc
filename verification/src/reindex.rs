//! The mesh re-indexer.
//!
//! A parsed model indexes each vertex attribute independently; this module
//! converts it into one dense, deduplicated vertex list and triangle lists
//! over the new dense indices.  Corner tuples are deduplicated on the tuple,
//! not on the extracted vertex value: two corners with identical tuples map
//! to the same dense index, two corners with differing tuples never merge.
//!
//! The intended result is stated by spec functions over the traversal order
//! (object, then group, then polygon, then corner): [`reindex_state`] gives
//! the dense tuple list or the first error, [`group_triangles`] and
//! [`group_material`] give each polygon group's output.

use vstd::prelude::*;

use crate::errors::ReindexError;
use crate::index::IndexType;
use crate::mesh::Material;
use crate::mesh::Mesh;
use crate::mesh::Triangle;
use crate::mesh::TriangleList;
use crate::model::Group;
use crate::model::IndexTuple;
use crate::model::Model;
use crate::model::Object;
use crate::model::tuple_eq;
use crate::seqs::concat_all;
use crate::seqs::lemma_concat_all_take_succ;
use crate::vertex::ExtractVertex;

verus! {

// ------------------------------------------------------------------
// Traversal order.
// ------------------------------------------------------------------

/// The corners of one group in traversal order: polygon order, then corner
/// order within each polygon.
pub open spec fn group_corners(g: Group) -> Seq<IndexTuple> {
    concat_all(g.polys@.map_values(|p: Vec<IndexTuple>| p@))
}

/// The corners of one object in traversal order.
pub open spec fn object_corners(o: Object) -> Seq<IndexTuple> {
    concat_all(o.groups@.map_values(|g: Group| group_corners(g)))
}

/// All corners of a model in traversal order: object, then group, then
/// polygon, then corner.
pub open spec fn model_corners(m: Model) -> Seq<IndexTuple> {
    concat_all(m.objects@.map_values(|o: Object| object_corners(o)))
}

/// The groups of a model in traversal order: object order, then group order
/// within each object.
pub open spec fn model_groups(m: Model) -> Seq<Group> {
    concat_all(m.objects@.map_values(|o: Object| o.groups@))
}

// ------------------------------------------------------------------
// The deduplication state and first-occurrence indices.
// ------------------------------------------------------------------

/// No tuple occurs twice.
pub open spec fn distinct_seq(ts: Seq<IndexTuple>) -> bool {
    forall|i: int, j: int| 0 <= i < j < ts.len() ==> ts[i] != ts[j]
}

/// The position of the first occurrence of `t` in `ts`; this is the dense
/// index that re-indexing assigns to every corner whose tuple is `t`.
pub open spec fn first_index(ts: Seq<IndexTuple>, t: IndexTuple) -> int
    decreases ts.len(),
{
    if ts.len() == 0 {
        0
    } else if ts[0] == t {
        0
    } else {
        1 + first_index(ts.drop_first(), t)
    }
}

/// Every element of `cs` occurs in `ts`.
pub open spec fn corners_in(cs: Seq<IndexTuple>, ts: Seq<IndexTuple>) -> bool {
    forall|i: int| 0 <= i < cs.len() ==> ts.contains(#[trigger] cs[i])
}

/// Every corner of every polygon of `g` occurs in `ts`.
pub open spec fn group_corners_in(g: Group, ts: Seq<IndexTuple>) -> bool {
    forall|i: int| 0 <= i < g.polys@.len() ==> corners_in((#[trigger] g.polys@[i])@, ts)
}

/// If `ts` contains `t`, `first_index` is the least position holding `t`.
pub proof fn lemma_first_index_props(ts: Seq<IndexTuple>, t: IndexTuple)
    requires
        ts.contains(t),
    ensures
        0 <= first_index(ts, t) < ts.len(),
        ts[first_index(ts, t)] == t,
        forall|k: int| 0 <= k < first_index(ts, t) ==> ts[k] != t,
    decreases ts.len(),
{
    if ts[0] == t {
    } else {
        let i = choose|i: int| 0 <= i < ts.len() && ts[i] == t;
        assert(ts.drop_first()[i - 1] == t);
        assert(ts.drop_first().contains(t));
        lemma_first_index_props(ts.drop_first(), t);
        assert forall|k: int| 0 <= k < first_index(ts, t) implies ts[k] != t by {
            if k > 0 {
                assert(ts.drop_first()[k - 1] == ts[k]);
            }
        }
    }
}

/// A position that holds `t` and is preceded by no occurrence of `t` is the
/// first occurrence.
pub proof fn lemma_first_index_is(ts: Seq<IndexTuple>, t: IndexTuple, i: int)
    requires
        0 <= i < ts.len(),
        ts[i] == t,
        forall|k: int| 0 <= k < i ==> ts[k] != t,
    ensures
        first_index(ts, t) == i,
    decreases ts.len(),
{
    if ts[0] == t {
    } else {
        assert(ts[i] == ts.drop_first()[i - 1]);
        assert forall|k: int| 0 <= k < i - 1 implies ts.drop_first()[k] != t by {
            assert(ts.drop_first()[k] == ts[k + 1]);
        }
        lemma_first_index_is(ts.drop_first(), t, i - 1);
    }
}

/// Extending the sequence does not move the first occurrence of a tuple it
/// already contains.
pub proof fn lemma_first_index_prefix(ts1: Seq<IndexTuple>, ts2: Seq<IndexTuple>, t: IndexTuple)
    requires
        ts1.is_prefix_of(ts2),
        ts1.contains(t),
    ensures
        ts2.contains(t),
        first_index(ts2, t) == first_index(ts1, t),
{
    lemma_first_index_props(ts1, t);
    let i = first_index(ts1, t);
    assert(ts2[i] == ts1[i]);
    assert(ts2.contains(t));
    assert forall|k: int| 0 <= k < i implies ts2[k] != t by {
        assert(ts2[k] == ts1[k]);
    }
    lemma_first_index_is(ts2, t, i);
}

/// Pushing a fresh tuple assigns it the next dense index.
pub proof fn lemma_first_index_push_new(ts: Seq<IndexTuple>, t: IndexTuple)
    requires
        !ts.contains(t),
    ensures
        ts.push(t).contains(t),
        first_index(ts.push(t), t) == ts.len(),
{
    assert(ts.push(t)[ts.len() as int] == t);
    assert forall|k: int| 0 <= k < ts.len() implies ts.push(t)[k] != t by {
        assert(ts.push(t)[k] == ts[k]);
    }
    lemma_first_index_is(ts.push(t), t, ts.len() as int);
}

// ------------------------------------------------------------------
// The deduplication state after each step of the traversal.
// ------------------------------------------------------------------

/// One corner: reuse the dense index of an already-seen tuple; otherwise
/// check that the next dense index is representable, extract the vertex,
/// and append the tuple.
pub open spec fn add_corner<V: ExtractVertex>(
    m: &Model,
    max: int,
    st: Seq<IndexTuple>,
    t: IndexTuple,
) -> Result<Seq<IndexTuple>, ReindexError> {
    if st.contains(t) {
        Ok(st)
    } else if st.len() > max {
        Err(ReindexError::IndexOverflow { index: st.len() as usize })
    } else {
        match V::extract_spec(m, t) {
            Ok(_) => Ok(st.push(t)),
            Err(e) => Err(e),
        }
    }
}

/// A run of corners, in order, stopping at the first error.
pub open spec fn add_corners<V: ExtractVertex>(
    m: &Model,
    max: int,
    st: Seq<IndexTuple>,
    cs: Seq<IndexTuple>,
) -> Result<Seq<IndexTuple>, ReindexError>
    decreases cs.len(),
{
    if cs.len() == 0 {
        Ok(st)
    } else {
        match add_corner::<V>(m, max, st, cs[0]) {
            Ok(st2) => add_corners::<V>(m, max, st2, cs.drop_first()),
            Err(e) => Err(e),
        }
    }
}

/// One polygon: its corner count must be a multiple of three, then its
/// corners are processed in order.
pub open spec fn add_poly<V: ExtractVertex>(
    m: &Model,
    max: int,
    st: Seq<IndexTuple>,
    p: Seq<IndexTuple>,
) -> Result<Seq<IndexTuple>, ReindexError> {
    if p.len() % 3 != 0 {
        Err(ReindexError::PolygonNotTriangulated { len: p.len() as usize })
    } else {
        add_corners::<V>(m, max, st, p)
    }
}

/// A run of polygons, in order, stopping at the first error.
pub open spec fn add_polys<V: ExtractVertex>(
    m: &Model,
    max: int,
    st: Seq<IndexTuple>,
    ps: Seq<Seq<IndexTuple>>,
) -> Result<Seq<IndexTuple>, ReindexError>
    decreases ps.len(),
{
    if ps.len() == 0 {
        Ok(st)
    } else {
        match add_poly::<V>(m, max, st, ps[0]) {
            Ok(st2) => add_polys::<V>(m, max, st2, ps.drop_first()),
            Err(e) => Err(e),
        }
    }
}

/// One group: its polygons in order.
pub open spec fn add_group<V: ExtractVertex>(
    m: &Model,
    max: int,
    st: Seq<IndexTuple>,
    g: Group,
) -> Result<Seq<IndexTuple>, ReindexError> {
    add_polys::<V>(m, max, st, g.polys@.map_values(|p: Vec<IndexTuple>| p@))
}

/// A run of groups, in order, stopping at the first error.
pub open spec fn add_groups<V: ExtractVertex>(
    m: &Model,
    max: int,
    st: Seq<IndexTuple>,
    gs: Seq<Group>,
) -> Result<Seq<IndexTuple>, ReindexError>
    decreases gs.len(),
{
    if gs.len() == 0 {
        Ok(st)
    } else {
        match add_group::<V>(m, max, st, gs[0]) {
            Ok(st2) => add_groups::<V>(m, max, st2, gs.drop_first()),
            Err(e) => Err(e),
        }
    }
}

/// A run of objects, in order, stopping at the first error.
pub open spec fn add_objects<V: ExtractVertex>(
    m: &Model,
    max: int,
    st: Seq<IndexTuple>,
    os: Seq<Object>,
) -> Result<Seq<IndexTuple>, ReindexError>
    decreases os.len(),
{
    if os.len() == 0 {
        Ok(st)
    } else {
        match add_groups::<V>(m, max, st, os[0].groups@) {
            Ok(st2) => add_objects::<V>(m, max, st2, os.drop_first()),
            Err(e) => Err(e),
        }
    }
}

/// The deduplication state after traversing the whole model: the distinct
/// corner tuples in first-occurrence order, or the first error encountered.
pub open spec fn reindex_state<V: ExtractVertex>(m: &Model, max: int) -> Result<
    Seq<IndexTuple>,
    ReindexError,
> {
    add_objects::<V>(m, max, Seq::empty(), m.objects@)
}

// ------------------------------------------------------------------
// The output of one group, given the final deduplication state.
// ------------------------------------------------------------------

/// The triangles of one polygon: each consecutive corner triple becomes one
/// index triple, corner order preserved.
pub open spec fn poly_triangles(p: Seq<IndexTuple>, ts: Seq<IndexTuple>) -> Seq<(int, int, int)> {
    Seq::new(
        (p.len() / 3) as nat,
        |j: int|
            (first_index(ts, p[3 * j]), first_index(ts, p[3 * j + 1]), first_index(
                ts,
                p[3 * j + 2],
            )),
    )
}

/// The triangles of one group: its polygons' triangles concatenated in
/// polygon order.
pub open spec fn group_triangles(g: Group, ts: Seq<IndexTuple>) -> Seq<(int, int, int)> {
    concat_all(g.polys@.map_values(|p: Vec<IndexTuple>| poly_triangles(p@, ts)))
}

/// The material of one group: converted from its record, or the default.
pub open spec fn group_material(g: Group) -> Material {
    match g.material {
        Option::Some(rec) => Material::from_record_spec(rec),
        Option::None => Material::default_spec(),
    }
}

// ------------------------------------------------------------------
// Splitting the traversal folds.
// ------------------------------------------------------------------

/// Corners split: processing `cs1 + cs2` is processing `cs1`, then `cs2`
/// from the resulting state.
pub proof fn lemma_add_corners_append<V: ExtractVertex>(
    m: &Model,
    max: int,
    st: Seq<IndexTuple>,
    cs1: Seq<IndexTuple>,
    cs2: Seq<IndexTuple>,
)
    ensures
        add_corners::<V>(m, max, st, cs1 + cs2) == match add_corners::<V>(m, max, st, cs1) {
            Ok(st2) => add_corners::<V>(m, max, st2, cs2),
            Err(e) => Err::<Seq<IndexTuple>, ReindexError>(e),
        },
    decreases cs1.len(),
{
    if cs1.len() == 0 {
        assert(cs1 + cs2 =~= cs2);
    } else {
        assert((cs1 + cs2)[0] == cs1[0]);
        assert((cs1 + cs2).drop_first() =~= cs1.drop_first() + cs2);
        if add_corner::<V>(m, max, st, cs1[0]) is Ok {
            let st2 = add_corner::<V>(m, max, st, cs1[0])->Ok_0;
            lemma_add_corners_append::<V>(m, max, st2, cs1.drop_first(), cs2);
        }
    }
}

/// Polygons split.
pub proof fn lemma_add_polys_append<V: ExtractVertex>(
    m: &Model,
    max: int,
    st: Seq<IndexTuple>,
    ps1: Seq<Seq<IndexTuple>>,
    ps2: Seq<Seq<IndexTuple>>,
)
    ensures
        add_polys::<V>(m, max, st, ps1 + ps2) == match add_polys::<V>(m, max, st, ps1) {
            Ok(st2) => add_polys::<V>(m, max, st2, ps2),
            Err(e) => Err::<Seq<IndexTuple>, ReindexError>(e),
        },
    decreases ps1.len(),
{
    if ps1.len() == 0 {
        assert(ps1 + ps2 =~= ps2);
    } else {
        assert((ps1 + ps2)[0] == ps1[0]);
        assert((ps1 + ps2).drop_first() =~= ps1.drop_first() + ps2);
        if add_poly::<V>(m, max, st, ps1[0]) is Ok {
            let st2 = add_poly::<V>(m, max, st, ps1[0])->Ok_0;
            lemma_add_polys_append::<V>(m, max, st2, ps1.drop_first(), ps2);
        }
    }
}

/// Groups split.
pub proof fn lemma_add_groups_append<V: ExtractVertex>(
    m: &Model,
    max: int,
    st: Seq<IndexTuple>,
    gs1: Seq<Group>,
    gs2: Seq<Group>,
)
    ensures
        add_groups::<V>(m, max, st, gs1 + gs2) == match add_groups::<V>(m, max, st, gs1) {
            Ok(st2) => add_groups::<V>(m, max, st2, gs2),
            Err(e) => Err::<Seq<IndexTuple>, ReindexError>(e),
        },
    decreases gs1.len(),
{
    if gs1.len() == 0 {
        assert(gs1 + gs2 =~= gs2);
    } else {
        assert((gs1 + gs2)[0] == gs1[0]);
        assert((gs1 + gs2).drop_first() =~= gs1.drop_first() + gs2);
        if add_group::<V>(m, max, st, gs1[0]) is Ok {
            let st2 = add_group::<V>(m, max, st, gs1[0])->Ok_0;
            lemma_add_groups_append::<V>(m, max, st2, gs1.drop_first(), gs2);
        }
    }
}

/// Objects split.
pub proof fn lemma_add_objects_append<V: ExtractVertex>(
    m: &Model,
    max: int,
    st: Seq<IndexTuple>,
    os1: Seq<Object>,
    os2: Seq<Object>,
)
    ensures
        add_objects::<V>(m, max, st, os1 + os2) == match add_objects::<V>(m, max, st, os1) {
            Ok(st2) => add_objects::<V>(m, max, st2, os2),
            Err(e) => Err::<Seq<IndexTuple>, ReindexError>(e),
        },
    decreases os1.len(),
{
    if os1.len() == 0 {
        assert(os1 + os2 =~= os2);
    } else {
        assert((os1 + os2)[0] == os1[0]);
        assert((os1 + os2).drop_first() =~= os1.drop_first() + os2);
        if add_groups::<V>(m, max, st, os1[0].groups@) is Ok {
            let st2 = add_groups::<V>(m, max, st, os1[0].groups@)->Ok_0;
            lemma_add_objects_append::<V>(m, max, st2, os1.drop_first(), os2);
        }
    }
}

// ------------------------------------------------------------------
// Stability: extending the state moves no already-assigned index.
// ------------------------------------------------------------------

/// A polygon's triangles are unchanged by extending the state, as long as
/// the old state already contains all its corners.
pub proof fn lemma_poly_triangles_stable(
    p: Seq<IndexTuple>,
    ts1: Seq<IndexTuple>,
    ts2: Seq<IndexTuple>,
)
    requires
        ts1.is_prefix_of(ts2),
        corners_in(p, ts1),
    ensures
        corners_in(p, ts2),
        poly_triangles(p, ts1) == poly_triangles(p, ts2),
{
    assert forall|i: int| 0 <= i < p.len() implies ts2.contains(#[trigger] p[i]) by {
        lemma_first_index_prefix(ts1, ts2, p[i]);
    }
    assert forall|i: int| 0 <= i < p.len() implies first_index(ts2, #[trigger] p[i]) == first_index(
        ts1,
        p[i],
    ) by {
        lemma_first_index_prefix(ts1, ts2, p[i]);
    }
    assert(poly_triangles(p, ts1) =~= poly_triangles(p, ts2));
}

/// A group's triangles are unchanged by extending the state, as long as the
/// old state already contains all its corners.
pub proof fn lemma_group_triangles_stable(g: Group, ts1: Seq<IndexTuple>, ts2: Seq<IndexTuple>)
    requires
        ts1.is_prefix_of(ts2),
        group_corners_in(g, ts1),
    ensures
        group_corners_in(g, ts2),
        group_triangles(g, ts1) == group_triangles(g, ts2),
{
    assert forall|i: int| 0 <= i < g.polys@.len() implies corners_in(
        (#[trigger] g.polys@[i])@,
        ts2,
    ) by {
        lemma_poly_triangles_stable(g.polys@[i]@, ts1, ts2);
    }
    assert(g.polys@.map_values(|p: Vec<IndexTuple>| poly_triangles(p@, ts1)) =~= g.polys@.map_values(
        |p: Vec<IndexTuple>| poly_triangles(p@, ts2),
    )) by {
        assert forall|i: int| 0 <= i < g.polys@.len() implies poly_triangles(
            (#[trigger] g.polys@[i])@,
            ts1,
        ) == poly_triangles(g.polys@[i]@, ts2) by {
            lemma_poly_triangles_stable(g.polys@[i]@, ts1, ts2);
        }
    }
}

/// Prefixes compose.
pub proof fn lemma_prefix_trans(a: Seq<IndexTuple>, b: Seq<IndexTuple>, c: Seq<IndexTuple>)
    requires
        a.is_prefix_of(b),
        b.is_prefix_of(c),
    ensures
        a.is_prefix_of(c),
{
    assert forall|i: int| 0 <= i < a.len() implies a[i] == c[i] by {
        assert(a[i] == b[i]);
        assert(b[i] == c[i]);
    }
    assert(a =~= c.subrange(0, a.len() as int));
}

// ------------------------------------------------------------------
// The executable re-indexer.
// ------------------------------------------------------------------

/// The running state of one re-indexing pass: the dense vertex list built
/// so far, and the deduplication cache listing each seen tuple at the
/// position of the dense index it was assigned.
struct ObjectReindexer<V> {
    vertices: Vec<V>,
    cache: Vec<IndexTuple>,
}

impl<V: ExtractVertex> ObjectReindexer<V> {
    /// The cache and vertex list move in lockstep: one distinct tuple per
    /// dense index, each vertex being its tuple's extraction.
    spec fn inv(self, model: &Model) -> bool {
        &&& self.vertices@.len() == self.cache@.len()
        &&& distinct_seq(self.cache@)
        &&& forall|i: int|
            0 <= i < self.cache@.len() ==> V::extract_spec(model, #[trigger] self.cache@[i])
                == Ok::<V, ReindexError>(self.vertices@[i])
    }

    /// Assign one corner its dense index: the index of its first
    /// occurrence, extracting and appending a new vertex if the tuple has
    /// not been seen.
    fn process_vertex<I: IndexType>(&mut self, model: &Model, tuple: &IndexTuple) -> (r: Result<
        I,
        ReindexError,
    >)
        requires
            old(self).inv(model),
            old(self).cache@.len() <= I::max_spec() + 1,
        ensures
            final(self).inv(model),
            final(self).cache@.len() <= I::max_spec() + 1,
            old(self).cache@.is_prefix_of(final(self).cache@),
            match add_corner::<V>(model, I::max_spec(), old(self).cache@, *tuple) {
                Ok(st2) => {
                    &&& final(self).cache@ == st2
                    &&& st2.contains(*tuple)
                    &&& r matches Ok(i) && i.as_int() == first_index(st2, *tuple)
                },
                Err(e) => r == Err::<I, ReindexError>(e) && *final(self) == *old(self),
            },
    {
        match find_tuple(&self.cache, tuple) {
            Some(j) => {
                match I::try_from_usize(j) {
                    Some(i) => Ok(i),
                    None => {
                        proof {
                            assert(false);
                        }
                        Err(ReindexError::IndexOverflow { index: j })
                    },
                }
            },
            None => {
                let index = self.vertices.len();
                match I::try_from_usize(index) {
                    None => Err(ReindexError::IndexOverflow { index }),
                    Some(i) => {
                        match V::extract(model, tuple) {
                            Err(e) => Err(e),
                            Ok(v) => {
                                self.vertices.push(v);
                                self.cache.push(*tuple);
                                proof {
                                    lemma_first_index_push_new(old(self).cache@, *tuple);
                                    assert(self.cache@ =~= old(self).cache@.push(*tuple));
                                    assert(self.cache@ =~= self.cache@.subrange(
                                        0,
                                        self.cache@.len() as int,
                                    ));
                                }
                                Ok(i)
                            },
                        }
                    },
                }
            },
        }
    }
}

impl<V: ExtractVertex> ObjectReindexer<V> {
    /// Emit one polygon's triangles: check that the corner count is a
    /// multiple of three, then push one triangle per consecutive corner
    /// triple, each corner mapped to its dense index.
    fn process_indices<I: IndexType>(
        &mut self,
        model: &Model,
        faces: &mut Vec<Triangle<I>>,
        poly: &Vec<IndexTuple>,
    ) -> (r: Result<(), ReindexError>)
        requires
            old(self).inv(model),
            old(self).cache@.len() <= I::max_spec() + 1,
            forall|j: int|
                0 <= j < old(faces)@.len() ==> (#[trigger] old(faces)@[j]).in_bounds(
                    old(self).cache@.len() as int,
                ),
        ensures
            final(self).inv(model),
            final(self).cache@.len() <= I::max_spec() + 1,
            old(self).cache@.is_prefix_of(final(self).cache@),
            match add_poly::<V>(model, I::max_spec(), old(self).cache@, poly@) {
                Ok(st2) => {
                    &&& r is Ok
                    &&& final(self).cache@ == st2
                    &&& final(faces)@.len() == old(faces)@.len() + poly@.len() / 3
                    &&& forall|j: int|
                        0 <= j < old(faces)@.len() ==> final(faces)@[j] == old(faces)@[j]
                    &&& corners_in(poly@, st2)
                    &&& final(faces)@.skip(old(faces)@.len() as int).map_values(
                        |tr: Triangle<I>| tr.idxs(),
                    ) == poly_triangles(poly@, st2)
                    &&& forall|j: int|
                        0 <= j < final(faces)@.len() ==> (#[trigger] final(faces)@[j]).in_bounds(
                            st2.len() as int,
                        )
                },
                Err(e) => r == Err::<(), ReindexError>(e),
            },
    {
        let len = poly.len();
        if len % 3 != 0 {
            return Err(ReindexError::PolygonNotTriangulated { len });
        }
        let n = len / 3;
        let ghost max = I::max_spec();
        let ghost st0 = self.cache@;
        let ghost f0 = faces@;
        let mut i: usize = 0;
        while i < n
            invariant
                i <= n,
                n == poly@.len() / 3,
                len == poly@.len(),
                len % 3 == 0,
                self.inv(model),
                self.cache@.len() <= max + 1,
                max == I::max_spec(),
                st0 == old(self).cache@,
                f0 == old(faces)@,
                st0.is_prefix_of(self.cache@),
                add_corners::<V>(model, max, st0, poly@.take(3 * i)) == Ok::<
                    Seq<IndexTuple>,
                    ReindexError,
                >(self.cache@),
                faces@.len() == f0.len() + i,
                forall|j: int| 0 <= j < f0.len() ==> faces@[j] == f0[j],
                corners_in(poly@.take(3 * i), self.cache@),
                forall|j: int|
                    0 <= j < i ==> (#[trigger] faces@[f0.len() + j]).idxs() == (
                        first_index(self.cache@, poly@[3 * j]),
                        first_index(self.cache@, poly@[3 * j + 1]),
                        first_index(self.cache@, poly@[3 * j + 2]),
                    ),
                forall|j: int|
                    0 <= j < faces@.len() ==> (#[trigger] faces@[j]).in_bounds(
                        self.cache@.len() as int,
                    ),
            decreases n - i,
        {
            proof {
                assert(3 * i + 3 <= len) by {
                    assert(len == 3 * n);
                }
            }
            let ghost st_a = self.cache@;
            let a = match self.process_vertex::<I>(model, &poly[3 * i]) {
                Ok(x) => x,
                Err(e) => {
                    proof {
                        lemma_corner_error_lift::<V>(model, max, st0, poly@, 3 * (i as int), e);
                    }
                    return Err(e);
                },
            };
            let ghost st_b = self.cache@;
            proof {
                lemma_corner_ok_lift::<V>(model, max, st0, poly@, 3 * (i as int), st_b);
            }
            let b = match self.process_vertex::<I>(model, &poly[3 * i + 1]) {
                Ok(x) => x,
                Err(e) => {
                    proof {
                        lemma_corner_error_lift::<V>(model, max, st0, poly@, 3 * (i as int) + 1, e);
                    }
                    return Err(e);
                },
            };
            let ghost st_c = self.cache@;
            proof {
                lemma_corner_ok_lift::<V>(model, max, st0, poly@, 3 * (i as int) + 1, st_c);
            }
            let c = match self.process_vertex::<I>(model, &poly[3 * i + 2]) {
                Ok(x) => x,
                Err(e) => {
                    proof {
                        lemma_corner_error_lift::<V>(model, max, st0, poly@, 3 * (i as int) + 2, e);
                    }
                    return Err(e);
                },
            };
            let ghost st_d = self.cache@;
            proof {
                lemma_corner_ok_lift::<V>(model, max, st0, poly@, 3 * (i as int) + 2, st_d);
            }
            faces.push(Triangle([a, b, c]));
            proof {
                lemma_prefix_trans(st0, st_a, st_d);
                // the three corners keep their indices as the state grows
                lemma_first_index_prefix(st_b, st_c, poly@[3 * i]);
                lemma_first_index_prefix(st_c, st_d, poly@[3 * i]);
                lemma_first_index_prefix(st_c, st_d, poly@[3 * i + 1]);
                lemma_first_index_props(st_d, poly@[3 * i]);
                lemma_first_index_props(st_d, poly@[3 * i + 1]);
                lemma_first_index_props(st_d, poly@[3 * i + 2]);
                assert(faces@.last().0@[0] == a);
                assert(faces@.last().idxs() == (
                    first_index(st_d, poly@[3 * i]),
                    first_index(st_d, poly@[3 * i + 1]),
                    first_index(st_d, poly@[3 * i + 2]),
                ));
                // earlier corners and faces are stable under the extension
                assert(st_a.is_prefix_of(st_d)) by {
                    lemma_prefix_trans(st_a, st_b, st_c);
                    lemma_prefix_trans(st_a, st_c, st_d);
                }
                assert forall|k: int| 0 <= k < 3 * i + 3 implies st_d.contains(
                    #[trigger] poly@.take(3 * (i + 1))[k],
                ) by {
                    if k < 3 * i {
                        assert(poly@.take(3 * i)[k] == poly@.take(3 * (i + 1))[k]);
                        assert(st_a.contains(poly@.take(3 * i)[k]));
                        lemma_first_index_prefix(st_a, st_d, poly@.take(3 * i)[k]);
                    } else {
                        assert(poly@.take(3 * (i + 1))[k] == poly@[k]);
                    }
                }
                assert(st_a.len() <= st_d.len());
                assert forall|j: int| 0 <= j < i implies (#[trigger] faces@[f0.len() + j]).idxs()
                    == (
                    first_index(st_d, poly@[3 * j]),
                    first_index(st_d, poly@[3 * j + 1]),
                    first_index(st_d, poly@[3 * j + 2]),
                ) by {
                    assert(poly@.take(3 * (i as int))[3 * j] == poly@[3 * j]);
                    assert(poly@.take(3 * (i as int))[3 * j + 1] == poly@[3 * j + 1]);
                    assert(poly@.take(3 * (i as int))[3 * j + 2] == poly@[3 * j + 2]);
                    assert(st_a.contains(poly@[3 * j]));
                    assert(st_a.contains(poly@[3 * j + 1]));
                    assert(st_a.contains(poly@[3 * j + 2]));
                    lemma_first_index_prefix(st_a, st_d, poly@[3 * j]);
                    lemma_first_index_prefix(st_a, st_d, poly@[3 * j + 1]);
                    lemma_first_index_prefix(st_a, st_d, poly@[3 * j + 2]);
                }
            }
            i += 1;
        }
        proof {
            assert(poly@.take(3 * (n as int)) =~= poly@) by {
                assert(len == 3 * n);
            }
            let fin = faces@.skip(f0.len() as int).map_values(|tr: Triangle<I>| tr.idxs());
            let want = poly_triangles(poly@, self.cache@);
            assert(fin.len() == n);
            assert(want.len() == n);
            assert forall|j: int| 0 <= j < n implies fin[j] == want[j] by {
                assert(faces@.skip(f0.len() as int)[j] == faces@[f0.len() + j]);
            }
            assert(fin =~= want);
        }
        Ok(())
    }
}

/// From `add_corners(st0, poly.take(k)) == Ok(mid)` and a failing corner at
/// position `k`, the whole polygon fails with the same error.
proof fn lemma_corner_error_lift<V: ExtractVertex>(
    m: &Model,
    max: int,
    st0: Seq<IndexTuple>,
    p: Seq<IndexTuple>,
    k: int,
    e: ReindexError,
)
    requires
        0 <= k < p.len(),
        p.len() % 3 == 0,
        add_corners::<V>(m, max, st0, p.take(k)) is Ok,
        add_corner::<V>(m, max, add_corners::<V>(m, max, st0, p.take(k))->Ok_0, p[k]) == Err::<
            Seq<IndexTuple>,
            ReindexError,
        >(e),
    ensures
        add_poly::<V>(m, max, st0, p) == Err::<Seq<IndexTuple>, ReindexError>(e),
{
    let mid = add_corners::<V>(m, max, st0, p.take(k))->Ok_0;
    assert(p =~= p.take(k) + p.skip(k));
    lemma_add_corners_append::<V>(m, max, st0, p.take(k), p.skip(k));
    assert(p.skip(k)[0] == p[k]);
    assert(add_corners::<V>(m, max, mid, p.skip(k)) == Err::<Seq<IndexTuple>, ReindexError>(e));
}

/// From `add_corners(st0, poly.take(k)) == Ok(mid)` and a succeeding corner
/// at position `k` yielding `st2`, the prefix one longer yields `st2`.
proof fn lemma_corner_ok_lift<V: ExtractVertex>(
    m: &Model,
    max: int,
    st0: Seq<IndexTuple>,
    p: Seq<IndexTuple>,
    k: int,
    st2: Seq<IndexTuple>,
)
    requires
        0 <= k < p.len(),
        add_corners::<V>(m, max, st0, p.take(k)) is Ok,
        add_corner::<V>(m, max, add_corners::<V>(m, max, st0, p.take(k))->Ok_0, p[k]) == Ok::<
            Seq<IndexTuple>,
            ReindexError,
        >(st2),
    ensures
        add_corners::<V>(m, max, st0, p.take(k + 1)) == Ok::<Seq<IndexTuple>, ReindexError>(st2),
{
    let mid = add_corners::<V>(m, max, st0, p.take(k))->Ok_0;
    assert(p.take(k + 1) =~= p.take(k) + seq![p[k]]);
    lemma_add_corners_append::<V>(m, max, st0, p.take(k), seq![p[k]]);
    let s1 = seq![p[k]];
    assert(s1[0] == p[k]);
    assert(s1.drop_first().len() == 0);
    assert(add_corners::<V>(m, max, st2, s1.drop_first()) == Ok::<Seq<IndexTuple>, ReindexError>(
        st2,
    ));
    assert(add_corners::<V>(m, max, mid, s1) == Ok::<Seq<IndexTuple>, ReindexError>(st2));
}

/// From a state reached by the first `k` polygons and a failing polygon at
/// position `k`, the whole polygon run fails with the same error.
proof fn lemma_poly_error_lift<V: ExtractVertex>(
    m: &Model,
    max: int,
    st0: Seq<IndexTuple>,
    ps: Seq<Seq<IndexTuple>>,
    k: int,
    e: ReindexError,
)
    requires
        0 <= k < ps.len(),
        add_polys::<V>(m, max, st0, ps.take(k)) is Ok,
        add_poly::<V>(m, max, add_polys::<V>(m, max, st0, ps.take(k))->Ok_0, ps[k]) == Err::<
            Seq<IndexTuple>,
            ReindexError,
        >(e),
    ensures
        add_polys::<V>(m, max, st0, ps) == Err::<Seq<IndexTuple>, ReindexError>(e),
{
    let mid = add_polys::<V>(m, max, st0, ps.take(k))->Ok_0;
    assert(ps =~= ps.take(k) + ps.skip(k));
    lemma_add_polys_append::<V>(m, max, st0, ps.take(k), ps.skip(k));
    assert(ps.skip(k)[0] == ps[k]);
    assert(add_polys::<V>(m, max, mid, ps.skip(k)) == Err::<Seq<IndexTuple>, ReindexError>(e));
}

/// From a state reached by the first `k` polygons and a succeeding polygon
/// at position `k` yielding `st2`, the prefix one longer yields `st2`.
proof fn lemma_poly_ok_lift<V: ExtractVertex>(
    m: &Model,
    max: int,
    st0: Seq<IndexTuple>,
    ps: Seq<Seq<IndexTuple>>,
    k: int,
    st2: Seq<IndexTuple>,
)
    requires
        0 <= k < ps.len(),
        add_polys::<V>(m, max, st0, ps.take(k)) is Ok,
        add_poly::<V>(m, max, add_polys::<V>(m, max, st0, ps.take(k))->Ok_0, ps[k]) == Ok::<
            Seq<IndexTuple>,
            ReindexError,
        >(st2),
    ensures
        add_polys::<V>(m, max, st0, ps.take(k + 1)) == Ok::<Seq<IndexTuple>, ReindexError>(st2),
{
    let mid = add_polys::<V>(m, max, st0, ps.take(k))->Ok_0;
    assert(ps.take(k + 1) =~= ps.take(k) + seq![ps[k]]);
    lemma_add_polys_append::<V>(m, max, st0, ps.take(k), seq![ps[k]]);
    let s1 = seq![ps[k]];
    assert(s1[0] == ps[k]);
    assert(s1.drop_first().len() == 0);
    assert(add_polys::<V>(m, max, st2, s1.drop_first()) == Ok::<Seq<IndexTuple>, ReindexError>(
        st2,
    ));
    assert(add_polys::<V>(m, max, mid, s1) == Ok::<Seq<IndexTuple>, ReindexError>(st2));
}

impl<V: ExtractVertex> ObjectReindexer<V> {
    /// Emit one group: its polygons' triangles in order, paired with its
    /// material (converted from the group's record, or the default).
    fn process_group<I: IndexType>(&mut self, model: &Model, group: &Group) -> (r: Result<
        (TriangleList<I>, Material),
        ReindexError,
    >)
        requires
            old(self).inv(model),
            old(self).cache@.len() <= I::max_spec() + 1,
        ensures
            final(self).inv(model),
            final(self).cache@.len() <= I::max_spec() + 1,
            old(self).cache@.is_prefix_of(final(self).cache@),
            match add_group::<V>(model, I::max_spec(), old(self).cache@, *group) {
                Ok(st2) => {
                    &&& r matches Ok(out) && {
                        &&& out.0.idx_seq() == group_triangles(*group, st2)
                        &&& out.0.wf(st2.len() as int)
                        &&& out.1 == group_material(*group)
                    }
                    &&& final(self).cache@ == st2
                    &&& group_corners_in(*group, st2)
                },
                Err(e) => r == Err::<(TriangleList<I>, Material), ReindexError>(e),
            },
    {
        let ghost max = I::max_spec();
        let ghost st0 = self.cache@;
        let ghost ps = group.polys@.map_values(|p: Vec<IndexTuple>| p@);
        let mut faces: Vec<Triangle<I>> = Vec::new();
        let mut pi: usize = 0;
        while pi < group.polys.len()
            invariant
                pi <= group.polys@.len(),
                self.inv(model),
                self.cache@.len() <= max + 1,
                max == I::max_spec(),
                st0 == old(self).cache@,
                ps == group.polys@.map_values(|p: Vec<IndexTuple>| p@),
                st0.is_prefix_of(self.cache@),
                add_polys::<V>(model, max, st0, ps.take(pi as int)) == Ok::<
                    Seq<IndexTuple>,
                    ReindexError,
                >(self.cache@),
                forall|h: int| 0 <= h < pi ==> corners_in(#[trigger] ps[h], self.cache@),
                faces@.map_values(|tr: Triangle<I>| tr.idxs()) == concat_all(
                    ps.take(pi as int).map_values(
                        |p: Seq<IndexTuple>| poly_triangles(p, self.cache@),
                    ),
                ),
                forall|j: int|
                    0 <= j < faces@.len() ==> (#[trigger] faces@[j]).in_bounds(
                        self.cache@.len() as int,
                    ),
            decreases group.polys@.len() - pi,
        {
            let ghost st_a = self.cache@;
            let ghost fpre = faces@;
            let res = self.process_indices::<I>(model, &mut faces, &group.polys[pi]);
            proof {
                assert(ps[pi as int] == group.polys@[pi as int]@);
            }
            match res {
                Err(e) => {
                    proof {
                        lemma_poly_error_lift::<V>(model, max, st0, ps, pi as int, e);
                    }
                    return Err(e);
                },
                Ok(_) => {},
            }
            let ghost st_b = self.cache@;
            proof {
                lemma_poly_ok_lift::<V>(model, max, st0, ps, pi as int, st_b);
                lemma_prefix_trans(st0, st_a, st_b);
                assert(st_a.len() <= st_b.len());
                // earlier polygons stay contained and keep their triangles
                assert forall|h: int| 0 <= h < pi + 1 implies corners_in(
                    #[trigger] ps[h],
                    st_b,
                ) by {
                    if h < pi {
                        lemma_poly_triangles_stable(ps[h], st_a, st_b);
                    }
                }
                // the new face list viewed as index triples
                let idxs_of = |tr: Triangle<I>| tr.idxs();
                let mapped_a = ps.take(pi as int).map_values(
                    |p: Seq<IndexTuple>| poly_triangles(p, st_a),
                );
                let mapped_b = ps.take(pi as int).map_values(
                    |p: Seq<IndexTuple>| poly_triangles(p, st_b),
                );
                assert(mapped_a =~= mapped_b) by {
                    assert forall|h: int| 0 <= h < pi implies poly_triangles(
                        #[trigger] ps.take(pi as int)[h],
                        st_a,
                    ) == poly_triangles(ps.take(pi as int)[h], st_b) by {
                        lemma_poly_triangles_stable(ps[h], st_a, st_b);
                    }
                }
                let full_b = ps.map_values(|p: Seq<IndexTuple>| poly_triangles(p, st_b));
                assert(fpre.map_values(idxs_of) == concat_all(mapped_b));
                assert(faces@ =~= fpre + faces@.skip(fpre.len() as int));
                assert(faces@.map_values(idxs_of) =~= fpre.map_values(idxs_of) + faces@.skip(
                    fpre.len() as int,
                ).map_values(idxs_of));
                assert(full_b.take(pi as int) =~= mapped_b);
                lemma_concat_all_take_succ(full_b, pi as int);
                assert(full_b[pi as int] == poly_triangles(ps[pi as int], st_b));
                assert(full_b.take(pi as int + 1) =~= ps.take(pi as int + 1).map_values(
                    |p: Seq<IndexTuple>| poly_triangles(p, st_b),
                ));
                assert(faces@.map_values(idxs_of) == concat_all(
                    ps.take(pi as int + 1).map_values(
                        |p: Seq<IndexTuple>| poly_triangles(p, st_b),
                    ),
                ));
            }
            pi += 1;
        }
        let material = match &group.material {
            Some(rec) => Material::from_record(rec),
            None => Material::default(),
        };
        proof {
            assert(ps.take(group.polys@.len() as int) =~= ps);
            let ts = self.cache@;
            assert(ps.map_values(|p: Seq<IndexTuple>| poly_triangles(p, ts))
                =~= group.polys@.map_values(|p: Vec<IndexTuple>| poly_triangles(p@, ts)));
            assert forall|h: int| 0 <= h < group.polys@.len() implies corners_in(
                (#[trigger] group.polys@[h])@,
                ts,
            ) by {
                assert(corners_in(ps[h], ts));
            }
        }
        Ok((TriangleList(faces), material))
    }
}

/// From a state reached by the first `k` groups and a failing group at
/// position `k`, the whole group run fails with the same error.
proof fn lemma_group_error_lift<V: ExtractVertex>(
    m: &Model,
    max: int,
    st0: Seq<IndexTuple>,
    gs: Seq<Group>,
    k: int,
    e: ReindexError,
)
    requires
        0 <= k < gs.len(),
        add_groups::<V>(m, max, st0, gs.take(k)) is Ok,
        add_group::<V>(m, max, add_groups::<V>(m, max, st0, gs.take(k))->Ok_0, gs[k]) == Err::<
            Seq<IndexTuple>,
            ReindexError,
        >(e),
    ensures
        add_groups::<V>(m, max, st0, gs) == Err::<Seq<IndexTuple>, ReindexError>(e),
{
    let mid = add_groups::<V>(m, max, st0, gs.take(k))->Ok_0;
    assert(gs =~= gs.take(k) + gs.skip(k));
    lemma_add_groups_append::<V>(m, max, st0, gs.take(k), gs.skip(k));
    assert(gs.skip(k)[0] == gs[k]);
    assert(add_groups::<V>(m, max, mid, gs.skip(k)) == Err::<Seq<IndexTuple>, ReindexError>(e));
}

/// From a state reached by the first `k` groups and a succeeding group at
/// position `k` yielding `st2`, the prefix one longer yields `st2`.
proof fn lemma_group_ok_lift<V: ExtractVertex>(
    m: &Model,
    max: int,
    st0: Seq<IndexTuple>,
    gs: Seq<Group>,
    k: int,
    st2: Seq<IndexTuple>,
)
    requires
        0 <= k < gs.len(),
        add_groups::<V>(m, max, st0, gs.take(k)) is Ok,
        add_group::<V>(m, max, add_groups::<V>(m, max, st0, gs.take(k))->Ok_0, gs[k]) == Ok::<
            Seq<IndexTuple>,
            ReindexError,
        >(st2),
    ensures
        add_groups::<V>(m, max, st0, gs.take(k + 1)) == Ok::<Seq<IndexTuple>, ReindexError>(st2),
{
    let mid = add_groups::<V>(m, max, st0, gs.take(k))->Ok_0;
    assert(gs.take(k + 1) =~= gs.take(k) + seq![gs[k]]);
    lemma_add_groups_append::<V>(m, max, st0, gs.take(k), seq![gs[k]]);
    let s1 = seq![gs[k]];
    assert(s1[0] == gs[k]);
    assert(s1.drop_first().len() == 0);
    assert(add_groups::<V>(m, max, st2, s1.drop_first()) == Ok::<Seq<IndexTuple>, ReindexError>(
        st2,
    ));
    assert(add_groups::<V>(m, max, mid, s1) == Ok::<Seq<IndexTuple>, ReindexError>(st2));
}

/// From a state reached by the first `k` objects and a failing group run in
/// the object at position `k`, the whole model fails with the same error.
proof fn lemma_object_error_lift<V: ExtractVertex>(
    m: &Model,
    max: int,
    st0: Seq<IndexTuple>,
    os: Seq<Object>,
    k: int,
    e: ReindexError,
)
    requires
        0 <= k < os.len(),
        add_objects::<V>(m, max, st0, os.take(k)) is Ok,
        add_groups::<V>(m, max, add_objects::<V>(m, max, st0, os.take(k))->Ok_0, os[k].groups@)
            == Err::<Seq<IndexTuple>, ReindexError>(e),
    ensures
        add_objects::<V>(m, max, st0, os) == Err::<Seq<IndexTuple>, ReindexError>(e),
{
    let mid = add_objects::<V>(m, max, st0, os.take(k))->Ok_0;
    assert(os =~= os.take(k) + os.skip(k));
    lemma_add_objects_append::<V>(m, max, st0, os.take(k), os.skip(k));
    assert(os.skip(k)[0] == os[k]);
    assert(add_objects::<V>(m, max, mid, os.skip(k)) == Err::<Seq<IndexTuple>, ReindexError>(e));
}

/// From a state reached by the first `k` objects and a succeeding group run
/// in the object at position `k` yielding `st2`, the prefix one longer
/// yields `st2`.
proof fn lemma_object_ok_lift<V: ExtractVertex>(
    m: &Model,
    max: int,
    st0: Seq<IndexTuple>,
    os: Seq<Object>,
    k: int,
    st2: Seq<IndexTuple>,
)
    requires
        0 <= k < os.len(),
        add_objects::<V>(m, max, st0, os.take(k)) is Ok,
        add_groups::<V>(m, max, add_objects::<V>(m, max, st0, os.take(k))->Ok_0, os[k].groups@)
            == Ok::<Seq<IndexTuple>, ReindexError>(st2),
    ensures
        add_objects::<V>(m, max, st0, os.take(k + 1)) == Ok::<Seq<IndexTuple>, ReindexError>(st2),
{
    let mid = add_objects::<V>(m, max, st0, os.take(k))->Ok_0;
    assert(os.take(k + 1) =~= os.take(k) + seq![os[k]]);
    lemma_add_objects_append::<V>(m, max, st0, os.take(k), seq![os[k]]);
    let s1 = seq![os[k]];
    assert(s1[0] == os[k]);
    assert(s1.drop_first().len() == 0);
    assert(add_objects::<V>(m, max, st2, s1.drop_first()) == Ok::<Seq<IndexTuple>, ReindexError>(
        st2,
    ));
    assert(add_objects::<V>(m, max, mid, s1) == Ok::<Seq<IndexTuple>, ReindexError>(st2));
}

impl<V: ExtractVertex> ObjectReindexer<V> {
    /// Traverse every object and group of the model, in order, building the
    /// dense vertex list and one polygon-group entry per group.
    fn process<I: IndexType>(self, model: &Model) -> (r: Result<Mesh<V, I>, ReindexError>)
        requires
            self.inv(model),
            self.cache@.len() <= I::max_spec() + 1,
        ensures
            match add_objects::<V>(model, I::max_spec(), self.cache@, model.objects@) {
                Ok(ts) => r matches Ok(mesh) && {
                    &&& mesh.vertices@.len() == ts.len()
                    &&& forall|i: int|
                        0 <= i < ts.len() ==> V::extract_spec(model, #[trigger] ts[i]) == Ok::<
                            V,
                            ReindexError,
                        >(mesh.vertices@[i])
                    &&& mesh.polygons@.len() == model_groups(*model).len()
                    &&& forall|h: int|
                        0 <= h < model_groups(*model).len() ==> {
                            &&& (#[trigger] mesh.polygons@[h]).0.idx_seq() == group_triangles(
                                model_groups(*model)[h],
                                ts,
                            )
                            &&& mesh.polygons@[h].1 == group_material(model_groups(*model)[h])
                        }
                    &&& mesh.wf()
                },
                Err(e) => r == Err::<Mesh<V, I>, ReindexError>(e),
            },
    {
        let ghost max = I::max_spec();
        let ghost st0 = self.cache@;
        let mut this = self;
        let mut polygons: Vec<(TriangleList<I>, Material)> = Vec::new();
        let mut oi: usize = 0;
        while oi < model.objects.len()
            invariant
                oi <= model.objects@.len(),
                this.inv(model),
                this.cache@.len() <= max + 1,
                max == I::max_spec(),
                st0 == self.cache@,
                st0.is_prefix_of(this.cache@),
                add_objects::<V>(model, max, st0, model.objects@.take(oi as int)) == Ok::<
                    Seq<IndexTuple>,
                    ReindexError,
                >(this.cache@),
                polygons@.len() == concat_all(
                    model.objects@.take(oi as int).map_values(|o: Object| o.groups@),
                ).len(),
                forall|h: int|
                    0 <= h < polygons@.len() ==> {
                        let g = concat_all(
                            model.objects@.take(oi as int).map_values(|o: Object| o.groups@),
                        )[h];
                        &&& (#[trigger] polygons@[h]).0.idx_seq() == group_triangles(
                            g,
                            this.cache@,
                        )
                        &&& polygons@[h].1 == group_material(g)
                        &&& group_corners_in(g, this.cache@)
                        &&& polygons@[h].0.wf(this.cache@.len() as int)
                    },
            decreases model.objects@.len() - oi,
        {
            let ghost mid_oi = this.cache@;
            let ghost dout = concat_all(
                model.objects@.take(oi as int).map_values(|o: Object| o.groups@),
            );
            let glen = model.objects[oi].groups.len();
            let mut gi: usize = 0;
            while gi < glen
                invariant
                    gi <= glen,
                    oi < model.objects@.len(),
                    glen == model.objects@[oi as int].groups@.len(),
                    this.inv(model),
                    this.cache@.len() <= max + 1,
                    max == I::max_spec(),
                    st0 == self.cache@,
                    st0.is_prefix_of(this.cache@),
                    mid_oi.is_prefix_of(this.cache@),
                    add_objects::<V>(model, max, st0, model.objects@.take(oi as int)) == Ok::<
                        Seq<IndexTuple>,
                        ReindexError,
                    >(mid_oi),
                    dout == concat_all(
                        model.objects@.take(oi as int).map_values(|o: Object| o.groups@),
                    ),
                    add_groups::<V>(
                        model,
                        max,
                        mid_oi,
                        model.objects@[oi as int].groups@.take(gi as int),
                    ) == Ok::<Seq<IndexTuple>, ReindexError>(this.cache@),
                    polygons@.len() == dout.len() + gi,
                    forall|h: int|
                        0 <= h < polygons@.len() ==> {
                            let g = (dout + model.objects@[oi as int].groups@.take(gi as int))[h];
                            &&& (#[trigger] polygons@[h]).0.idx_seq() == group_triangles(
                                g,
                                this.cache@,
                            )
                            &&& polygons@[h].1 == group_material(g)
                            &&& group_corners_in(g, this.cache@)
                            &&& polygons@[h].0.wf(this.cache@.len() as int)
                        },
                decreases glen - gi,
            {
                let ghost st_a = this.cache@;
                let res = this.process_group::<I>(model, &model.objects[oi].groups[gi]);
                let ghost gcur = model.objects@[oi as int].groups@[gi as int];
                let out = match res {
                    Err(e) => {
                        proof {
                            lemma_group_error_lift::<V>(
                                model,
                                max,
                                mid_oi,
                                model.objects@[oi as int].groups@,
                                gi as int,
                                e,
                            );
                            lemma_object_error_lift::<V>(
                                model,
                                max,
                                st0,
                                model.objects@,
                                oi as int,
                                e,
                            );
                        }
                        return Err(e);
                    },
                    Ok(out) => out,
                };
                let ghost st_b = this.cache@;
                let ghost ppre = polygons@;
                polygons.push(out);
                proof {
                    lemma_group_ok_lift::<V>(
                        model,
                        max,
                        mid_oi,
                        model.objects@[oi as int].groups@,
                        gi as int,
                        st_b,
                    );
                    lemma_prefix_trans(st0, st_a, st_b);
                    lemma_prefix_trans(mid_oi, st_a, st_b);
                    assert(st_a.len() <= st_b.len());
                    let gs = model.objects@[oi as int].groups@;
                    assert(dout + gs.take(gi as int + 1) =~= (dout + gs.take(gi as int)).push(
                        gcur,
                    ));
                    assert forall|h: int| 0 <= h < polygons@.len() implies {
                        let g = (dout + gs.take(gi as int + 1))[h];
                        &&& (#[trigger] polygons@[h]).0.idx_seq() == group_triangles(
                            g,
                            this.cache@,
                        )
                        &&& polygons@[h].1 == group_material(g)
                        &&& group_corners_in(g, this.cache@)
                        &&& polygons@[h].0.wf(this.cache@.len() as int)
                    } by {
                        if h < dout.len() + gi {
                            let g = (dout + gs.take(gi as int))[h];
                            assert(polygons@[h] == ppre[h]);
                            assert((dout + gs.take(gi as int + 1))[h] == g);
                            lemma_group_triangles_stable(g, st_a, st_b);
                        } else {
                            assert(polygons@[h] == out);
                            assert((dout + gs.take(gi as int + 1))[h] == gcur);
                        }
                    }
                }
                gi += 1;
            }
            proof {
                let gs = model.objects@[oi as int].groups@;
                assert(gs.take(glen as int) =~= gs);
                lemma_object_ok_lift::<V>(model, max, st0, model.objects@, oi as int, this.cache@);
                let mapped = model.objects@.map_values(|o: Object| o.groups@);
                assert(mapped.take(oi as int) =~= model.objects@.take(oi as int).map_values(
                    |o: Object| o.groups@,
                ));
                assert(mapped.take(oi as int + 1) =~= model.objects@.take(oi as int + 1).map_values(
                    |o: Object| o.groups@,
                ));
                lemma_concat_all_take_succ(mapped, oi as int);
                assert(mapped[oi as int] == gs);
                assert(concat_all(
                    model.objects@.take(oi as int + 1).map_values(|o: Object| o.groups@),
                ) =~= dout + gs);
            }
            oi += 1;
        }
        let mesh = Mesh::<V, I> { vertices: this.vertices, polygons };
        proof {
            assert(model.objects@.take(model.objects@.len() as int) =~= model.objects@);
            let ts = this.cache@;
            let done = concat_all(model.objects@.map_values(|o: Object| o.groups@));
            assert(model.objects@.take(model.objects@.len() as int).map_values(
                |o: Object| o.groups@,
            ) =~= model.objects@.map_values(|o: Object| o.groups@));
            assert(model_groups(*model) == done);
            assert forall|h: int| 0 <= h < mesh.polygons@.len() implies (
            #[trigger] mesh.polygons@[h]).0.wf(mesh.vertices@.len() as int) by {
                assert(mesh.polygons@[h].0.wf(ts.len() as int));
            }
        }
        Ok(mesh)
    }
}

/// Convert a parsed model into a dense, deduplicated mesh for the vertex
/// shape `V` and index type `I`.
///
/// On success the mesh holds each distinct corner tuple's vertex exactly
/// once, in first-occurrence order; every triangle references only valid
/// dense indices; and the polygon-group count equals the model's total
/// group count, each group carrying its converted (or default) material.
/// Any malformed polygon, out-of-range or missing attribute index, or dense
/// index overflowing `I` aborts the whole operation with the first error in
/// traversal order, exactly as [`reindex_state`] states.
pub fn reindex<V: ExtractVertex, I: IndexType>(model: &Model) -> (r: Result<
    Mesh<V, I>,
    ReindexError,
>)
    ensures
        match reindex_state::<V>(model, I::max_spec()) {
            Ok(ts) => r matches Ok(mesh) && {
                &&& mesh.vertices@.len() == ts.len()
                &&& forall|i: int|
                    0 <= i < ts.len() ==> V::extract_spec(model, #[trigger] ts[i]) == Ok::<
                        V,
                        ReindexError,
                    >(mesh.vertices@[i])
                &&& mesh.polygons@.len() == model_groups(*model).len()
                &&& forall|h: int|
                    0 <= h < model_groups(*model).len() ==> {
                        &&& (#[trigger] mesh.polygons@[h]).0.idx_seq() == group_triangles(
                            model_groups(*model)[h],
                            ts,
                        )
                        &&& mesh.polygons@[h].1 == group_material(model_groups(*model)[h])
                    }
                &&& mesh.wf()
            },
            Err(e) => r == Err::<Mesh<V, I>, ReindexError>(e),
        },
{
    let rx = ObjectReindexer::<V> {
        vertices: Vec::with_capacity(model.position.len()),
        cache: Vec::new(),
    };
    proof {
        I::lemma_max();
        assert(rx.cache@ =~= Seq::<IndexTuple>::empty());
    }
    rx.process::<I>(model)
}

/// Linear search of the deduplication cache for a corner tuple.
fn find_tuple(cache: &Vec<IndexTuple>, tuple: &IndexTuple) -> (r: Option<usize>)
    ensures
        match r {
            Some(j) => {
                &&& j < cache@.len()
                &&& cache@.contains(*tuple)
                &&& j as int == first_index(cache@, *tuple)
            },
            None => !cache@.contains(*tuple),
        },
{
    let mut j: usize = 0;
    while j < cache.len()
        invariant
            j <= cache@.len(),
            forall|k: int| 0 <= k < j ==> cache@[k] != *tuple,
        decreases cache@.len() - j,
    {
        if tuple_eq(&cache[j], tuple) {
            proof {
                lemma_first_index_is(cache@, *tuple, j as int);
            }
            return Some(j);
        }
        j += 1;
    }
    None
}

// ------------------------------------------------------------------
// Laws.
// ------------------------------------------------------------------

/// `seen` extended by the first occurrence of each distinct tuple of `cs`,
/// in encounter order.
pub open spec fn first_occurrences(seen: Seq<IndexTuple>, cs: Seq<IndexTuple>) -> Seq<IndexTuple>
    decreases cs.len(),
{
    if cs.len() == 0 {
        seen
    } else {
        let seen2 = if seen.contains(cs[0]) {
            seen
        } else {
            seen.push(cs[0])
        };
        first_occurrences(seen2, cs.drop_first())
    }
}

/// Collecting first occurrences over a concatenation is collecting them
/// over each part in turn.
pub proof fn lemma_first_occurrences_append(
    seen: Seq<IndexTuple>,
    cs1: Seq<IndexTuple>,
    cs2: Seq<IndexTuple>,
)
    ensures
        first_occurrences(seen, cs1 + cs2) == first_occurrences(
            first_occurrences(seen, cs1),
            cs2,
        ),
    decreases cs1.len(),
{
    if cs1.len() == 0 {
        assert(cs1 + cs2 =~= cs2);
    } else {
        assert((cs1 + cs2)[0] == cs1[0]);
        assert((cs1 + cs2).drop_first() =~= cs1.drop_first() + cs2);
        let seen2 = if seen.contains(cs1[0]) {
            seen
        } else {
            seen.push(cs1[0])
        };
        lemma_first_occurrences_append(seen2, cs1.drop_first(), cs2);
    }
}

/// A successful corner run computes exactly the first occurrences of its
/// corners.
proof fn lemma_add_corners_fo<V: ExtractVertex>(
    m: &Model,
    max: int,
    seen: Seq<IndexTuple>,
    cs: Seq<IndexTuple>,
)
    requires
        add_corners::<V>(m, max, seen, cs) is Ok,
    ensures
        add_corners::<V>(m, max, seen, cs)->Ok_0 == first_occurrences(seen, cs),
    decreases cs.len(),
{
    if cs.len() == 0 {
    } else {
        let st2 = add_corner::<V>(m, max, seen, cs[0])->Ok_0;
        lemma_add_corners_fo::<V>(m, max, st2, cs.drop_first());
    }
}

/// A successful polygon run computes exactly the first occurrences of its
/// polygons' corners.
proof fn lemma_add_polys_fo<V: ExtractVertex>(
    m: &Model,
    max: int,
    seen: Seq<IndexTuple>,
    ps: Seq<Seq<IndexTuple>>,
)
    requires
        add_polys::<V>(m, max, seen, ps) is Ok,
    ensures
        add_polys::<V>(m, max, seen, ps)->Ok_0 == first_occurrences(seen, concat_all(ps)),
    decreases ps.len(),
{
    if ps.len() == 0 {
    } else {
        let dl = ps.drop_last();
        let lst = ps.last();
        assert(ps =~= dl + seq![lst]);
        lemma_add_polys_append::<V>(m, max, seen, dl, seq![lst]);
        assert(add_polys::<V>(m, max, seen, dl) is Ok);
        let mid = add_polys::<V>(m, max, seen, dl)->Ok_0;
        lemma_add_polys_fo::<V>(m, max, seen, dl);
        let s1 = seq![lst];
        assert(s1[0] == lst);
        assert(s1.drop_first().len() == 0);
        assert(add_poly::<V>(m, max, mid, lst) is Ok);
        let fin = add_poly::<V>(m, max, mid, lst)->Ok_0;
        assert(add_polys::<V>(m, max, fin, s1.drop_first()) == Ok::<Seq<IndexTuple>, ReindexError>(
            fin,
        ));
        assert(add_polys::<V>(m, max, mid, s1) == Ok::<Seq<IndexTuple>, ReindexError>(fin));
        lemma_add_corners_fo::<V>(m, max, mid, lst);
        lemma_first_occurrences_append(seen, concat_all(dl), lst);
    }
}

/// A successful group run computes exactly the first occurrences of its
/// groups' corners.
proof fn lemma_add_groups_fo<V: ExtractVertex>(
    m: &Model,
    max: int,
    seen: Seq<IndexTuple>,
    gs: Seq<Group>,
)
    requires
        add_groups::<V>(m, max, seen, gs) is Ok,
    ensures
        add_groups::<V>(m, max, seen, gs)->Ok_0 == first_occurrences(
            seen,
            concat_all(gs.map_values(|g: Group| group_corners(g))),
        ),
    decreases gs.len(),
{
    let mapped = gs.map_values(|g: Group| group_corners(g));
    if gs.len() == 0 {
        assert(concat_all(mapped) =~= Seq::<IndexTuple>::empty());
        assert(first_occurrences(seen, concat_all(mapped)) == seen);
    } else {
        let dl = gs.drop_last();
        let lst = gs.last();
        assert(gs =~= dl + seq![lst]);
        lemma_add_groups_append::<V>(m, max, seen, dl, seq![lst]);
        assert(add_groups::<V>(m, max, seen, dl) is Ok);
        let mid = add_groups::<V>(m, max, seen, dl)->Ok_0;
        lemma_add_groups_fo::<V>(m, max, seen, dl);
        let s1 = seq![lst];
        assert(s1[0] == lst);
        assert(s1.drop_first().len() == 0);
        assert(add_group::<V>(m, max, mid, lst) is Ok);
        let fin = add_group::<V>(m, max, mid, lst)->Ok_0;
        assert(add_groups::<V>(m, max, fin, s1.drop_first()) == Ok::<
            Seq<IndexTuple>,
            ReindexError,
        >(fin));
        assert(add_groups::<V>(m, max, mid, s1) == Ok::<Seq<IndexTuple>, ReindexError>(fin));
        lemma_add_polys_fo::<V>(m, max, mid, lst.polys@.map_values(|p: Vec<IndexTuple>| p@));
        assert(fin == first_occurrences(mid, group_corners(lst)));
        assert(mapped.drop_last() =~= dl.map_values(|g: Group| group_corners(g)));
        assert(mapped.last() == group_corners(lst));
        lemma_first_occurrences_append(seen, concat_all(mapped.drop_last()), group_corners(lst));
    }
}

/// A successful model traversal computes exactly the first occurrences of
/// the model's corners.
proof fn lemma_add_objects_fo<V: ExtractVertex>(
    m: &Model,
    max: int,
    seen: Seq<IndexTuple>,
    os: Seq<Object>,
)
    requires
        add_objects::<V>(m, max, seen, os) is Ok,
    ensures
        add_objects::<V>(m, max, seen, os)->Ok_0 == first_occurrences(
            seen,
            concat_all(os.map_values(|o: Object| object_corners(o))),
        ),
    decreases os.len(),
{
    let mapped = os.map_values(|o: Object| object_corners(o));
    if os.len() == 0 {
        assert(concat_all(mapped) =~= Seq::<IndexTuple>::empty());
        assert(first_occurrences(seen, concat_all(mapped)) == seen);
    } else {
        let dl = os.drop_last();
        let lst = os.last();
        assert(os =~= dl + seq![lst]);
        lemma_add_objects_append::<V>(m, max, seen, dl, seq![lst]);
        assert(add_objects::<V>(m, max, seen, dl) is Ok);
        let mid = add_objects::<V>(m, max, seen, dl)->Ok_0;
        lemma_add_objects_fo::<V>(m, max, seen, dl);
        let s1 = seq![lst];
        assert(s1[0] == lst);
        assert(s1.drop_first().len() == 0);
        assert(add_groups::<V>(m, max, mid, lst.groups@) is Ok);
        let fin = add_groups::<V>(m, max, mid, lst.groups@)->Ok_0;
        assert(add_objects::<V>(m, max, fin, s1.drop_first()) == Ok::<
            Seq<IndexTuple>,
            ReindexError,
        >(fin));
        assert(add_objects::<V>(m, max, mid, s1) == Ok::<Seq<IndexTuple>, ReindexError>(fin));
        lemma_add_groups_fo::<V>(m, max, mid, lst.groups@);
        assert(fin == first_occurrences(mid, object_corners(lst)));
        assert(mapped.drop_last() =~= dl.map_values(|o: Object| object_corners(o)));
        assert(mapped.last() == object_corners(lst));
        lemma_first_occurrences_append(seen, concat_all(mapped.drop_last()), object_corners(lst));
    }
}

/// Order preservation: on success, the dense tuple list is exactly the
/// first occurrence of each distinct corner tuple, in traversal order
/// (object, then group, then polygon, then corner).
pub proof fn lemma_order_preservation<V: ExtractVertex>(model: &Model, max: int)
    requires
        reindex_state::<V>(model, max) is Ok,
    ensures
        reindex_state::<V>(model, max)->Ok_0 == first_occurrences(
            Seq::empty(),
            model_corners(*model),
        ),
{
    lemma_add_objects_fo::<V>(model, max, Seq::empty(), model.objects@);
}

/// Collecting first occurrences keeps the list duplicate-free.
proof fn lemma_fo_distinct(seen: Seq<IndexTuple>, cs: Seq<IndexTuple>)
    requires
        distinct_seq(seen),
    ensures
        distinct_seq(first_occurrences(seen, cs)),
    decreases cs.len(),
{
    if cs.len() == 0 {
    } else {
        if seen.contains(cs[0]) {
            lemma_fo_distinct(seen, cs.drop_first());
        } else {
            let seen2 = seen.push(cs[0]);
            assert(distinct_seq(seen2)) by {
                assert forall|i: int, j: int| 0 <= i < j < seen2.len() implies seen2[i] != seen2[j]
                by {
                    if j < seen.len() {
                    } else {
                        assert(seen2[i] == seen[i]);
                        assert(!seen.contains(cs[0]));
                    }
                }
            }
            lemma_fo_distinct(seen2, cs.drop_first());
        }
    }
}

/// The collected list contains exactly the tuples that were seen before or
/// occur in the corner stream.
proof fn lemma_fo_contains(seen: Seq<IndexTuple>, cs: Seq<IndexTuple>)
    ensures
        forall|c: IndexTuple|
            first_occurrences(seen, cs).contains(c) <==> seen.contains(c) || cs.contains(c),
    decreases cs.len(),
{
    if cs.len() == 0 {
    } else {
        let seen2 = if seen.contains(cs[0]) {
            seen
        } else {
            seen.push(cs[0])
        };
        lemma_fo_contains(seen2, cs.drop_first());
        assert forall|c: IndexTuple|
            first_occurrences(seen, cs).contains(c) <==> seen.contains(c) || cs.contains(c) by {
            assert(seen2.contains(c) <==> seen.contains(c) || c == cs[0]) by {
                if seen2.contains(c) && !seen.contains(c) {
                    let i = choose|i: int| 0 <= i < seen2.len() && seen2[i] == c;
                    assert(i == seen.len());
                }
                if c == cs[0] && !seen.contains(cs[0]) {
                    assert(seen2[seen.len() as int] == c);
                }
                if seen.contains(c) {
                    let i = choose|i: int| 0 <= i < seen.len() && seen[i] == c;
                    assert(seen2[i] == c);
                }
            }
            assert(cs.contains(c) <==> c == cs[0] || cs.drop_first().contains(c)) by {
                if cs.contains(c) && c != cs[0] {
                    let i = choose|i: int| 0 <= i < cs.len() && cs[i] == c;
                    assert(cs.drop_first()[i - 1] == c);
                }
                if cs.drop_first().contains(c) {
                    let i = choose|i: int|
                        0 <= i < cs.drop_first().len() && cs.drop_first()[i] == c;
                    assert(cs[i + 1] == c);
                }
            }
        }
    }
}

/// Deduplication correctness: on success the dense tuple list is
/// duplicate-free and covers every corner of the model, so two corners with
/// identical tuples map to the same dense index, and two corners with
/// differing tuples map to different dense indices.
pub proof fn lemma_dedup_correct<V: ExtractVertex>(model: &Model, max: int)
    requires
        reindex_state::<V>(model, max) is Ok,
    ensures
        ({
            let ts = reindex_state::<V>(model, max)->Ok_0;
            &&& distinct_seq(ts)
            &&& forall|c: IndexTuple| model_corners(*model).contains(c) ==> ts.contains(c)
            &&& forall|c1: IndexTuple, c2: IndexTuple|
                ts.contains(c1) && ts.contains(c2) ==> (first_index(ts, c1) == first_index(ts, c2)
                    <==> c1 == c2)
        }),
{
    let ts = reindex_state::<V>(model, max)->Ok_0;
    lemma_order_preservation::<V>(model, max);
    lemma_fo_distinct(Seq::empty(), model_corners(*model));
    lemma_fo_contains(Seq::empty(), model_corners(*model));
    assert forall|c1: IndexTuple, c2: IndexTuple|
        ts.contains(c1) && ts.contains(c2) implies (first_index(ts, c1) == first_index(ts, c2)
        <==> c1 == c2) by {
        lemma_first_index_props(ts, c1);
        lemma_first_index_props(ts, c2);
    }
}

} // verus!
