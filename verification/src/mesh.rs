//! The canonical in-memory mesh: a dense vertex list plus polygon groups,
//! and the composition operations that grow a mesh by appending another.

use vstd::prelude::*;

use crate::errors::ReindexError;
use crate::index::IndexType;
use crate::model::MaterialRecord;
use crate::seqs::concat_all;
use crate::seqs::lemma_concat_all_take_full;
use crate::seqs::lemma_concat_all_take_succ;

verus! {

/// The scalar word for one in the conventional IEEE 754 single encoding.
pub const SCALAR_ONE: u32 = 0x3F80_0000;

/// The scalar word for zero.
pub const SCALAR_ZERO: u32 = 0;

/// Exactly three indices into the dense vertex list, in the winding order
/// supplied by the source polygon.
#[derive(Clone, Copy, Debug, PartialEq, Eq, Hash)]
pub struct Triangle<I>(pub [I; 3]);

impl<I: IndexType> Triangle<I> {
    /// The three indices as mathematical integers.
    pub open spec fn idxs(self) -> (int, int, int) {
        (self.0@[0].as_int(), self.0@[1].as_int(), self.0@[2].as_int())
    }

    /// All three indices lie below `n`.
    pub open spec fn in_bounds(self, n: int) -> bool {
        self.idxs().0 < n && self.idxs().1 < n && self.idxs().2 < n
    }
}

/// An ordered list of triangles; order-preserving for deterministic output.
#[derive(Clone, Debug)]
pub struct TriangleList<I>(pub Vec<Triangle<I>>);

impl<I: IndexType> TriangleList<I> {
    /// The triangles as integer index triples.
    pub open spec fn idx_seq(self) -> Seq<(int, int, int)> {
        self.0@.map_values(|t: Triangle<I>| t.idxs())
    }

    /// Every index of every triangle lies below `n`.
    pub open spec fn wf(self, n: int) -> bool {
        forall|j: int| 0 <= j < self.0@.len() ==> (#[trigger] self.0@[j]).in_bounds(n)
    }

    /// The triangle corners flattened into one contiguous index list, three
    /// entries per triangle, corner order preserved.
    pub fn flatten_indices(&self) -> (r: Vec<I>)
        ensures
            r@.len() == 3 * self.0@.len(),
            forall|j: int|
                0 <= j < self.0@.len() ==> {
                    &&& r@[3 * j] == (#[trigger] self.0@[j]).0@[0]
                    &&& r@[3 * j + 1] == self.0@[j].0@[1]
                    &&& r@[3 * j + 2] == self.0@[j].0@[2]
                },
    {
        let mut r: Vec<I> = Vec::new();
        let mut j: usize = 0;
        while j < self.0.len()
            invariant
                j <= self.0@.len(),
                r@.len() == 3 * j,
                forall|k: int|
                    0 <= k < j ==> {
                        &&& r@[3 * k] == (#[trigger] self.0@[k]).0@[0]
                        &&& r@[3 * k + 1] == self.0@[k].0@[1]
                        &&& r@[3 * k + 2] == self.0@[k].0@[2]
                    },
            decreases self.0@.len() - j,
        {
            let t = &self.0[j];
            r.push(t.0[0]);
            r.push(t.0[1]);
            r.push(t.0[2]);
            j += 1;
        }
        r
    }
}

/// Surface properties of one polygon group: diffuse color, specular color,
/// opacity, each an opaque scalar word.
#[derive(Clone, Copy, Debug, PartialEq, Eq)]
pub struct Material {
    pub diffuse: [u32; 3],
    pub specular: [u32; 3],
    pub opacity: u32,
}

impl Material {
    /// The documented default: diffuse one in every channel, specular zero,
    /// opacity one.
    pub open spec fn default_spec() -> Material {
        Material {
            diffuse: [SCALAR_ONE, SCALAR_ONE, SCALAR_ONE],
            specular: [SCALAR_ZERO, SCALAR_ZERO, SCALAR_ZERO],
            opacity: SCALAR_ONE,
        }
    }

    /// Conversion from an external material record; absent fields take the
    /// documented defaults.
    pub open spec fn from_record_spec(rec: MaterialRecord) -> Material {
        Material {
            diffuse: match rec.kd {
                Option::Some(v) => v,
                Option::None => [SCALAR_ONE, SCALAR_ONE, SCALAR_ONE],
            },
            specular: match rec.ks {
                Option::Some(v) => v,
                Option::None => [SCALAR_ZERO, SCALAR_ZERO, SCALAR_ZERO],
            },
            opacity: match rec.d {
                Option::Some(v) => v,
                Option::None => SCALAR_ONE,
            },
        }
    }

    /// Convert an external material record, filling absent fields with the
    /// documented defaults.
    pub fn from_record(rec: &MaterialRecord) -> (r: Material)
        ensures
            r == Material::from_record_spec(*rec),
    {
        let diffuse = match rec.kd {
            Some(v) => v,
            None => [SCALAR_ONE, SCALAR_ONE, SCALAR_ONE],
        };
        let specular = match rec.ks {
            Some(v) => v,
            None => [SCALAR_ZERO, SCALAR_ZERO, SCALAR_ZERO],
        };
        let opacity = match rec.d {
            Some(v) => v,
            None => SCALAR_ONE,
        };
        Material { diffuse, specular, opacity }
    }
}

impl Default for Material {
    /// The default material.
    fn default() -> (r: Material)
        ensures
            r == Material::default_spec(),
    {
        Material {
            diffuse: [SCALAR_ONE, SCALAR_ONE, SCALAR_ONE],
            specular: [SCALAR_ZERO, SCALAR_ZERO, SCALAR_ZERO],
            opacity: SCALAR_ONE,
        }
    }
}

/// A mesh: one dense vertex list plus an ordered sequence of
/// `(TriangleList, Material)` polygon groups.
///
/// Invariant ([`Mesh::wf`]): every index appearing in any triangle list is
/// below `vertices.len()`.
#[derive(Clone, Debug)]
pub struct Mesh<V, I> {
    pub vertices: Vec<V>,
    pub polygons: Vec<(TriangleList<I>, Material)>,
}

/// The shift condition for appending `n` vertices to a mesh that has `m`:
/// the shift amount `m` and every shifted index must fit the index type.
pub open spec fn append_shift_ok(m: nat, n: nat, max: int) -> bool {
    m <= max && (n == 0 || m + n - 1 <= max)
}

/// The overflow error reported when the shift condition fails: it names the
/// first dense index that the index type cannot represent.
pub open spec fn append_overflow_error(m: nat, n: nat, max: int) -> ReindexError {
    if m > max {
        ReindexError::IndexOverflow { index: m as usize }
    } else {
        ReindexError::IndexOverflow { index: (m + n - 1) as usize }
    }
}

/// An index triple with every component shifted up by `m`.
pub open spec fn shift_idxs(t: (int, int, int), m: int) -> (int, int, int) {
    (t.0 + m, t.1 + m, t.2 + m)
}

impl<V, I: IndexType> Mesh<V, I> {
    /// Every triangle index of every polygon group is below the vertex
    /// count.
    pub open spec fn wf(self) -> bool {
        forall|g: int|
            0 <= g < self.polygons@.len() ==> (#[trigger] self.polygons@[g]).0.wf(
                self.vertices@.len() as int,
            )
    }
}

/// Every index of a well-formed mesh's triangles is below `vertices.len()`.
pub proof fn lemma_index_validity<V, I: IndexType>(mesh: Mesh<V, I>, g: int, j: int)
    requires
        mesh.wf(),
        0 <= g < mesh.polygons@.len(),
        0 <= j < mesh.polygons@[g].0.0@.len(),
    ensures
        mesh.polygons@[g].0.0@[j].in_bounds(mesh.vertices@.len() as int),
{
}

impl<V: Copy, I: IndexType> Mesh<V, I> {
    /// Append another mesh: its vertices are copied after this mesh's, and
    /// each of its polygon groups is re-emitted with every index increased
    /// by this mesh's previous vertex count.  Fails, changing nothing, when
    /// the shift condition does not hold.
    pub fn append(&mut self, other: &Self) -> (r: Result<(), ReindexError>)
        requires
            old(self).wf(),
            other.wf(),
            old(self).vertices@.len() + other.vertices@.len() <= usize::MAX,
        ensures
            match r {
                Result::Ok(_) => {
                    &&& append_shift_ok(
                        old(self).vertices@.len(),
                        other.vertices@.len(),
                        I::max_spec(),
                    )
                    &&& final(self).vertices@ == old(self).vertices@ + other.vertices@
                    &&& final(self).polygons@.len() == old(self).polygons@.len()
                        + other.polygons@.len()
                    &&& forall|g: int|
                        0 <= g < old(self).polygons@.len() ==> final(self).polygons@[g] == old(
                            self,
                        ).polygons@[g]
                    &&& forall|g: int|
                        0 <= g < other.polygons@.len() ==> {
                            let dst = final(self).polygons@[old(self).polygons@.len() + g];
                            &&& dst.1 == (#[trigger] other.polygons@[g]).1
                            &&& dst.0.idx_seq() == other.polygons@[g].0.idx_seq().map_values(
                                |t: (int, int, int)|
                                    shift_idxs(t, old(self).vertices@.len() as int),
                            )
                        }
                    &&& final(self).wf()
                },
                Result::Err(e) => {
                    &&& !append_shift_ok(
                        old(self).vertices@.len(),
                        other.vertices@.len(),
                        I::max_spec(),
                    )
                    &&& e == append_overflow_error(
                        old(self).vertices@.len(),
                        other.vertices@.len(),
                        I::max_spec(),
                    )
                    &&& *final(self) == *old(self)
                },
            },
    {
        let m = self.vertices.len();
        let n = other.vertices.len();
        match I::try_from_usize(m) {
            Some(_) => {},
            None => {
                return Err(ReindexError::IndexOverflow { index: m });
            },
        }
        if n > 0 {
            match I::try_from_usize(m + n - 1) {
                Some(_) => {},
                None => {
                    return Err(ReindexError::IndexOverflow { index: m + n - 1 });
                },
            }
        }
        let ghost mint = m as int;
        let mut k: usize = 0;
        while k < n
            invariant
                k <= n,
                n == other.vertices@.len(),
                self.vertices@ == old(self).vertices@ + other.vertices@.take(k as int),
                self.polygons@ == old(self).polygons@,
            decreases n - k,
        {
            self.vertices.push(other.vertices[k]);
            proof {
                assert(self.vertices@ =~= old(self).vertices@ + other.vertices@.take(
                    k as int + 1,
                ));
            }
            k += 1;
        }
        proof {
            assert(other.vertices@.take(n as int) =~= other.vertices@);
        }
        let mut g: usize = 0;
        while g < other.polygons.len()
            invariant
                g <= other.polygons@.len(),
                m == old(self).vertices@.len(),
                n == other.vertices@.len(),
                m + n <= usize::MAX,
                append_shift_ok(m as nat, n as nat, I::max_spec()),
                other.wf(),
                self.vertices@ == old(self).vertices@ + other.vertices@,
                self.polygons@.len() == old(self).polygons@.len() + g,
                forall|h: int|
                    0 <= h < old(self).polygons@.len() ==> self.polygons@[h] == old(
                        self,
                    ).polygons@[h],
                forall|h: int|
                    0 <= h < g ==> {
                        let dst = #[trigger] self.polygons@[old(self).polygons@.len() + h];
                        &&& dst.1 == other.polygons@[h].1
                        &&& dst.0.idx_seq() == other.polygons@[h].0.idx_seq().map_values(
                            |t: (int, int, int)| shift_idxs(t, m as int),
                        )
                        &&& dst.0.wf(self.vertices@.len() as int)
                    },
            decreases other.polygons@.len() - g,
        {
            let src = &other.polygons[g];
            let count = src.0.0.len();
            let mut tris: Vec<Triangle<I>> = Vec::new();
            let mut j: usize = 0;
            while j < count
                invariant
                    j <= count,
                    count == src.0.0@.len(),
                    m == old(self).vertices@.len(),
                    n == other.vertices@.len(),
                    m + n <= usize::MAX,
                    append_shift_ok(m as nat, n as nat, I::max_spec()),
                    src.0.wf(n as int),
                    tris@.len() == j,
                    forall|x: int|
                        0 <= x < j ==> (#[trigger] tris@[x]).idxs() == shift_idxs(
                            src.0.0@[x].idxs(),
                            m as int,
                        ),
                    forall|x: int| 0 <= x < j ==> (#[trigger] tris@[x]).in_bounds(m + n as int),
                decreases count - j,
            {
                let t = &src.0.0[j];
                let a = shift_index::<I>(t.0[0], m, n);
                let b = shift_index::<I>(t.0[1], m, n);
                let c = shift_index::<I>(t.0[2], m, n);
                tris.push(Triangle([a, b, c]));
                j += 1;
            }
            proof {
                assert(TriangleList(tris).idx_seq() =~= src.0.idx_seq().map_values(
                    |t: (int, int, int)| shift_idxs(t, m as int),
                ));
            }
            self.polygons.push((TriangleList(tris), src.1));
            g += 1;
        }
        proof {
            assert forall|h: int| 0 <= h < self.polygons@.len() implies (
            #[trigger] self.polygons@[h]).0.wf(self.vertices@.len() as int) by {
                if h < old(self).polygons@.len() {
                    assert(self.polygons@[h] == old(self).polygons@[h]);
                    assert(old(self).polygons@[h].0.wf(m as int));
                    assert forall|j: int|
                        0 <= j < self.polygons@[h].0.0@.len() implies (
                    #[trigger] self.polygons@[h].0.0@[j]).in_bounds(
                        self.vertices@.len() as int,
                    ) by {
                        assert(old(self).polygons@[h].0.0@[j].in_bounds(m as int));
                    }
                } else {
                    let x = h - old(self).polygons@.len();
                    assert(0 <= x < other.polygons@.len());
                    assert(self.polygons@[old(self).polygons@.len() + x].0.wf(
                        self.vertices@.len() as int,
                    ));
                    assert(h == old(self).polygons@.len() + x);
                }
            }
        }
        Ok(())
    }

    /// Append another mesh, consuming it; index shifting is identical to
    /// [`Mesh::append`].
    pub fn append_consume(&mut self, other: Self) -> (r: Result<(), ReindexError>)
        requires
            old(self).wf(),
            other.wf(),
            old(self).vertices@.len() + other.vertices@.len() <= usize::MAX,
        ensures
            match r {
                Result::Ok(_) => {
                    &&& append_shift_ok(
                        old(self).vertices@.len(),
                        other.vertices@.len(),
                        I::max_spec(),
                    )
                    &&& final(self).vertices@ == old(self).vertices@ + other.vertices@
                    &&& final(self).polygons@.len() == old(self).polygons@.len()
                        + other.polygons@.len()
                    &&& forall|g: int|
                        0 <= g < old(self).polygons@.len() ==> final(self).polygons@[g] == old(
                            self,
                        ).polygons@[g]
                    &&& forall|g: int|
                        0 <= g < other.polygons@.len() ==> {
                            let dst = final(self).polygons@[old(self).polygons@.len() + g];
                            &&& dst.1 == (#[trigger] other.polygons@[g]).1
                            &&& dst.0.idx_seq() == other.polygons@[g].0.idx_seq().map_values(
                                |t: (int, int, int)|
                                    shift_idxs(t, old(self).vertices@.len() as int),
                            )
                        }
                    &&& final(self).wf()
                },
                Result::Err(e) => {
                    &&& !append_shift_ok(
                        old(self).vertices@.len(),
                        other.vertices@.len(),
                        I::max_spec(),
                    )
                    &&& e == append_overflow_error(
                        old(self).vertices@.len(),
                        other.vertices@.len(),
                        I::max_spec(),
                    )
                    &&& *final(self) == *old(self)
                },
            },
    {
        self.append(&other)
    }

    /// Append one externally supplied vertex batch and triangle list as a
    /// single new polygon group, applying the same index-shift rule as
    /// [`Mesh::append`].
    pub fn append_consume_polygon(
        &mut self,
        vertices: &Vec<V>,
        polygon: TriangleList<I>,
        properties: Material,
    ) -> (r: Result<(), ReindexError>)
        requires
            old(self).wf(),
            polygon.wf(vertices@.len() as int),
            old(self).vertices@.len() + vertices@.len() <= usize::MAX,
        ensures
            match r {
                Result::Ok(_) => {
                    &&& append_shift_ok(old(self).vertices@.len(), vertices@.len(), I::max_spec())
                    &&& final(self).vertices@ == old(self).vertices@ + vertices@
                    &&& final(self).polygons@.len() == old(self).polygons@.len() + 1
                    &&& forall|g: int|
                        0 <= g < old(self).polygons@.len() ==> final(self).polygons@[g] == old(
                            self,
                        ).polygons@[g]
                    &&& final(self).polygons@.last().1 == properties
                    &&& final(self).polygons@.last().0.idx_seq() == polygon.idx_seq().map_values(
                        |t: (int, int, int)| shift_idxs(t, old(self).vertices@.len() as int),
                    )
                    &&& final(self).wf()
                },
                Result::Err(e) => {
                    &&& !append_shift_ok(old(self).vertices@.len(), vertices@.len(), I::max_spec())
                    &&& e == append_overflow_error(
                        old(self).vertices@.len(),
                        vertices@.len(),
                        I::max_spec(),
                    )
                    &&& *final(self) == *old(self)
                },
            },
    {
        let mut extra = Mesh::<V, I> { vertices: Vec::new(), polygons: Vec::new() };
        let mut vs: Vec<V> = Vec::new();
        let mut k: usize = 0;
        let n = vertices.len();
        while k < n
            invariant
                k <= n,
                n == vertices@.len(),
                vs@ == vertices@.take(k as int),
            decreases n - k,
        {
            vs.push(vertices[k]);
            proof {
                assert(vs@ =~= vertices@.take(k as int + 1));
            }
            k += 1;
        }
        proof {
            assert(vertices@.take(n as int) =~= vertices@);
        }
        extra.vertices = vs;
        extra.polygons.push((polygon, properties));
        let ghost snapshot = extra;
        let r = self.append(&extra);
        proof {
            if r is Ok {
                assert(snapshot.polygons@[0].1 == properties);
                assert(snapshot.polygons@[0].0 == polygon);
                assert(self.polygons@[old(self).polygons@.len() as int]
                    == self.polygons@.last());
            }
        }
        r
    }

    /// Flatten all polygon groups into a single triangle list, discarding
    /// the materials; the vertex list is returned unchanged.
    pub fn merge_groups(self) -> (r: (Vec<V>, TriangleList<I>))
        ensures
            r.0@ == self.vertices@,
            r.1.0@ == concat_all(
                self.polygons@.map_values(|g: (TriangleList<I>, Material)| g.0.0@),
            ),
    {
        let ghost groups = self.polygons@.map_values(|g: (TriangleList<I>, Material)| g.0.0@);
        let mut tris: Vec<Triangle<I>> = Vec::new();
        let mut g: usize = 0;
        while g < self.polygons.len()
            invariant
                g <= self.polygons@.len(),
                groups == self.polygons@.map_values(|gr: (TriangleList<I>, Material)| gr.0.0@),
                tris@ == concat_all(groups.take(g as int)),
            decreases self.polygons@.len() - g,
        {
            let count = self.polygons[g].0.0.len();
            let mut j: usize = 0;
            while j < count
                invariant
                    j <= count,
                    g < self.polygons@.len(),
                    count == self.polygons@[g as int].0.0@.len(),
                    groups == self.polygons@.map_values(
                        |gr: (TriangleList<I>, Material)| gr.0.0@,
                    ),
                    tris@ == concat_all(groups.take(g as int)) + self.polygons@[g as int].0.0@.take(
                        j as int,
                    ),
                decreases count - j,
            {
                tris.push(self.polygons[g].0.0[j]);
                proof {
                    assert(self.polygons@[g as int].0.0@.take(j as int).push(
                        self.polygons@[g as int].0.0@[j as int],
                    ) =~= self.polygons@[g as int].0.0@.take(j as int + 1));
                    assert(tris@ =~= concat_all(groups.take(g as int)) + self.polygons@[
                        g as int
                    ].0.0@.take(j as int + 1));
                }
                j += 1;
            }
            proof {
                assert(self.polygons@[g as int].0.0@.take(count as int) =~= self.polygons@[
                    g as int
                ].0.0@);
                lemma_concat_all_take_succ(groups, g as int);
            }
            g += 1;
        }
        proof {
            lemma_concat_all_take_full(groups);
        }
        (self.vertices, TriangleList(tris))
    }
}

/// Shift one dense index up by `m`; the caller guarantees the result fits.
fn shift_index<I: IndexType>(i: I, m: usize, n: usize) -> (r: I)
    requires
        i.as_int() < n,
        append_shift_ok(m as nat, n as nat, I::max_spec()),
        m + n <= usize::MAX,
    ensures
        r.as_int() == i.as_int() + m,
{
    proof {
        i.lemma_bounds();
        I::lemma_max();
    }
    let iu = i.to_usize();
    let s = iu + m;
    match I::try_from_usize(s) {
        Some(r) => r,
        None => {
            proof {
                assert(false);
            }
            i
        },
    }
}

} // verus!
