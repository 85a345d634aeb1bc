//! Sequence helpers shared by the mesh and re-indexing modules.

use vstd::prelude::*;

verus! {

/// All inner sequences concatenated in order.
pub open spec fn concat_all<T>(ss: Seq<Seq<T>>) -> Seq<T>
    decreases ss.len(),
{
    if ss.len() == 0 {
        Seq::empty()
    } else {
        concat_all(ss.drop_last()) + ss.last()
    }
}

/// Concatenating one more prefix element appends that element's sequence.
pub proof fn lemma_concat_all_take_succ<T>(ss: Seq<Seq<T>>, i: int)
    requires
        0 <= i < ss.len(),
    ensures
        concat_all(ss.take(i + 1)) == concat_all(ss.take(i)) + ss[i],
{
    assert(ss.take(i + 1).drop_last() =~= ss.take(i));
    assert(ss.take(i + 1).last() == ss[i]);
}

/// Taking the whole sequence changes nothing.
pub proof fn lemma_concat_all_take_full<T>(ss: Seq<Seq<T>>)
    ensures
        concat_all(ss.take(ss.len() as int)) == concat_all(ss),
{
    assert(ss.take(ss.len() as int) =~= ss);
}

} // verus!
