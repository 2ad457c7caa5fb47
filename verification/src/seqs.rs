use vstd::prelude::*;

verus! {

/// One unfolding of `Seq::filter` at the last element.
pub proof fn lemma_filter_step<A>(s: Seq<A>, pred: spec_fn(A) -> bool)
    requires
        s.len() > 0,
    ensures
        s.filter(pred) == if pred(s.last()) {
            s.drop_last().filter(pred).push(s.last())
        } else {
            s.drop_last().filter(pred)
        },
{
    reveal_with_fuel(Seq::<_>::filter, 1);
}

/// Filtering the empty sequence yields the empty sequence.
pub proof fn lemma_filter_empty<A>(s: Seq<A>, pred: spec_fn(A) -> bool)
    requires
        s.len() == 0,
    ensures
        s.filter(pred) =~= Seq::<A>::empty(),
{
    reveal_with_fuel(Seq::<_>::filter, 1);
}

} // verus!
