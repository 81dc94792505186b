use vstd::prelude::*;

verus! {

/// The sum of a sequence of naturals.
pub open spec fn sum(s: Seq<nat>) -> nat
    decreases s.len(),
{
    if s.len() == 0 {
        0
    } else {
        sum(s.drop_last()) + s.last()
    }
}

/// A pointwise smaller-or-equal sequence has a smaller-or-equal sum, and a
/// strictly smaller sum if it is strictly smaller somewhere.
pub proof fn lemma_sum_pointwise(a: Seq<nat>, b: Seq<nat>)
    requires
        a.len() == b.len(),
        forall|i: int| 0 <= i < a.len() ==> a[i] <= b[i],
    ensures
        sum(a) <= sum(b),
        (exists|i: int| 0 <= i < a.len() && a[i] < b[i]) ==> sum(a) < sum(b),
    decreases a.len(),
{
    if a.len() > 0 {
        let a2 = a.drop_last();
        let b2 = b.drop_last();
        lemma_sum_pointwise(a2, b2);
        if exists|i: int| 0 <= i < a.len() && a[i] < b[i] {
            let i = choose|i: int| 0 <= i < a.len() && a[i] < b[i];
            if i < a.len() - 1 {
                assert(a2[i] < b2[i]);
            }
        }
    }
}

} // verus!
