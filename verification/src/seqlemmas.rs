use crate::container::increasing;
use vstd::prelude::*;

verus! {

/// Every element of `a` is below every element of `b`.
pub open spec fn all_lt(a: Seq<u64>, b: Seq<u64>) -> bool {
    forall|x: int, y: int| 0 <= x < a.len() && 0 <= y < b.len() ==> a[x] < b[y]
}

/// Every element of `a` is above `d`.
pub open spec fn all_gt(a: Seq<u64>, d: u64) -> bool {
    forall|x: int| 0 <= x < a.len() ==> a[x] > d
}

pub proof fn lemma_increasing_concat(a: Seq<u64>, b: Seq<u64>)
    requires
        increasing(a),
        increasing(b),
        a.len() > 0 && b.len() > 0 ==> a.last() < b[0],
    ensures
        increasing(a + b),
        all_lt(a, b),
{
    let c = a + b;
    assert forall|x: int, y: int| 0 <= x < a.len() && 0 <= y < b.len() implies a[x] < b[y] by {
        if x < a.len() - 1 {
            assert(a[x] < a[a.len() - 1]);
        }
        if y > 0 {
            assert(b[0] < b[y]);
        }
    }
    assert forall|x: int, y: int| 0 <= x < y < c.len() implies c[x] < c[y] by {
        if y < a.len() {
            assert(c[x] == a[x] && c[y] == a[y]);
        } else if x >= a.len() {
            assert(c[x] == b[x - a.len()] && c[y] == b[y - a.len()]);
        } else {
            assert(c[x] == a[x] && c[y] == b[y - a.len()]);
        }
    }
}

pub proof fn lemma_increasing_split(a: Seq<u64>, b: Seq<u64>)
    requires
        increasing(a + b),
    ensures
        increasing(a),
        increasing(b),
        all_lt(a, b),
{
    let c = a + b;
    assert forall|x: int, y: int| 0 <= x < y < a.len() implies a[x] < a[y] by {
        assert(c[x] == a[x] && c[y] == a[y]);
    }
    assert forall|x: int, y: int| 0 <= x < y < b.len() implies b[x] < b[y] by {
        assert(c[x + a.len()] == b[x] && c[y + a.len()] == b[y]);
    }
    assert forall|x: int, y: int| 0 <= x < a.len() && 0 <= y < b.len() implies a[x] < b[y] by {
        assert(c[x] == a[x] && c[y + a.len()] == b[y]);
    }
}

pub proof fn lemma_increasing_subrange(s: Seq<u64>, i: int, j: int)
    requires
        increasing(s),
        0 <= i <= j <= s.len(),
    ensures
        increasing(s.subrange(i, j)),
{
    let t = s.subrange(i, j);
    assert forall|x: int, y: int| 0 <= x < y < t.len() implies t[x] < t[y] by {
        assert(t[x] == s[x + i] && t[y] == s[y + i]);
    }
}

} // verus!
