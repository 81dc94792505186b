use vstd::prelude::*;
use crate::addr::AddrV4;

verus! {

/// Why a connection gave no status: it did not answer in time, or the
/// request to it failed.
#[derive(Debug, Clone, PartialEq, Eq)]
pub enum GatherError {
    Timeout,
    Comm(String),
}

impl GatherError {
    pub open spec fn text(&self) -> Seq<char> {
        match self {
            GatherError::Timeout => "timeout"@,
            GatherError::Comm(e) => "comm: "@ + e@,
        }
    }

    /// The message of the error: `timeout`, or `comm: ` and the reason.
    pub fn to_text(&self) -> (r: String)
        ensures
            r@ == self.text(),
    {
        match self {
            GatherError::Timeout => String::from_str("timeout"),
            GatherError::Comm(e) => {
                let mut s = String::from_str("comm: ");
                s.append(e.as_str());
                s
            },
        }
    }
}

/// The outcome that a gather records for one target: `None` where the call
/// did not finish in time, else what the call gave, its error as text.
pub fn gather_outcome<T>(res: Option<Result<T, String>>) -> (r: Result<T, GatherError>)
    ensures
        res is None ==> r == Err::<T, GatherError>(GatherError::Timeout),
        res matches Some(Ok(x)) ==> r == Ok::<T, GatherError>(x),
        res matches Some(Err(e)) ==> r == Err::<T, GatherError>(GatherError::Comm(e)),
{
    match res {
        None => Err(GatherError::Timeout),
        Some(Ok(x)) => Ok(x),
        Some(Err(e)) => Err(GatherError::Comm(e)),
    }
}

/// How many connections are asked at once.
pub const GATHER_CONCURRENCY: usize = 16;

/// How long a connection has to answer.
pub const GATHER_TIMEOUT_MS: u64 = 2000;

/// Whether `a` comes after `b` in address order: by address, then by port.
pub open spec fn addr_after(a: AddrV4, b: AddrV4) -> bool {
    a.ip > b.ip || (a.ip == b.ip && a.port > b.port)
}

/// Whether the results are in address order.
pub open spec fn sorted_by_addr<T>(s: Seq<(AddrV4, T)>) -> bool {
    forall|i: int, j: int| 0 <= i < j < s.len() ==> !addr_after(#[trigger] s[i].0, #[trigger] s[j].0)
}

/// The outcomes with key `k`, in order.
pub open spec fn with_key<T>(s: Seq<(AddrV4, T)>, k: AddrV4) -> Seq<(AddrV4, T)>
    decreases s.len(),
{
    if s.len() == 0 {
        Seq::empty()
    } else {
        with_key(s.drop_last(), k) + if s.last().0 == k {
            seq![s.last()]
        } else {
            Seq::empty()
        }
    }
}

proof fn lemma_with_key_concat<T>(a: Seq<(AddrV4, T)>, b: Seq<(AddrV4, T)>, k: AddrV4)
    ensures
        with_key(a + b, k) == with_key(a, k) + with_key(b, k),
    decreases b.len(),
{
    if b.len() == 0 {
        assert(a + b =~= a);
        assert(with_key(a, k) + with_key(b, k) =~= with_key(a, k));
    } else {
        lemma_with_key_concat(a, b.drop_last(), k);
        assert((a + b).drop_last() =~= a + b.drop_last());
        assert((a + b).last() == b.last());
        assert(with_key(a + b, k) =~= with_key(a, k) + with_key(b, k));
    }
}

proof fn lemma_with_key_absent<T>(s: Seq<(AddrV4, T)>, k: AddrV4)
    requires
        forall|i: int| 0 <= i < s.len() ==> (#[trigger] s[i]).0 != k,
    ensures
        with_key(s, k) == Seq::<(AddrV4, T)>::empty(),
    decreases s.len(),
{
    if s.len() > 0 {
        lemma_with_key_absent(s.drop_last(), k);
        assert(s.last() == s[s.len() - 1]);
    }
}

proof fn lemma_with_key_one<T>(x: (AddrV4, T), k: AddrV4)
    ensures
        with_key(seq![x], k) == if x.0 == k {
            seq![x]
        } else {
            Seq::<(AddrV4, T)>::empty()
        },
{
    assert(seq![x].drop_last() =~= Seq::<(AddrV4, T)>::empty());
    assert(with_key(Seq::<(AddrV4, T)>::empty(), k) =~= Seq::<(AddrV4, T)>::empty());
}

/// The outcomes of a gather, ordered by their key, so that repeated scrapes
/// compare: the same outcomes, in address order; outcomes of one key keep
/// their order.
pub fn sort_by_key<T>(items: Vec<(AddrV4, T)>) -> (r: Vec<(AddrV4, T)>)
    ensures
        sorted_by_addr(r@),
        r@.to_multiset() == items@.to_multiset(),
        forall|k: AddrV4| #[trigger] with_key(r@, k) == with_key(items@, k),
{
    let ghost orig = items@;
    let mut rest = items;
    let mut out: Vec<(AddrV4, T)> = Vec::new();
    let n = rest.len();
    let mut taken: usize = 0;
    proof {
        assert(orig.subrange(0, 0) =~= Seq::<(AddrV4, T)>::empty());
        assert(out@ =~= Seq::<(AddrV4, T)>::empty());
    }
    while rest.len() > 0
        invariant
            n == orig.len(),
            taken + rest@.len() == n,
            rest@ == orig.subrange(taken as int, n as int),
            sorted_by_addr(out@),
            out@.to_multiset() == orig.subrange(0, taken as int).to_multiset(),
            forall|kk: AddrV4| #[trigger] with_key(out@, kk) == with_key(orig.subrange(0, taken as int), kk),
        decreases rest@.len(),
    {
        let x = rest.remove(0);
        proof {
            assert(x == orig[taken as int]);
            assert(orig.subrange(0, taken + 1) =~= orig.subrange(0, taken as int).push(x));
        }
        let k = x.0;
        let m = out.len();
        let mut p: usize = 0;
        while p < m && !(out[p].0.ip > k.ip || (out[p].0.ip == k.ip && out[p].0.port > k.port))
            invariant
                0 <= p <= m,
                m == out@.len(),
                forall|j: int| 0 <= j < p ==> !addr_after(#[trigger] out@[j].0, k),
            decreases m - p,
        {
            p = p + 1;
        }
        let ghost before = out@;
        proof {
            assert forall|j: int| p <= j < m implies addr_after(#[trigger] before[j].0, k) by {
                assert(addr_after(before[p as int].0, k));
                if j > p {
                    assert(!addr_after(before[p as int].0, before[j].0));
                }
            }
        }
        out.insert(p, x);
        proof {
            assert(out@ == before.insert(p as int, x));
            vstd::seq_lib::to_multiset_insert(before, p as int, x);
            vstd::seq_lib::to_multiset_build(orig.subrange(0, taken as int), x);
            assert forall|a: int, b: int| 0 <= a < b < out@.len() implies !addr_after(
                #[trigger] out@[a].0,
                #[trigger] out@[b].0,
            ) by {
                if b < p {
                    assert(out@[a] == before[a]);
                    assert(out@[b] == before[b]);
                } else if b == p {
                    assert(out@[a] == before[a]);
                } else if a == p {
                    assert(out@[b] == before[b - 1]);
                    if p < m {
                        assert(addr_after(before[p as int].0, k));
                        if b - 1 > p {
                            assert(!addr_after(before[p as int].0, before[b - 1].0));
                        }
                    }
                } else if a < p {
                    assert(out@[a] == before[a]);
                    assert(out@[b] == before[b - 1]);
                } else {
                    assert(out@[a] == before[a - 1]);
                    assert(out@[b] == before[b - 1]);
                }
            }
        }
        proof {
            let pre = orig.subrange(0, taken as int);
            assert forall|kk: AddrV4| #[trigger] with_key(out@, kk) == with_key(orig.subrange(0, taken + 1), kk) by {
                let a = before.subrange(0, p as int);
                let c = before.subrange(p as int, m as int);
                assert(before =~= a + c);
                assert(out@ =~= a + seq![x] + c);
                lemma_with_key_concat(a, c, kk);
                lemma_with_key_concat(a + seq![x], c, kk);
                lemma_with_key_concat(a, seq![x], kk);
                lemma_with_key_one(x, kk);
                assert(pre.push(x).drop_last() =~= pre);
                assert(orig.subrange(0, taken + 1) =~= pre.push(x));
                if kk == k {
                    assert forall|i: int| 0 <= i < c.len() implies (#[trigger] c[i]).0 != kk by {
                        assert(c[i] == before[p + i]);
                    }
                    lemma_with_key_absent(c, kk);
                    assert(with_key(out@, kk) =~= with_key(before, kk).push(x));
                } else {
                    assert(with_key(out@, kk) =~= with_key(before, kk));
                }
            }
        }
        taken = taken + 1;
        proof {
            assert(rest@ =~= orig.subrange(taken as int, n as int));
        }
    }
    proof {
        assert(orig.subrange(0, n as int) =~= orig);
    }
    out
}

} // verus!
