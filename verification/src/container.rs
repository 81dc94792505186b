use vstd::prelude::*;

verus! {

/// A point in time, in nanoseconds since the epoch.
#[derive(Clone, Copy, Debug, PartialEq, Eq)]
pub struct TsNano {
    pub ns: u64,
}

impl TsNano {
    pub fn from_ns(ns: u64) -> (r: TsNano)
        ensures
            r.ns == ns,
    {
        TsNano { ns }
    }

    pub fn ns(&self) -> (r: u64)
        ensures
            r == self.ns,
    {
        self.ns
    }
}

/// Whether a sequence of timestamps never decreases.
pub open spec fn nondecreasing(s: Seq<u64>) -> bool {
    forall|i: int, j: int| 0 <= i <= j < s.len() ==> s[i] <= s[j]
}

/// Whether a sequence of timestamps strictly increases.
pub open spec fn increasing(s: Seq<u64>) -> bool {
    forall|i: int, j: int| 0 <= i < j < s.len() ==> s[i] < s[j]
}

/// A batch of events: timestamps with one value each.
#[derive(Debug, PartialEq)]
pub struct ContainerEvents<V> {
    evs: Vec<(u64, V)>,
}

impl<V> ContainerEvents<V> {
    /// The events, in order.
    pub closed spec fn ev_seq(self) -> Seq<(u64, V)> {
        self.evs@
    }

    /// The timestamps of the events, in order.
    pub open spec fn ts_seq(self) -> Seq<u64> {
        self.ev_seq().map_values(|e: (u64, V)| e.0)
    }

    pub fn new() -> (r: Self)
        ensures
            r.ev_seq() == Seq::<(u64, V)>::empty(),
    {
        ContainerEvents { evs: Vec::new() }
    }

    pub fn push_back(&mut self, ts: TsNano, val: V)
        ensures
            final(self).ev_seq() == old(self).ev_seq().push((ts.ns, val)),
    {
        self.evs.push((ts.ns, val));
    }

    pub fn len(&self) -> (r: usize)
        ensures
            r == self.ev_seq().len(),
    {
        self.evs.len()
    }

    fn ts_at(&self, i: usize) -> (r: u64)
        requires
            i < self.ev_seq().len(),
        ensures
            r == self.ev_seq()[i as int].0,
    {
        self.evs[i].0
    }

    /// The timestamps of the events, in order.
    pub fn tss(&self) -> (r: Vec<u64>)
        ensures
            r@ == self.ts_seq(),
    {
        let n = self.evs.len();
        let mut r: Vec<u64> = Vec::new();
        let mut i: usize = 0;
        while i < n
            invariant
                i <= n,
                n == self.evs@.len(),
                r@ == self.ts_seq().subrange(0, i as int),
            decreases n - i,
        {
            r.push(self.evs[i].0);
            i = i + 1;
            proof {
                assert(r@ =~= self.ts_seq().subrange(0, i as int));
            }
        }
        proof {
            assert(r@ =~= self.ts_seq());
        }
        r
    }

    /// The timestamp of the first event, if any.
    pub fn ts_min(&self) -> (r: Option<TsNano>)
        ensures
            r is None <==> self.ev_seq().len() == 0,
            r matches Some(t) ==> t.ns == self.ev_seq()[0].0,
    {
        if self.evs.len() == 0 {
            None
        } else {
            Some(TsNano::from_ns(self.ts_at(0)))
        }
    }

    /// The timestamp of the last event, if any.
    pub fn ts_max(&self) -> (r: Option<TsNano>)
        ensures
            r is None <==> self.ev_seq().len() == 0,
            r matches Some(t) ==> t.ns == self.ev_seq().last().0,
    {
        if self.evs.len() == 0 {
            None
        } else {
            Some(TsNano::from_ns(self.ts_at(self.evs.len() - 1)))
        }
    }

    /// Whether the timestamps never decrease.
    pub fn is_monotonic(&self) -> (r: bool)
        ensures
            r == nondecreasing(self.ts_seq()),
    {
        let n = self.evs.len();
        if n == 0 {
            proof {
                assert(self.ts_seq().len() == 0);
            }
            return true;
        }
        let ghost s = self.ts_seq();
        let mut i: usize = 1;
        while i < n
            invariant
                1 <= i <= n,
                n == self.evs@.len(),
                s == self.ts_seq(),
                s.len() == n,
                nondecreasing(s.subrange(0, i as int)),
            decreases n - i,
        {
            if self.ts_at(i) < self.ts_at(i - 1) {
                proof {
                    assert(!(s[i - 1] <= s[i as int]));
                }
                return false;
            }
            proof {
                let a = s.subrange(0, i as int);
                let b = s.subrange(0, i + 1);
                assert forall|x: int, y: int| 0 <= x <= y < b.len() implies b[x] <= b[y] by {
                    if y < i {
                        assert(a[x] <= a[y]);
                    } else if x < i {
                        assert(a[x] <= a[i - 1]);
                    }
                }
            }
            i = i + 1;
        }
        proof {
            assert(s.subrange(0, n as int) =~= s);
        }
        true
    }

    /// The index of the first event whose timestamp is greater than `ts`.
    pub fn find_lowest_index_gt(&self, ts: TsNano) -> (r: Option<usize>)
        ensures
            r matches Some(k) ==> k < self.ev_seq().len() && self.ev_seq()[k as int].0 > ts.ns
                && forall|j: int| 0 <= j < k ==> self.ev_seq()[j].0 <= ts.ns,
            r is None ==> forall|j: int| 0 <= j < self.ev_seq().len() ==> self.ev_seq()[j].0 <= ts.ns,
    {
        let n = self.evs.len();
        let mut i: usize = 0;
        while i < n
            invariant
                i <= n,
                n == self.evs@.len(),
                forall|j: int| 0 <= j < i ==> self.evs@[j].0 <= ts.ns,
            decreases n - i,
        {
            if self.ts_at(i) > ts.ns {
                return Some(i);
            }
            i = i + 1;
        }
        None
    }

    /// Move the first `n` events into a new container.
    pub fn drain_into_new(&mut self, n: usize) -> (r: Self)
        requires
            n <= old(self).ev_seq().len(),
        ensures
            r.ev_seq() == old(self).ev_seq().subrange(0, n as int),
            final(self).ev_seq() == old(self).ev_seq().subrange(n as int, old(self).ev_seq().len() as int),
            r.ts_seq() == old(self).ts_seq().subrange(0, n as int),
            final(self).ts_seq() == old(self).ts_seq().subrange(n as int, old(self).ts_seq().len() as int),
    {
        let mut evs = self.evs.split_off(n);
        std::mem::swap(&mut self.evs, &mut evs);
        let r = ContainerEvents { evs };
        proof {
            assert(r.ts_seq() =~= old(self).ts_seq().subrange(0, n as int));
            assert(self.ts_seq() =~= old(self).ts_seq().subrange(n as int, old(self).ts_seq().len() as int));
        }
        r
    }

    /// Move the first `n` events to the end of `dst`.
    pub fn drain_into(&mut self, dst: &mut Self, n: usize)
        requires
            n <= old(self).ev_seq().len(),
        ensures
            final(dst).ev_seq() == old(dst).ev_seq() + old(self).ev_seq().subrange(0, n as int),
            final(self).ev_seq() == old(self).ev_seq().subrange(n as int, old(self).ev_seq().len() as int),
            final(dst).ts_seq() == old(dst).ts_seq() + old(self).ts_seq().subrange(0, n as int),
            final(self).ts_seq() == old(self).ts_seq().subrange(n as int, old(self).ts_seq().len() as int),
    {
        let mut head = self.drain_into_new(n);
        dst.evs.append(&mut head.evs);
        proof {
            assert(dst.ts_seq() =~= old(dst).ts_seq() + old(self).ts_seq().subrange(0, n as int));
        }
    }
}

impl<V: Copy> ContainerEvents<V> {
    /// The values of the events, in order.
    pub fn values(&self) -> (r: Vec<V>)
        ensures
            r@ == self.ev_seq().map_values(|e: (u64, V)| e.1),
    {
        let n = self.evs.len();
        let mut r: Vec<V> = Vec::new();
        let mut i: usize = 0;
        while i < n
            invariant
                i <= n,
                n == self.evs@.len(),
                r@ == self.ev_seq().map_values(|e: (u64, V)| e.1).subrange(0, i as int),
            decreases n - i,
        {
            r.push(self.evs[i].1);
            i = i + 1;
            proof {
                assert(r@ =~= self.ev_seq().map_values(|e: (u64, V)| e.1).subrange(0, i as int));
            }
        }
        proof {
            assert(r@ =~= self.ev_seq().map_values(|e: (u64, V)| e.1));
        }
        r
    }
}

} // verus!
