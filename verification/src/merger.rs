use crate::container::{increasing, nondecreasing, ContainerEvents, TsNano};
use crate::measure::{lemma_sum_pointwise, sum};
use crate::seqlemmas::{
    all_gt, all_lt, lemma_increasing_concat, lemma_increasing_split, lemma_increasing_subrange,
};
use std::collections::VecDeque;
use vstd::prelude::*;

verus! {

/// What an input stream of the merger delivers.
pub enum InputItem<V> {
    Data(ContainerEvents<V>),
    RangeComplete,
    Log(String),
    Stats(String),
    Error(String),
}

#[derive(Debug, PartialEq, Eq)]
pub enum MergerError {
    NoPendingButMissing,
    Input(String),
    ShouldFindTsMin,
    ItemShouldHaveTsMax,
    PartialPathDrainedAllItems,
    InputNotMonotonic,
    Logic,
}

/// What the merger emits.
pub enum MergerItem<V> {
    Data(ContainerEvents<V>),
    RangeComplete,
    Log(String),
    Stats(String),
    Error(MergerError),
}

/// An input slot together with the first timestamp of its batch.
#[derive(Clone, Copy)]
struct Low {
    ix: usize,
    ts: u64,
}

/// How one round of the merge loop ended.
enum Flow {
    Continue,
    ErrBreak(MergerError),
    DoneBreak,
}

/// Merges several time-ordered inputs into one time-ordered output.
#[verifier::reject_recursive_types(V)]
pub struct Merger<V> {
    inps: Vec<VecDeque<InputItem<V>>>,
    inp_done: Vec<bool>,
    items: Vec<Option<ContainerEvents<V>>>,
    out: Option<ContainerEvents<V>>,
    out_max_len: usize,
    range_complete: Vec<bool>,
    outbuf: VecDeque<MergerItem<V>>,
    dim0ix_max: u64,
    done_inp: bool,
    done_range_complete: bool,
    complete: bool,
    /// Timestamps of the events handed out so far, in order.
    emitted: Ghost<Seq<u64>>,
    /// Timestamps of all events of all inputs.
    orig_set: Ghost<Set<u64>>,
    /// Whether each input was strictly time-ordered and free of errors.
    ordered: Ghost<bool>,
    /// The events handed out so far, in order.
    emitted_ev: Ghost<Seq<(u64, V)>>,
    /// The events of all inputs.
    orig_ev: Ghost<Set<(u64, V)>>,
}

/// The timestamps that an input item carries.
pub open spec fn item_ts<V>(x: InputItem<V>) -> Seq<u64> {
    match x {
        InputItem::Data(b) => b.ts_seq(),
        _ => Seq::empty(),
    }
}

/// The timestamps of all data batches of an input, in order.
pub open spec fn data_ts<V>(s: Seq<InputItem<V>>) -> Seq<u64>
    decreases s.len(),
{
    if s.len() == 0 {
        Seq::empty()
    } else {
        item_ts(s[0]) + data_ts(s.subrange(1, s.len() as int))
    }
}

/// The timestamps that an output item carries.
pub open spec fn out_item_ts<V>(x: MergerItem<V>) -> Seq<u64> {
    match x {
        MergerItem::Data(b) => b.ts_seq(),
        _ => Seq::empty(),
    }
}

/// The timestamps of all data batches of an output sequence, in order.
pub open spec fn out_ts<V>(s: Seq<MergerItem<V>>) -> Seq<u64>
    decreases s.len(),
{
    if s.len() == 0 {
        Seq::empty()
    } else {
        out_item_ts(s[0]) + out_ts(s.subrange(1, s.len() as int))
    }
}

/// The events that an input item carries.
pub open spec fn item_ev<V>(x: InputItem<V>) -> Seq<(u64, V)> {
    match x {
        InputItem::Data(b) => b.ev_seq(),
        _ => Seq::empty(),
    }
}

/// The events of all data batches of an input, in order.
pub open spec fn data_ev<V>(s: Seq<InputItem<V>>) -> Seq<(u64, V)>
    decreases s.len(),
{
    if s.len() == 0 {
        Seq::empty()
    } else {
        item_ev(s[0]) + data_ev(s.subrange(1, s.len() as int))
    }
}

/// The events that an output item carries.
pub open spec fn out_item_ev<V>(x: MergerItem<V>) -> Seq<(u64, V)> {
    match x {
        MergerItem::Data(b) => b.ev_seq(),
        _ => Seq::empty(),
    }
}

/// The events of all data batches of an output sequence, in order.
pub open spec fn out_ev<V>(s: Seq<MergerItem<V>>) -> Seq<(u64, V)>
    decreases s.len(),
{
    if s.len() == 0 {
        Seq::empty()
    } else {
        out_item_ev(s[0]) + out_ev(s.subrange(1, s.len() as int))
    }
}

pub open spec fn opt_ev<V>(o: Option<ContainerEvents<V>>) -> Seq<(u64, V)> {
    match o {
        Some(b) => b.ev_seq(),
        None => Seq::empty(),
    }
}

/// The events of all inputs.
pub open spec fn inputs_ev_set<V>(inps: Seq<Seq<InputItem<V>>>) -> Set<(u64, V)> {
    Set::new(|e: (u64, V)| exists|i: int| 0 <= i < inps.len() && #[trigger] data_ev(inps[i]).contains(e))
}

pub proof fn lemma_out_ev_push<V>(s: Seq<MergerItem<V>>, x: MergerItem<V>)
    ensures
        out_ev(s.push(x)) == out_ev(s) + out_item_ev(x),
    decreases s.len(),
{
    if s.len() == 0 {
        let u = s.push(x);
        assert(u.subrange(1, 1) =~= Seq::<MergerItem<V>>::empty());
        assert(out_ev(u.subrange(1, 1)) =~= Seq::<(u64, V)>::empty());
        assert(u[0] == x);
        assert(out_ev(u) =~= out_item_ev(x));
    } else {
        let t = s.subrange(1, s.len() as int);
        lemma_out_ev_push(t, x);
        assert(s.push(x).subrange(1, (s.len() + 1) as int) =~= t.push(x));
        assert(out_ev(s.push(x)) =~= out_item_ev(s[0]) + (out_ev(t) + out_item_ev(x)));
    }
}

pub proof fn lemma_out_ev_empty<V>(s: Seq<MergerItem<V>>)
    requires
        s.len() == 0,
    ensures
        out_ev(s) == Seq::<(u64, V)>::empty(),
{
}

pub proof fn lemma_out_ts_empty<V>(s: Seq<MergerItem<V>>)
    requires
        s.len() == 0,
    ensures
        out_ts(s) == Seq::<u64>::empty(),
{
}

pub proof fn lemma_out_ts_push<V>(s: Seq<MergerItem<V>>, x: MergerItem<V>)
    ensures
        out_ts(s.push(x)) == out_ts(s) + out_item_ts(x),
    decreases s.len(),
{
    if s.len() == 0 {
        let u = s.push(x);
        assert(u.subrange(1, 1) =~= Seq::<MergerItem<V>>::empty());
        assert(out_ts(u.subrange(1, 1)) =~= Seq::<u64>::empty());
        assert(u[0] == x);
        assert(out_ts(u) =~= out_item_ts(x));
    } else {
        let t = s.subrange(1, s.len() as int);
        lemma_out_ts_push(t, x);
        assert(s.push(x).subrange(1, (s.len() + 1) as int) =~= t.push(x));
        assert(out_ts(s.push(x)) =~= out_item_ts(s[0]) + (out_ts(t) + out_item_ts(x)));
    }
}

/// An input whose events are strictly time-ordered and which reports no error.
pub open spec fn well_ordered_input<V>(s: Seq<InputItem<V>>) -> bool {
    &&& increasing(data_ts(s))
    &&& forall|k: int| 0 <= k < s.len() ==> !(#[trigger] s[k] is Error)
}

/// Whether every input is strictly time-ordered and reports no error.
pub open spec fn well_ordered_inputs<V>(inps: Seq<Seq<InputItem<V>>>) -> bool {
    forall|i: int| 0 <= i < inps.len() ==> #[trigger] well_ordered_input(inps[i])
}

/// The timestamps of the events of all inputs.
pub open spec fn inputs_ts_set<V>(inps: Seq<Seq<InputItem<V>>>) -> Set<u64> {
    Set::new(|t: u64| exists|i: int| 0 <= i < inps.len() && #[trigger] data_ts(inps[i]).contains(t))
}

/// The contents of the input queues.
pub open spec fn inps_view<V>(inps: Seq<VecDeque<InputItem<V>>>) -> Seq<Seq<InputItem<V>>> {
    inps.map_values(|q: VecDeque<InputItem<V>>| q@)
}

pub open spec fn opt_ts<V>(o: Option<ContainerEvents<V>>) -> Seq<u64> {
    match o {
        Some(b) => b.ts_seq(),
        None => Seq::empty(),
    }
}

pub open spec fn default_out_max_len() -> nat {
    1000
}

impl<V> Merger<V> {
    spec fn shape(self) -> bool {
        &&& self.inp_done@.len() == self.inps@.len()
        &&& self.items@.len() == self.inps@.len()
        &&& self.range_complete@.len() == self.inps@.len()
    }

    /// Well-formedness: the shape of the state, and the merge invariant.
    pub closed spec fn wf(self) -> bool {
        &&& self.shape()
        &&& self.law()
        &&& self.done_range_complete ==> self.done_inp
        &&& self.done_range_complete ==> out_ts(self.outbuf@) == Seq::<u64>::empty()
        &&& forall|k: int| 0 <= k < self.outbuf@.len() ==> !(#[trigger] self.outbuf@[k] is Error)
        &&& forall|k: int|
            0 <= k < self.outbuf@.len() && (#[trigger] self.outbuf@[k] is RangeComplete) ==> self.done_range_complete
        &&& self.ev_ok()
        &&& self.grouping_ok()
    }

    /// Whether every input has ended and nothing is pending: no batch in a
    /// slot and no pending output.
    pub closed spec fn exhausted(self) -> bool {
        &&& self.out is None
        &&& forall|i: int| 0 <= i < self.items@.len() ==> #[trigger] self.items@[i] is None && self.inp_done@[i]
    }

    /// The timestamps of the batches queued for hand-out, in order.
    pub closed spec fn queued_ts(self) -> Seq<u64> {
        out_ts(self.outbuf@)
    }

    /// Once every input of well ordered inputs has ended, the timestamps
    /// handed out and those queued are exactly the inputs' timestamps: a
    /// batch closed in that state holds all that was left.
    pub proof fn lemma_ended_output(self)
        requires
            self.wf(),
            self.ordered(),
            self.exhausted(),
        ensures
            forall|t: u64| #[trigger] self.orig_set().contains(t) <==> (self.emitted() + self.queued_ts()).contains(t),
    {
        assert(self.produced() =~= self.emitted() + self.queued_ts());
        assert forall|t: u64| #[trigger] self.orig_set().contains(t) <==> (self.emitted() + self.queued_ts()).contains(t) by {
            if self.in_state(t) && !self.produced().contains(t) {
                let j = choose|j: int| 0 <= j < self.inps@.len() && #[trigger] self.in_loc(j, t);
                assert(self.per_input(j));
                assert(self.items@[j] is None && self.inp_done@[j]);
                assert(self.rest_ts(j) =~= Seq::<u64>::empty());
                assert(self.slot_ts(j) =~= Seq::<u64>::empty());
            }
        }
    }

    /// When a batch of output is closed: a queued batch holds at least
    /// `out_max_len` events, unless every input has ended.
    spec fn grouping_ok(self) -> bool {
        forall|k: int|
            0 <= k < self.outbuf@.len() ==> match #[trigger] self.outbuf@[k] {
                MergerItem::Data(b) => b.ev_seq().len() >= self.out_max_len || self.exhausted(),
                _ => true,
            }
    }

    /// `grouping_ok` carries over where no batch was queued and the merger
    /// did not leave the ended state.
    proof fn lemma_grouping_frame(self, before: Self)
        requires
            before.grouping_ok(),
            self.out_max_len == before.out_max_len,
            forall|k: int|
                0 <= k < self.outbuf@.len() && #[trigger] self.outbuf@[k] is Data ==> exists|j: int|
                    0 <= j < before.outbuf@.len() && before.outbuf@[j] == self.outbuf@[k],
            before.exhausted() ==> self.exhausted(),
        ensures
            self.grouping_ok(),
    {
        assert forall|k: int| 0 <= k < self.outbuf@.len() implies match #[trigger] self.outbuf@[k] {
            MergerItem::Data(b) => b.ev_seq().len() >= self.out_max_len || self.exhausted(),
            _ => true,
        } by {
            if self.outbuf@[k] is Data {
                let j = choose|j: int| 0 <= j < before.outbuf@.len() && before.outbuf@[j] == self.outbuf@[k];
                assert(match before.outbuf@[j] {
                    MergerItem::Data(b) => b.ev_seq().len() >= before.out_max_len || before.exhausted(),
                    _ => true,
                });
            }
        }
    }

    /// The events handed out so far, in order.
    pub closed spec fn emitted_ev(self) -> Seq<(u64, V)> {
        self.emitted_ev@
    }

    /// The events of all inputs, as given to `new`.
    pub closed spec fn orig_ev(self) -> Set<(u64, V)> {
        self.orig_ev@
    }

    spec fn ev_in_slot(self, i: int, e: (u64, V)) -> bool {
        opt_ev(self.items@[i]).contains(e) || data_ev(self.inps@[i]@).contains(e)
    }

    /// Whether the event is handed out, queued, pending or still in an input.
    spec fn ev_in(self, e: (u64, V)) -> bool {
        ||| self.emitted_ev@.contains(e)
        ||| out_ev(self.outbuf@).contains(e)
        ||| opt_ev(self.out).contains(e)
        ||| exists|i: int| 0 <= i < self.inps@.len() && #[trigger] self.ev_in_slot(i, e)
    }

    /// Events are only moved: each one anywhere in the merger, handed out
    /// included, is an event of an input; and the timestamps handed out are
    /// those of the events handed out.
    spec fn ev_ok(self) -> bool {
        &&& self.emitted@ == self.emitted_ev@.map_values(|e: (u64, V)| e.0)
        &&& forall|e: (u64, V)| #[trigger] self.ev_in(e) ==> self.orig_ev@.contains(e)
    }

    /// After the first `k` events of the batch `bt` of slot `il0` moved to
    /// the pending output, and at most the rest of it stayed in the slot,
    /// `ev_ok` carries over.
    proof fn lemma_ev_after_take(self, s1: Self, il0: int, bt: Seq<(u64, V)>, k: int)
        requires
            s1.ev_ok(),
            s1.shape(),
            self.shape(),
            0 <= il0 < s1.inps@.len(),
            s1.items@[il0] matches Some(b) && b.ev_seq() == bt,
            0 <= k <= bt.len(),
            self.inps == s1.inps,
            self.outbuf == s1.outbuf,
            self.emitted == s1.emitted,
            self.emitted_ev == s1.emitted_ev,
            self.orig_ev == s1.orig_ev,
            self.items@.len() == s1.items@.len(),
            forall|j: int| 0 <= j < s1.items@.len() && j != il0 ==> self.items@[j] == s1.items@[j],
            opt_ev(self.out) == opt_ev(s1.out) + bt.subrange(0, k),
            forall|e: (u64, V)|
                #[trigger] opt_ev(self.items@[il0]).contains(e) ==> bt.subrange(k, bt.len() as int).contains(e),
        ensures
            self.ev_ok(),
    {
        assert forall|e: (u64, V)| #[trigger] opt_ev(self.out).contains(e) implies s1.ev_in(e) by {
            let x = choose|x: int| 0 <= x < opt_ev(self.out).len() && opt_ev(self.out)[x] == e;
            if x < opt_ev(s1.out).len() {
                assert(opt_ev(s1.out)[x] == e);
            } else {
                assert(bt[x - opt_ev(s1.out).len()] == e);
                assert(opt_ev(s1.items@[il0]).contains(e));
                assert(s1.ev_in_slot(il0, e));
            }
        }
        assert forall|j: int, e: (u64, V)| 0 <= j < self.inps@.len() && #[trigger] self.ev_in_slot(j, e) implies s1.ev_in(e) by {
            if j == il0 && opt_ev(self.items@[il0]).contains(e) {
                let x = choose|x: int| 0 <= x < bt.len() - k && bt.subrange(k, bt.len() as int)[x] == e;
                assert(bt[k + x] == e);
                assert(opt_ev(s1.items@[il0]).contains(e));
            }
            assert(s1.ev_in_slot(j, e));
        }
        self.lemma_ev_frame(s1);
    }

    /// After the first item of input `i` was taken, its events (if any) going
    /// to slot `i`, `ev_ok` carries over.
    proof fn lemma_ev_pop_input(self, before: Self, i: int)
        requires
            before.ev_ok(),
            before.shape(),
            self.shape(),
            0 <= i < before.inps@.len(),
            before.inps@[i]@.len() > 0,
            self.inps@.len() == before.inps@.len(),
            self.inps@[i]@ == before.inps@[i]@.subrange(1, before.inps@[i]@.len() as int),
            forall|j: int| 0 <= j < before.inps@.len() && j != i ==> self.inps@[j] == before.inps@[j],
            forall|j: int| 0 <= j < before.inps@.len() && j != i ==> self.items@[j] == before.items@[j],
            forall|e: (u64, V)|
                #[trigger] opt_ev(self.items@[i]).contains(e) ==> item_ev(before.inps@[i]@[0]).contains(e)
                    || opt_ev(before.items@[i]).contains(e),
            out_ev(self.outbuf@) == out_ev(before.outbuf@),
            self.out == before.out,
            self.emitted == before.emitted,
            self.emitted_ev == before.emitted_ev,
            self.orig_ev == before.orig_ev,
        ensures
            self.ev_ok(),
    {
        let q = before.inps@[i]@;
        assert(data_ev(q) == item_ev(q[0]) + data_ev(q.subrange(1, q.len() as int)));
        assert forall|j: int, e: (u64, V)| 0 <= j < self.inps@.len() && #[trigger] self.ev_in_slot(j, e) implies before.ev_in(e) by {
            if j == i {
                if opt_ev(self.items@[i]).contains(e) && item_ev(q[0]).contains(e) {
                    let x = choose|x: int| 0 <= x < item_ev(q[0]).len() && item_ev(q[0])[x] == e;
                    assert(data_ev(q)[x] == e);
                } else if data_ev(self.inps@[i]@).contains(e) {
                    let x = choose|x: int| 0 <= x < data_ev(self.inps@[i]@).len() && data_ev(self.inps@[i]@)[x] == e;
                    assert(data_ev(q)[item_ev(q[0]).len() + x] == e);
                }
            }
            assert(before.ev_in_slot(j, e));
        }
        self.lemma_ev_frame(before);
    }

    proof fn lemma_emitted_sound(self)
        requires
            self.ev_ok(),
        ensures
            forall|e: (u64, V)| #[trigger] self.emitted_ev@.contains(e) ==> self.orig_ev@.contains(e),
    {
        assert forall|e: (u64, V)| #[trigger] self.emitted_ev@.contains(e) implies self.orig_ev@.contains(e) by {
            assert(self.ev_in(e));
        }
    }

    /// Where every event of `self` is one of `before`, and nothing else of the
    /// bookkeeping changed, `ev_ok` carries over.
    proof fn lemma_ev_frame(self, before: Self)
        requires
            before.ev_ok(),
            self.inps@.len() == before.inps@.len(),
            self.items@.len() == self.inps@.len(),
            self.emitted == before.emitted,
            self.emitted_ev == before.emitted_ev,
            self.orig_ev == before.orig_ev,
            forall|e: (u64, V)| #[trigger] out_ev(self.outbuf@).contains(e) ==> before.ev_in(e),
            forall|e: (u64, V)| #[trigger] opt_ev(self.out).contains(e) ==> before.ev_in(e),
            forall|j: int, e: (u64, V)| 0 <= j < self.inps@.len() && #[trigger] self.ev_in_slot(j, e) ==> before.ev_in(e),
        ensures
            self.ev_ok(),
    {
        assert forall|e: (u64, V)| #[trigger] self.ev_in(e) implies self.orig_ev@.contains(e) by {
            if !self.emitted_ev@.contains(e) && !out_ev(self.outbuf@).contains(e) && !opt_ev(self.out).contains(e) {
                let j = choose|j: int| 0 <= j < self.inps@.len() && #[trigger] self.ev_in_slot(j, e);
                assert(before.ev_in(e));
            } else if self.emitted_ev@.contains(e) {
                assert(before.ev_in(e));
            }
        }
    }

    pub closed spec fn is_complete(self) -> bool {
        self.complete
    }

    pub closed spec fn out_max_len_spec(self) -> nat {
        self.out_max_len as nat
    }

    spec fn rem_seq(self) -> Seq<nat> {
        Seq::new(
            self.inps@.len(),
            |i: int| if self.inp_done@[i] { 0nat } else { self.inps@[i]@.len() },
        )
    }

    spec fn ev_weight(self) -> Seq<nat> {
        Seq::new(
            self.items@.len(),
            |i: int|
                match self.items@[i] {
                    Some(b) => b.ev_seq().len() + 1,
                    None => 0nat,
                },
        )
    }

    /// Timestamps of the events handed out so far.
    pub closed spec fn emitted(self) -> Seq<u64> {
        self.emitted@
    }

    /// Timestamps of all events of all inputs, as given to `new`.
    pub closed spec fn orig_set(self) -> Set<u64> {
        self.orig_set@
    }

    /// Whether the inputs given to `new` were well ordered.
    pub closed spec fn ordered(self) -> bool {
        self.ordered@
    }

    /// Timestamps handed out, queued for hand-out, or in the pending output.
    spec fn produced(self) -> Seq<u64> {
        self.emitted@ + out_ts(self.outbuf@) + opt_ts(self.out)
    }

    spec fn slot_ts(self, i: int) -> Seq<u64> {
        opt_ts(self.items@[i])
    }

    spec fn rest_ts(self, i: int) -> Seq<u64> {
        data_ts(self.inps@[i]@)
    }

    spec fn per_input(self, i: int) -> bool {
        &&& increasing(self.slot_ts(i))
        &&& increasing(self.rest_ts(i))
        &&& forall|k: int|
            0 <= k < self.inps@[i]@.len() ==> !(#[trigger] self.inps@[i]@[k] is Error)
        &&& all_lt(self.slot_ts(i), self.rest_ts(i))
        &&& self.produced().len() > 0 ==> all_gt(self.slot_ts(i), self.dim0ix_max)
        &&& self.produced().len() > 0 ==> all_gt(self.rest_ts(i), self.dim0ix_max)
        &&& self.inp_done@[i] ==> self.inps@[i]@.len() == 0
    }

    spec fn in_loc(self, i: int, t: u64) -> bool {
        self.slot_ts(i).contains(t) || self.rest_ts(i).contains(t)
    }

    spec fn in_state(self, t: u64) -> bool {
        self.produced().contains(t) || exists|i: int|
            0 <= i < self.inps@.len() && #[trigger] self.in_loc(i, t)
    }

    spec fn law_core(self) -> bool {
        let p = self.produced();
        &&& increasing(p)
        &&& p.len() > 0 ==> self.dim0ix_max == p.last()
        &&& p.len() == 0 ==> self.dim0ix_max == 0
        &&& forall|i: int| 0 <= i < self.inps@.len() ==> #[trigger] self.per_input(i)
        &&& self.done_inp ==> self.out is None && forall|i: int|
            0 <= i < self.inps@.len() ==> self.items@[i] is None && self.inps@[i]@.len() == 0
        &&& forall|t: u64| #[trigger] self.orig_set@.contains(t) <==> self.in_state(t)
    }

    /// The merge invariant, which holds whenever the inputs were well ordered.
    spec fn law(self) -> bool {
        self.ordered@ ==> self.law_core()
    }

    spec fn out_weight(self) -> nat {
        if self.out is Some {
            1
        } else {
            0
        }
    }

    pub fn new(inps: Vec<VecDeque<InputItem<V>>>, out_max_len: Option<u32>) -> (r: Self)
        ensures
            r.wf(),
            !r.is_complete(),
            r.emitted() == Seq::<u64>::empty(),
            r.orig_set() == inputs_ts_set(inps_view(inps@)),
            r.emitted_ev() == Seq::<(u64, V)>::empty(),
            r.orig_ev() == inputs_ev_set(inps_view(inps@)),
            r.ordered() == well_ordered_inputs(inps_view(inps@)),
            r.out_max_len_spec() == match out_max_len {
                Some(x) => x as nat,
                None => default_out_max_len(),
            },
    {
        let n = inps.len();
        let mut inp_done: Vec<bool> = Vec::new();
        let mut items: Vec<Option<ContainerEvents<V>>> = Vec::new();
        let mut range_complete: Vec<bool> = Vec::new();
        let mut i: usize = 0;
        while i < n
            invariant
                i <= n,
                inp_done@.len() == i,
                items@.len() == i,
                range_complete@.len() == i,
                forall|j: int| 0 <= j < i ==> !inp_done@[j],
                forall|j: int| 0 <= j < i ==> items@[j] is None,
            decreases n - i,
        {
            inp_done.push(false);
            items.push(None);
            range_complete.push(false);
            i = i + 1;
        }
        let out_max_len: usize = match out_max_len {
            Some(x) => x as usize,
            None => 1000,
        };
        let ghost views = inps_view(inps@);
        assert(forall|j: int| 0 <= j < n ==> items@[j] is None);
        let r = Merger {
            inps,
            inp_done,
            items,
            out: None,
            out_max_len,
            range_complete,
            outbuf: VecDeque::new(),
            dim0ix_max: 0,
            done_inp: false,
            done_range_complete: false,
            complete: false,
            emitted: Ghost(Seq::empty()),
            orig_set: Ghost(inputs_ts_set(views)),
            ordered: Ghost(well_ordered_inputs(views)),
            emitted_ev: Ghost(Seq::empty()),
            orig_ev: Ghost(inputs_ev_set(views)),
        };
        proof {
            lemma_out_ev_empty::<V>(r.outbuf@);
            assert(r.emitted@ =~= r.emitted_ev@.map_values(|e: (u64, V)| e.0));
            assert forall|e: (u64, V)| #[trigger] r.ev_in(e) implies r.orig_ev@.contains(e) by {
                let j = choose|j: int| 0 <= j < r.inps@.len() && #[trigger] r.ev_in_slot(j, e);
                assert(views[j] == r.inps@[j]@);
                assert(data_ev(views[j]).contains(e));
            }
            lemma_out_ts_empty::<V>(r.outbuf@);
            assert(r.produced() =~= Seq::<u64>::empty());
            if r.ordered@ {
                assert forall|j: int| 0 <= j < r.inps@.len() implies #[trigger] r.per_input(j) by {
                    assert(well_ordered_input(views[j]));
                    assert(views[j] == r.inps@[j]@);
                    assert(r.items@[j] is None);
                    assert(r.slot_ts(j) =~= Seq::<u64>::empty());
                }
                assert forall|t: u64| #[trigger] r.orig_set@.contains(t) <==> r.in_state(t) by {
                    if r.orig_set@.contains(t) {
                        let j = choose|j: int| 0 <= j < views.len() && #[trigger] data_ts(views[j]).contains(t);
                        assert(views[j] == r.inps@[j]@);
                        assert(r.in_loc(j, t));
                    }
                    if r.in_state(t) {
                        let j = choose|j: int| 0 <= j < r.inps@.len() && #[trigger] r.in_loc(j, t);
                        assert(views[j] == r.inps@[j]@);
                        assert(r.slot_ts(j) =~= Seq::<u64>::empty());
                        assert(data_ts(views[j]).contains(t));
                    }
                }
            }
        }
        r
    }

    /// Move the events of `src` up to and including `upto` into the pending output.
    fn take_into_output_upto(&mut self, src: &mut ContainerEvents<V>, upto: u64)
        ensures
            final(self).inps == old(self).inps,
            final(self).inp_done == old(self).inp_done,
            final(self).items == old(self).items,
            final(self).range_complete == old(self).range_complete,
            final(self).dim0ix_max == old(self).dim0ix_max,
            final(self).done_inp == old(self).done_inp,
            final(self).done_range_complete == old(self).done_range_complete,
            final(self).complete == old(self).complete,
            final(self).out_max_len == old(self).out_max_len,
            final(self).outbuf == old(self).outbuf,
            final(self).emitted == old(self).emitted,
            final(self).emitted_ev == old(self).emitted_ev,
            final(self).orig_set == old(self).orig_set,
            final(self).orig_ev == old(self).orig_ev,
            final(self).ordered == old(self).ordered,
            final(self).out is Some,
            ({
                let k = prefix_le(old(src).ts_seq(), upto) as int;
                &&& final(src).ts_seq() == old(src).ts_seq().subrange(k, old(src).ts_seq().len() as int)
                &&& final(src).ev_seq().len() == old(src).ev_seq().len() - k
                &&& opt_ts(final(self).out) == opt_ts(old(self).out) + old(src).ts_seq().subrange(0, k)
                &&& final(src).ev_seq() == old(src).ev_seq().subrange(k, old(src).ev_seq().len() as int)
                &&& opt_ev(final(self).out) == opt_ev(old(self).out) + old(src).ev_seq().subrange(0, k)
            }),
    {
        let k = match src.find_lowest_index_gt(TsNano::from_ns(upto)) {
            Some(ilgt) => ilgt,
            None => src.len(),
        };
        proof {
            lemma_prefix_le_unique(old(src).ts_seq(), upto, k as int);
        }
        match self.out.take() {
            Some(mut out) => {
                src.drain_into(&mut out, k);
                self.out = Some(out);
            },
            None => {
                let x = src.drain_into_new(k);
                self.out = Some(x);
                proof {
                    assert(opt_ts(self.out) =~= opt_ts(old(self).out) + old(src).ts_seq().subrange(0, k as int));
                    assert(opt_ev(self.out) =~= opt_ev(old(self).out) + old(src).ev_seq().subrange(0, k as int));
                }
            },
        }
    }

    /// Record the timestamp of the last pending output event as the
    /// highest timestamp handed on so far.
    fn note_dim0ix_max(&mut self)
        ensures
            final(self).inps == old(self).inps,
            final(self).inp_done == old(self).inp_done,
            final(self).items == old(self).items,
            final(self).range_complete == old(self).range_complete,
            final(self).out == old(self).out,
            final(self).done_inp == old(self).done_inp,
            final(self).done_range_complete == old(self).done_range_complete,
            final(self).complete == old(self).complete,
            final(self).out_max_len == old(self).out_max_len,
            final(self).outbuf == old(self).outbuf,
            final(self).emitted == old(self).emitted,
            final(self).emitted_ev == old(self).emitted_ev,
            final(self).orig_set == old(self).orig_set,
            final(self).orig_ev == old(self).orig_ev,
            final(self).ordered == old(self).ordered,
            opt_ts(old(self).out).len() > 0 ==> final(self).dim0ix_max == opt_ts(old(self).out).last(),
    {
        if let Some(o) = self.out.as_ref() {
            if let Some(t) = o.ts_max() {
                self.dim0ix_max = t.ns;
                proof {
                    let e = o.ev_seq();
                    assert(o.ts_seq()[e.len() - 1] == e[e.len() - 1].0);
                }
            }
        }
    }
}

impl<V> Merger<V> {
    proof fn lemma_state_same(a: Self, b: Self)
        requires
            a.inps@.len() == b.inps@.len(),
            a.produced() == b.produced(),
            forall|j: int, t: u64| 0 <= j < a.inps@.len() ==> a.in_loc(j, t) == b.in_loc(j, t),
        ensures
            forall|t: u64| a.in_state(t) == b.in_state(t),
    {
        assert forall|t: u64| a.in_state(t) == b.in_state(t) by {
            if a.in_state(t) && !a.produced().contains(t) {
                let j = choose|j: int| 0 <= j < a.inps@.len() && #[trigger] a.in_loc(j, t);
                assert(b.in_loc(j, t));
            }
            if b.in_state(t) && !b.produced().contains(t) {
                let j = choose|j: int| 0 <= j < b.inps@.len() && #[trigger] b.in_loc(j, t);
                assert(a.in_loc(j, t));
            }
        }
    }

    spec fn mid_input(self, i: int) -> bool {
        let d = self.dim0ix_max;
        &&& increasing(self.slot_ts(i))
        &&& increasing(self.rest_ts(i))
        &&& forall|k: int|
            0 <= k < self.inps@[i]@.len() ==> !(#[trigger] self.inps@[i]@[k] is Error)
        &&& all_lt(self.slot_ts(i), self.rest_ts(i))
        &&& forall|x: int| 0 <= x < self.slot_ts(i).len() ==> self.slot_ts(i)[x] >= d
        &&& all_gt(self.rest_ts(i), d)
        &&& self.inp_done@[i] ==> self.inps@[i]@.len() == 0
    }

    /// The merge invariant in the middle of a round, after the take and
    /// before the events already handed on are dropped from the other slots.
    spec fn mid_law(self) -> bool {
        let p = self.produced();
        &&& increasing(p)
        &&& p.len() > 0
        &&& self.dim0ix_max == p.last()
        &&& !self.done_inp
        &&& forall|i: int| 0 <= i < self.inps@.len() ==> #[trigger] self.mid_input(i)
        &&& forall|t: u64| #[trigger] self.orig_set@.contains(t) <==> self.in_state(t)
    }

    proof fn lemma_after_take(
        self,
        s1: Self,
        il0: int,
        bt: Seq<u64>,
        k: int,
        upto: u64,
        partial: bool,
        lo1: Option<Low>,
    )
        requires
            s1.shape(),
            s1.ordered@,
            s1.law_core(),
            !s1.done_inp,
            forall|j: int| 0 <= j < s1.items@.len() ==> s1.items@[j] is Some || s1.inp_done@[j],
            forall|j: int| 0 <= j < s1.items@.len() && s1.items@[j] is Some ==> s1.slot_ts(j).len() > 0,
            0 <= il0 < s1.items@.len(),
            s1.items@[il0] is Some,
            s1.slot_ts(il0) == bt,
            bt.len() > 0,
            forall|j: int| 0 <= j < s1.items@.len() && s1.items@[j] is Some ==> bt[0] <= s1.slot_ts(j)[0],
            forall|j: int|
                0 <= j < s1.items@.len() && s1.items@[j] is Some && j != il0 ==> lo1 is Some
                    && lo1->0.ts <= s1.slot_ts(j)[0],
            lo1 is Some ==> bt[0] <= lo1->0.ts,
            partial == (lo1 is Some && bt.last() > lo1->0.ts),
            upto == (if partial { lo1->0.ts } else { u64::MAX }),
            k == prefix_le(bt, upto),
            1 <= k <= bt.len(),
            partial ==> k < bt.len(),
            !partial ==> k == bt.len(),
            self.shape(),
            self.inps == s1.inps,
            self.inp_done == s1.inp_done,
            self.done_inp == s1.done_inp,
            self.outbuf == s1.outbuf,
            self.emitted == s1.emitted,
            self.orig_set == s1.orig_set,
            self.ordered == s1.ordered,
            opt_ts(self.out) == opt_ts(s1.out) + bt.subrange(0, k),
            self.dim0ix_max == bt[k - 1],
            forall|j: int| 0 <= j < s1.items@.len() && j != il0 ==> self.items@[j] == s1.items@[j],
            partial ==> self.items@[il0] is Some && self.slot_ts(il0) == bt.subrange(k, bt.len() as int),
            !partial ==> self.items@[il0] is None,
        ensures
            self.mid_law(),
            !(lo1 is Some && lo1->0.ts <= self.dim0ix_max) ==> forall|j: int|
                0 <= j < self.items@.len() ==> all_gt(#[trigger] self.slot_ts(j), self.dim0ix_max),
    {
        let d = self.dim0ix_max;
        let p0 = s1.produced();
        let taken = bt.subrange(0, k);
        assert(s1.per_input(il0));
        lemma_prefix_le(bt, upto);
        assert(self.produced() =~= p0 + taken);
        lemma_increasing_subrange(bt, 0, k);
        if p0.len() > 0 {
            assert(taken[0] == bt[0]);
        }
        lemma_increasing_concat(p0, taken);
        assert(self.produced().last() == d);
        assert forall|j: int| 0 <= j < self.inps@.len() implies #[trigger] self.mid_input(j) by {
            assert(s1.per_input(j));
            assert(self.rest_ts(j) == s1.rest_ts(j));
            if j == il0 {
                assert forall|y: int| 0 <= y < self.rest_ts(j).len() implies self.rest_ts(j)[y] > d by {
                    assert(bt[k - 1] < self.rest_ts(j)[y]);
                }
                if partial {
                    lemma_increasing_subrange(bt, k, bt.len() as int);
                    let rem = self.slot_ts(j);
                    assert forall|x: int, y: int| 0 <= x < rem.len() && 0 <= y < self.rest_ts(j).len() implies rem[x] < self.rest_ts(j)[y] by {
                        assert(rem[x] == bt[x + k]);
                    }
                    assert forall|x: int| 0 <= x < rem.len() implies rem[x] >= d by {
                        assert(rem[x] == bt[x + k]);
                        assert(bt[k - 1] < bt[x + k]);
                    }
                } else {
                    assert(self.slot_ts(j) =~= Seq::<u64>::empty());
                }
            } else {
                assert(self.slot_ts(j) == s1.slot_ts(j));
                if self.items@[j] is Some {
                    let sj = self.slot_ts(j);
                    assert(lo1 is Some && lo1->0.ts <= sj[0]);
                    assert(d <= lo1->0.ts) by {
                        if partial {
                            assert(d <= upto);
                        } else {
                            assert(d == bt.last());
                        }
                    }
                    assert forall|x: int| 0 <= x < sj.len() implies sj[x] >= d by {
                        if x > 0 {
                            assert(sj[0] < sj[x]);
                        }
                    }
                    assert forall|y: int| 0 <= y < self.rest_ts(j).len() implies self.rest_ts(j)[y] > d by {
                        assert(sj[0] < self.rest_ts(j)[y]);
                    }
                } else {
                    assert(s1.inp_done@[j]);
                }
            }
        }
        assert forall|t: u64| #[trigger] self.orig_set@.contains(t) <==> self.in_state(t) by {
            if s1.in_state(t) {
                if p0.contains(t) {
                    let x = choose|x: int| 0 <= x < p0.len() && p0[x] == t;
                    assert(self.produced()[x] == t);
                } else {
                    let j = choose|j: int| 0 <= j < s1.inps@.len() && #[trigger] s1.in_loc(j, t);
                    if j == il0 && s1.slot_ts(j).contains(t) {
                        let x = choose|x: int| 0 <= x < bt.len() && bt[x] == t;
                        if x < k {
                            assert(self.produced()[p0.len() + x] == t);
                        } else {
                            assert(self.slot_ts(j)[x - k] == t);
                            assert(self.in_loc(j, t));
                        }
                    } else {
                        assert(self.in_loc(j, t));
                    }
                }
            }
            if self.in_state(t) {
                if self.produced().contains(t) {
                    let x = choose|x: int| 0 <= x < self.produced().len() && self.produced()[x] == t;
                    if x < p0.len() {
                        assert(p0[x] == t);
                    } else {
                        assert(bt[x - p0.len()] == t);
                        assert(s1.in_loc(il0, t));
                    }
                } else {
                    let j = choose|j: int| 0 <= j < self.inps@.len() && #[trigger] self.in_loc(j, t);
                    if j == il0 && self.slot_ts(j).contains(t) {
                        let x = choose|x: int| 0 <= x < self.slot_ts(j).len() && self.slot_ts(j)[x] == t;
                        assert(bt[x + k] == t);
                        assert(s1.in_loc(j, t));
                    } else {
                        assert(s1.in_loc(j, t));
                    }
                }
            }
        }
        if !(lo1 is Some && lo1->0.ts <= d) {
            assert forall|j: int| 0 <= j < self.items@.len() implies all_gt(#[trigger] self.slot_ts(j), d) by {
                assert(self.mid_input(j));
                if j != il0 && self.items@[j] is Some {
                    let sj = self.slot_ts(j);
                    assert forall|x: int| 0 <= x < sj.len() implies sj[x] > d by {
                        if x > 0 {
                            assert(sj[0] < sj[x]);
                        }
                    }
                } else if j == il0 && partial {
                    let rem = self.slot_ts(j);
                    assert forall|x: int| 0 <= x < rem.len() implies rem[x] > d by {
                        assert(rem[x] == bt[x + k]);
                        if x > 0 {
                            assert(bt[k] < bt[x + k]);
                        }
                    }
                } else {
                    assert(self.slot_ts(j).len() == 0);
                }
            }
        }
    }

    proof fn lemma_discard_step(self, sj: Self, j: int, it: Seq<u64>, is_low: bool)
        requires
            sj.shape(),
            sj.mid_law(),
            0 <= j < sj.items@.len(),
            sj.items@[j] is Some,
            sj.slot_ts(j) == it,
            is_low == (it.len() > 0 && it[0] <= sj.dim0ix_max),
            self.shape(),
            self.inps == sj.inps,
            self.inp_done == sj.inp_done,
            self.done_inp == sj.done_inp,
            self.outbuf == sj.outbuf,
            self.out == sj.out,
            self.emitted == sj.emitted,
            self.orig_set == sj.orig_set,
            self.ordered == sj.ordered,
            self.dim0ix_max == sj.dim0ix_max,
            forall|k: int| 0 <= k < sj.items@.len() && k != j ==> self.items@[k] == sj.items@[k],
            self.items@[j] is Some,
            is_low ==> self.slot_ts(j) == it.subrange(
                prefix_le(it, sj.dim0ix_max) as int,
                it.len() as int,
            ),
            !is_low ==> self.slot_ts(j) == it,
        ensures
            self.mid_law(),
            all_gt(self.slot_ts(j), self.dim0ix_max),
            forall|k: int| 0 <= k < self.items@.len() && k != j ==> self.slot_ts(k) == sj.slot_ts(k),
    {
        let d = self.dim0ix_max;
        let p = self.produced();
        assert(p == sj.produced());
        assert(sj.mid_input(j));
        let m = prefix_le(it, d) as int;
        lemma_prefix_le(it, d);
        let rem = self.slot_ts(j);
        if is_low {
            lemma_increasing_subrange(it, m, it.len() as int);
            assert forall|x: int| 0 <= x < rem.len() implies rem[x] > d by {
                assert(rem[x] == it[x + m]);
                if x > 0 {
                    assert(it[m] < it[x + m]);
                }
            }
        } else {
            assert forall|x: int| 0 <= x < rem.len() implies rem[x] > d by {
                if x > 0 {
                    assert(it[0] < it[x]);
                }
            }
        }
        assert forall|i: int| 0 <= i < self.inps@.len() implies #[trigger] self.mid_input(i) by {
            assert(sj.mid_input(i));
            if i == j {
                assert forall|x: int, y: int| 0 <= x < rem.len() && 0 <= y < self.rest_ts(i).len() implies rem[x] < self.rest_ts(i)[y] by {
                    if is_low {
                        assert(rem[x] == it[x + m]);
                    }
                }
            } else {
                assert(self.slot_ts(i) == sj.slot_ts(i));
            }
        }
        assert forall|t: u64| #[trigger] self.orig_set@.contains(t) <==> self.in_state(t) by {
            if sj.in_state(t) && !p.contains(t) {
                let i = choose|i: int| 0 <= i < sj.inps@.len() && #[trigger] sj.in_loc(i, t);
                if i == j && it.contains(t) && is_low {
                    let x = choose|x: int| 0 <= x < it.len() && it[x] == t;
                    if x < m {
                        assert(it[x] >= d);
                        assert(t == d);
                        assert(p[p.len() - 1] == t);
                    } else {
                        assert(rem[x - m] == t);
                        assert(self.in_loc(i, t));
                    }
                } else if i != j {
                    assert(self.slot_ts(i) == sj.slot_ts(i));
                    assert(self.in_loc(i, t));
                } else {
                    assert(self.in_loc(i, t));
                }
            }
            if self.in_state(t) && !p.contains(t) {
                let i = choose|i: int| 0 <= i < self.inps@.len() && #[trigger] self.in_loc(i, t);
                if i == j && rem.contains(t) && is_low {
                    let x = choose|x: int| 0 <= x < rem.len() && rem[x] == t;
                    assert(it[x + m] == t);
                    assert(sj.in_loc(i, t));
                } else if i != j {
                    assert(self.slot_ts(i) == sj.slot_ts(i));
                    assert(sj.in_loc(i, t));
                } else {
                    assert(sj.in_loc(i, t));
                }
            }
        }
    }

    proof fn lemma_finish_round(self, lo1: Option<Low>, dim: u64)
        requires
            self.shape(),
            self.mid_law(),
            dim == self.dim0ix_max,
            forall|j: int| 0 <= j < self.items@.len() ==> all_gt(#[trigger] self.slot_ts(j), dim),
        ensures
            self.law_core(),
    {
        assert forall|i: int| 0 <= i < self.inps@.len() implies #[trigger] self.per_input(i) by {
            assert(self.mid_input(i));
            assert(all_gt(self.slot_ts(i), dim));
        }
    }

    /// Drop from every slot the events up to `dim`: they were handed on
    /// already from another input.
    fn drop_handed_on(&mut self, dim: u64)
        requires
            old(self).shape(),
            dim == old(self).dim0ix_max,
            old(self).ordered@ ==> old(self).mid_law(),
            old(self).ev_ok(),
        ensures
            final(self).shape(),
            final(self).ev_ok(),
            final(self).inps == old(self).inps,
            final(self).inp_done == old(self).inp_done,
            final(self).range_complete == old(self).range_complete,
            final(self).done_inp == old(self).done_inp,
            final(self).done_range_complete == old(self).done_range_complete,
            final(self).complete == old(self).complete,
            final(self).out_max_len == old(self).out_max_len,
            final(self).outbuf == old(self).outbuf,
            final(self).out == old(self).out,
            final(self).emitted == old(self).emitted,
            final(self).emitted_ev == old(self).emitted_ev,
            final(self).orig_set == old(self).orig_set,
            final(self).orig_ev == old(self).orig_ev,
            final(self).ordered == old(self).ordered,
            final(self).dim0ix_max == dim,
            final(self).ev_weight().len() == old(self).ev_weight().len(),
            forall|k: int|
                0 <= k < old(self).ev_weight().len() ==> final(self).ev_weight()[k] <= old(self).ev_weight()[k],
            final(self).ordered@ ==> final(self).mid_law(),
            final(self).ordered@ ==> forall|k: int|
                0 <= k < final(self).items@.len() ==> all_gt(#[trigger] final(self).slot_ts(k), dim),
    {
        let n = self.items.len();
        let ghost w1 = self.ev_weight();
        let mut j: usize = 0;
        while j < n
            invariant
                j <= n,
                n == self.items@.len(),
                self.shape(),
                self.inps == old(self).inps,
                self.inp_done == old(self).inp_done,
                self.range_complete == old(self).range_complete,
                self.done_inp == old(self).done_inp,
                self.done_range_complete == old(self).done_range_complete,
                self.complete == old(self).complete,
                self.out_max_len == old(self).out_max_len,
                self.outbuf == old(self).outbuf,
                self.out == old(self).out,
                self.emitted == old(self).emitted,
                self.emitted_ev == old(self).emitted_ev,
                self.orig_set == old(self).orig_set,
                self.orig_ev == old(self).orig_ev,
                self.ordered == old(self).ordered,
                self.dim0ix_max == dim,
                w1 == old(self).ev_weight(),
                self.ev_weight().len() == w1.len(),
                forall|k: int| 0 <= k < w1.len() ==> self.ev_weight()[k] <= w1[k],
                self.ordered@ ==> self.mid_law(),
                self.ordered@ ==> forall|k: int|
                    0 <= k < j ==> all_gt(#[trigger] self.slot_ts(k), dim),
                self.ev_ok(),
            decreases n - j,
        {
            let ghost sj = *self;
            let mut slot: Option<ContainerEvents<V>> = None;
            std::mem::swap(&mut slot, &mut self.items[j]);
            match slot {
                Some(mut item) => {
                    let ghost it = item.ts_seq();
                    let is_low = match item.ts_min() {
                        Some(t) => t.ns <= dim,
                        None => false,
                    };
                    if is_low {
                        let k = match item.find_lowest_index_gt(TsNano::from_ns(dim)) {
                            Some(ilgt) => ilgt,
                            None => item.len(),
                        };
                        let _discarded = item.drain_into_new(k);
                        proof {
                            lemma_prefix_le_unique(it, dim, k as int);
                        }
                    }
                    self.items[j] = Some(item);
                    proof {
                        assert forall|jj: int, e: (u64, V)| 0 <= jj < self.inps@.len() && #[trigger] self.ev_in_slot(jj, e) implies sj.ev_in(e) by {
                            if jj == j {
                                if opt_ev(self.items@[jj]).contains(e) {
                                    let x = choose|x: int| 0 <= x < opt_ev(self.items@[jj]).len() && opt_ev(self.items@[jj])[x] == e;
                                    let k0 = opt_ev(sj.items@[jj]).len() - opt_ev(self.items@[jj]).len();
                                    assert(opt_ev(sj.items@[jj])[k0 + x] == e);
                                }
                                assert(sj.ev_in_slot(jj, e));
                            } else {
                                assert(sj.ev_in_slot(jj, e));
                            }
                        }
                        self.lemma_ev_frame(sj);
                        if self.ordered@ {
                            self.lemma_discard_step(sj, j as int, it, is_low);
                            assert forall|k: int| 0 <= k < j + 1 implies all_gt(#[trigger] self.slot_ts(k), dim) by {
                                if k < j {
                                    assert(self.slot_ts(k) == sj.slot_ts(k));
                                }
                            }
                        }
                    }
                },
                None => {
                    proof {
                        assert(self.items@ =~= sj.items@);
                        assert forall|jj: int, e: (u64, V)| 0 <= jj < self.inps@.len() && #[trigger] self.ev_in_slot(jj, e) implies sj.ev_in(e) by {
                            assert(sj.ev_in_slot(jj, e));
                        }
                        self.lemma_ev_frame(sj);
                        assert forall|k: int| 0 <= k < self.items@.len() implies self.slot_ts(k) == sj.slot_ts(k) by {
                        }
                        if self.ordered@ {
                            assert(self.produced() == sj.produced());
                            assert forall|k: int| 0 <= k < self.inps@.len() implies #[trigger] self.mid_input(k) by {
                                assert(sj.mid_input(k));
                            }
                            assert forall|k: int, t: u64| 0 <= k < self.inps@.len() implies self.in_loc(k, t) == sj.in_loc(k, t) by {
                            }
                            Self::lemma_state_same(*self, sj);
                            assert(self.mid_law());
                            assert(self.slot_ts(j as int).len() == 0);
                            assert forall|k: int| 0 <= k < j + 1 implies all_gt(#[trigger] self.slot_ts(k), dim) by {
                                assert(self.slot_ts(k) == sj.slot_ts(k));
                            }
                        }
                    }
                },
            }
            j = j + 1;
        }
    }

    /// One merge round over the current input batches: move the events which
    /// are known to come first into the pending output.
    fn process(&mut self) -> (r: Result<(), MergerError>)
        requires
            old(self).wf(),
            !old(self).done_inp,
            forall|i: int|
                0 <= i < old(self).items@.len() ==> old(self).items@[i] is Some
                    || old(self).inp_done@[i],
        ensures
            final(self).wf(),
            final(self).inps == old(self).inps,
            final(self).inp_done == old(self).inp_done,
            final(self).range_complete == old(self).range_complete,
            final(self).done_inp == old(self).done_inp,
            final(self).done_range_complete == old(self).done_range_complete,
            final(self).complete == old(self).complete,
            final(self).out_max_len == old(self).out_max_len,
            final(self).outbuf == old(self).outbuf,
            final(self).emitted == old(self).emitted,
            final(self).emitted_ev == old(self).emitted_ev,
            final(self).orig_set == old(self).orig_set,
            final(self).orig_ev == old(self).orig_ev,
            final(self).ordered == old(self).ordered,
            sum(final(self).ev_weight()) <= sum(old(self).ev_weight()),
            (exists|i: int| 0 <= i < old(self).items@.len() && old(self).items@[i] is Some) ==> r is Ok
                && sum(final(self).ev_weight()) < sum(old(self).ev_weight()),
    {
        let ghost s0 = *self;
        let n = self.items.len();
        let mut lo0: Option<Low> = None;
        let mut lo1: Option<Low> = None;
        let mut i: usize = 0;
        while i < n
            invariant
                i <= n,
                n == self.items@.len(),
                self.shape(),
                *self == s0,
                s0 == *old(self),
                s0.wf(),
                lo0 matches Some(p) ==> p.ix < i && self.items@[p.ix as int] is Some
                    && self.slot_ts(p.ix as int).len() > 0 && p.ts == self.slot_ts(p.ix as int)[0],
                lo1 matches Some(q) ==> q.ix < i && self.items@[q.ix as int] is Some
                    && self.slot_ts(q.ix as int).len() > 0 && q.ts == self.slot_ts(q.ix as int)[0]
                    && lo0 is Some && lo0->0.ix != q.ix && lo0->0.ts <= q.ts,
                lo0 is None ==> forall|j: int| 0 <= j < i ==> self.items@[j] is None,
                forall|j: int| 0 <= j < i && self.items@[j] is Some ==> self.slot_ts(j).len() > 0,
                forall|j: int|
                    0 <= j < i && self.items@[j] is Some ==> lo0 is Some && lo0->0.ts
                        <= self.slot_ts(j)[0],
                forall|j: int|
                    0 <= j < i && self.items@[j] is Some && j != lo0->0.ix ==> lo1 is Some
                        && lo1->0.ts <= self.slot_ts(j)[0],
            decreases n - i,
        {
            let tmin: Option<Option<TsNano>> = match &self.items[i] {
                Some(item) => Some(item.ts_min()),
                None => None,
            };
            match tmin {
                Some(Some(t)) => {
                    let t1 = t.ns;
                    match lo0 {
                        Some(p) => {
                            if t1 < p.ts {
                                lo1 = lo0;
                                lo0 = Some(Low { ix: i, ts: t1 });
                            } else {
                                match lo1 {
                                    Some(q) => {
                                        if t1 < q.ts {
                                            lo1 = Some(Low { ix: i, ts: t1 });
                                        }
                                    },
                                    None => {
                                        lo1 = Some(Low { ix: i, ts: t1 });
                                    },
                                }
                            }
                        },
                        None => {
                            lo0 = Some(Low { ix: i, ts: t1 });
                        },
                    }
                },
                Some(None) => {
                    let ghost w0 = self.ev_weight();
                    self.items[i] = None;
                    proof {
                        assert forall|jj: int, e: (u64, V)| 0 <= jj < self.inps@.len() && #[trigger] self.ev_in_slot(jj, e) implies s0.ev_in(e) by {
                            assert(s0.ev_in_slot(jj, e));
                        }
                        self.lemma_ev_frame(s0);
                        let w1 = self.ev_weight();
                        assert(w1[i as int] < w0[i as int]);
                        lemma_sum_pointwise(w1, w0);
                        assert(self.slot_ts(i as int) =~= s0.slot_ts(i as int));
                        assert(self.produced() == s0.produced());
                        if self.ordered@ {
                            assert forall|j: int| 0 <= j < self.inps@.len() implies #[trigger] self.per_input(j) by {
                                assert(s0.per_input(j));
                                assert(self.slot_ts(j) == s0.slot_ts(j));
                            }
                            assert forall|j: int, t: u64| 0 <= j < self.inps@.len() implies self.in_loc(j, t) == s0.in_loc(j, t) by {
                                assert(self.slot_ts(j) == s0.slot_ts(j));
                            }
                            Self::lemma_state_same(*self, s0);
                        }
                    }
                    return Ok(());
                },
                None => {},
            }
            i = i + 1;
        }
        if let Some(p) = lo0 {
            if p.ts <= self.dim0ix_max {
                self.dim0ix_max = p.ts;
            }
        }
        proof {
            if self.ordered@ && lo0 is Some {
                assert(s0.per_input(lo0->0.ix as int));
                assert(self.dim0ix_max == s0.dim0ix_max);
            }
        }
        let ghost s1 = *self;
        proof {
            assert forall|jj: int, e: (u64, V)| 0 <= jj < self.inps@.len() && #[trigger] self.ev_in_slot(jj, e) implies s0.ev_in(e) by {
                assert(s0.ev_in_slot(jj, e));
            }
            self.lemma_ev_frame(s0);
        }
        let ghost w0 = self.ev_weight();
        let ret: Result<(), MergerError> = match lo0 {
            Some(p) => {
                let il0 = p.ix;
                let mut slot: Option<ContainerEvents<V>> = None;
                std::mem::swap(&mut slot, &mut self.items[il0]);
                match slot {
                    Some(mut item) => {
                        let ghost bt = item.ts_seq();
                        let ghost be = item.ev_seq();
                        let th = item.ts_max();
                        match th {
                            Some(th0) => {
                                let partial = match lo1 {
                                    Some(q) => th0.ns > q.ts,
                                    None => false,
                                };
                                let upto = match lo1 {
                                    Some(q) => if partial { q.ts } else { u64::MAX },
                                    None => u64::MAX,
                                };
                                self.take_into_output_upto(&mut item, upto);
                                let ghost k = prefix_le(bt, upto) as int;
                                proof {
                                    lemma_prefix_le(bt, upto);
                                    assert(bt[0] == p.ts);
                                    assert(k >= 1);
                                    if partial {
                                        assert(bt[bt.len() - 1] > upto);
                                        assert(k < bt.len());
                                    } else {
                                        assert(k == bt.len());
                                    }
                                }
                                if partial && item.len() == 0 {
                                    proof {
                                        self.lemma_ev_after_take(s1, il0 as int, be, k);
                                    }
                                    Err(MergerError::PartialPathDrainedAllItems)
                                } else {
                                    if partial {
                                        self.items[il0] = Some(item);
                                    }
                                    self.note_dim0ix_max();
                                    proof {
                                        self.lemma_ev_after_take(s1, il0 as int, be, k);
                                        if self.ordered@ {
                                            self.lemma_after_take(s1, il0 as int, bt, k, upto, partial, lo1);
                                        }
                                    }
                                    Ok(())
                                }
                            },
                            None => {
                                self.items[il0] = Some(item);
                                proof {
                                    assert(be.subrange(0, 0) =~= Seq::<(u64, V)>::empty());
                                    assert(opt_ev(self.out) =~= opt_ev(s1.out) + be.subrange(0, 0));
                                    assert(be.subrange(0, be.len() as int) =~= be);
                                    self.lemma_ev_after_take(s1, il0 as int, be, 0);
                                }
                                Err(MergerError::ItemShouldHaveTsMax)
                            },
                        }
                    },
                    None => {
                        proof {
                            assert(self.items@ =~= s1.items@);
                            assert forall|jj: int, e: (u64, V)| 0 <= jj < self.inps@.len() && #[trigger] self.ev_in_slot(jj, e) implies s1.ev_in(e) by {
                                assert(s1.ev_in_slot(jj, e));
                            }
                            self.lemma_ev_frame(s1);
                        }
                        Err(MergerError::Logic)
                    },
                }
            },
            None => Err(MergerError::ShouldFindTsMin),
        };
        let ghost w1 = self.ev_weight();
        proof {
            assert(w1.len() == w0.len());
            assert forall|j: int| 0 <= j < w1.len() implies w1[j] <= w0[j] by {
                if lo0 is Some && j == lo0->0.ix {
                } else {
                }
            }
            if ret is Ok {
                let il0 = lo0->0.ix as int;
                assert(w1[il0] < w0[il0]);
            }
            lemma_sum_pointwise(w1, w0);
        }
        let dim = self.dim0ix_max;
        if let Some(q) = lo1 {
            if q.ts <= dim {
                self.drop_handed_on(dim);
                proof {
                    lemma_sum_pointwise(self.ev_weight(), w1);
                }
            }
        }
        proof {
            if ret is Ok && self.ordered@ {
                self.lemma_finish_round(lo1, dim);
            }
        }
        ret
    }
}

impl<V> Merger<V> {
    /// The law after a batch of input `i` moved into the empty slot `i`.
    proof fn lemma_refill_data(self, before: Self, i: int, b: ContainerEvents<V>)
        requires
            before.shape(),
            before.ordered@,
            before.law_core(),
            !before.done_inp,
            0 <= i < before.inps@.len(),
            before.items@[i] is None,
            before.inps@[i]@.len() > 0,
            before.inps@[i]@[0] == InputItem::Data(b),
            self.shape(),
            self.inps@.len() == before.inps@.len(),
            forall|j: int| 0 <= j < before.inps@.len() && j != i ==> self.inps@[j] == before.inps@[j],
            self.inps@[i]@ == before.inps@[i]@.subrange(1, before.inps@[i]@.len() as int),
            self.items@ == before.items@.update(i, Some(b)),
            self.inp_done == before.inp_done,
            self.out == before.out,
            self.outbuf == before.outbuf,
            self.emitted == before.emitted,
            self.orig_set == before.orig_set,
            self.ordered == before.ordered,
            self.dim0ix_max == before.dim0ix_max,
            self.done_inp == before.done_inp,
        ensures
            self.law_core(),
    {
        let q = before.inps@[i]@;
        assert(before.per_input(i));
        assert(before.rest_ts(i) == b.ts_seq() + self.rest_ts(i));
        lemma_increasing_split(b.ts_seq(), self.rest_ts(i));
        assert(self.produced() == before.produced());
        assert forall|j: int| 0 <= j < self.inps@.len() implies #[trigger] self.per_input(j) by {
            assert(before.per_input(j));
            if j == i {
                assert(self.slot_ts(j) == b.ts_seq());
                assert forall|k: int| 0 <= k < self.inps@[j]@.len() implies !(#[trigger] self.inps@[j]@[k] is Error) by {
                    assert(self.inps@[j]@[k] == q[k + 1]);
                }
                if self.produced().len() > 0 {
                    let c = before.rest_ts(i);
                    assert forall|x: int| 0 <= x < b.ts_seq().len() implies b.ts_seq()[x] > self.dim0ix_max by {
                        assert(c[x] == b.ts_seq()[x]);
                    }
                    assert forall|x: int| 0 <= x < self.rest_ts(j).len() implies self.rest_ts(j)[x] > self.dim0ix_max by {
                        assert(c[x + b.ts_seq().len()] == self.rest_ts(j)[x]);
                    }
                }
            } else {
                assert(self.slot_ts(j) == before.slot_ts(j));
                assert(self.rest_ts(j) == before.rest_ts(j));
            }
        }
        assert forall|j: int, t: u64| 0 <= j < self.inps@.len() implies self.in_loc(j, t) == before.in_loc(j, t) by {
            if j == i {
                let bs = b.ts_seq();
                let c = before.rest_ts(i);
                let rs = self.rest_ts(i);
                assert(before.slot_ts(j) =~= Seq::<u64>::empty());
                if c.contains(t) {
                    let x = choose|x: int| 0 <= x < c.len() && c[x] == t;
                    if x < bs.len() {
                        assert(bs[x] == t);
                    } else {
                        assert(rs[x - bs.len()] == t);
                    }
                }
                if bs.contains(t) {
                    let x = choose|x: int| 0 <= x < bs.len() && bs[x] == t;
                    assert(c[x] == t);
                }
                if rs.contains(t) {
                    let x = choose|x: int| 0 <= x < rs.len() && rs[x] == t;
                    assert(c[x + bs.len()] == t);
                }
            } else {
                assert(self.slot_ts(j) == before.slot_ts(j));
                assert(self.rest_ts(j) == before.rest_ts(j));
            }
        }
        Self::lemma_state_same(self, before);
    }

    /// The law after an item without events was taken from input `i`.
    proof fn lemma_refill_skip(self, before: Self, i: int)
        requires
            before.shape(),
            before.ordered@,
            before.law_core(),
            !before.done_inp,
            0 <= i < before.inps@.len(),
            before.inps@[i]@.len() > 0,
            item_ts(before.inps@[i]@[0]) == Seq::<u64>::empty(),
            self.shape(),
            self.inps@.len() == before.inps@.len(),
            forall|j: int| 0 <= j < before.inps@.len() && j != i ==> self.inps@[j] == before.inps@[j],
            self.inps@[i]@ == before.inps@[i]@.subrange(1, before.inps@[i]@.len() as int),
            self.items == before.items,
            self.inp_done == before.inp_done,
            self.out == before.out,
            out_ts(self.outbuf@) == out_ts(before.outbuf@),
            self.emitted == before.emitted,
            self.orig_set == before.orig_set,
            self.ordered == before.ordered,
            self.dim0ix_max == before.dim0ix_max,
            self.done_inp == before.done_inp,
        ensures
            self.law_core(),
    {
        let q = before.inps@[i]@;
        assert(before.per_input(i));
        assert(before.rest_ts(i) =~= self.rest_ts(i));
        assert(self.produced() == before.produced());
        assert forall|j: int| 0 <= j < self.inps@.len() implies #[trigger] self.per_input(j) by {
            assert(before.per_input(j));
            assert(self.slot_ts(j) == before.slot_ts(j));
            if j == i {
                assert forall|k: int| 0 <= k < self.inps@[j]@.len() implies !(#[trigger] self.inps@[j]@[k] is Error) by {
                    assert(self.inps@[j]@[k] == q[k + 1]);
                }
            } else {
                assert(self.rest_ts(j) == before.rest_ts(j));
            }
        }
        assert forall|j: int, t: u64| 0 <= j < self.inps@.len() implies self.in_loc(j, t) == before.in_loc(j, t) by {
            assert(self.slot_ts(j) == before.slot_ts(j));
            if j != i {
                assert(self.rest_ts(j) == before.rest_ts(j));
            }
        }
        Self::lemma_state_same(self, before);
    }

    /// The law after input `i` was found at its end.
    proof fn lemma_refill_end(self, before: Self, i: int)
        requires
            before.shape(),
            before.ordered@,
            before.law_core(),
            0 <= i < before.inps@.len(),
            before.inps@[i]@.len() == 0,
            self.shape(),
            self.inps@.len() == before.inps@.len(),
            forall|j: int| 0 <= j < before.inps@.len() ==> self.inps@[j]@ == before.inps@[j]@,
            self.items == before.items,
            self.inp_done@ == before.inp_done@.update(i, true),
            self.out == before.out,
            self.outbuf == before.outbuf,
            self.emitted == before.emitted,
            self.orig_set == before.orig_set,
            self.ordered == before.ordered,
            self.dim0ix_max == before.dim0ix_max,
            self.done_inp == before.done_inp,
        ensures
            self.law_core(),
    {
        assert(self.produced() == before.produced());
        assert forall|j: int| 0 <= j < self.inps@.len() implies #[trigger] self.per_input(j) by {
            assert(before.per_input(j));
            assert(self.rest_ts(j) == before.rest_ts(j));
            assert(self.slot_ts(j) == before.slot_ts(j));
        }
        assert forall|j: int, t: u64| 0 <= j < self.inps@.len() implies self.in_loc(j, t) == before.in_loc(j, t) by {
            assert(self.rest_ts(j) == before.rest_ts(j));
            assert(self.slot_ts(j) == before.slot_ts(j));
        }
        Self::lemma_state_same(self, before);
    }

    /// Fill every empty slot from its input, up to the next data batch.
    fn refill(&mut self) -> (r: Result<(), MergerError>)
        requires
            old(self).wf(),
            !old(self).done_inp,
        ensures
            final(self).wf(),
            final(self).out == old(self).out,
            final(self).dim0ix_max == old(self).dim0ix_max,
            final(self).done_inp == old(self).done_inp,
            final(self).done_range_complete == old(self).done_range_complete,
            final(self).complete == old(self).complete,
            final(self).out_max_len == old(self).out_max_len,
            final(self).emitted == old(self).emitted,
            final(self).emitted_ev == old(self).emitted_ev,
            final(self).orig_set == old(self).orig_set,
            final(self).orig_ev == old(self).orig_ev,
            final(self).ordered == old(self).ordered,
            sum(final(self).rem_seq()) < sum(old(self).rem_seq()) || (final(self).rem_seq()
                == old(self).rem_seq() && final(self).items == old(self).items),
            r is Ok ==> forall|i: int|
                0 <= i < final(self).items@.len() ==> final(self).items@[i] is Some
                    || final(self).inp_done@[i],
            old(self).ordered@ ==> r is Ok,
            old(self).exhausted() ==> final(self).exhausted(),
    {
        let n = self.inps.len();
        let ghost r0 = self.rem_seq();
        let mut i: usize = 0;
        while i < n
            invariant
                i <= n,
                n == self.inps@.len(),
                self.wf(),
                r0 == old(self).rem_seq(),
                old(self).exhausted() ==> self.exhausted(),
                self.out == old(self).out,
                self.dim0ix_max == old(self).dim0ix_max,
                self.done_inp == old(self).done_inp,
                !self.done_inp,
                self.done_range_complete == old(self).done_range_complete,
                self.complete == old(self).complete,
                self.out_max_len == old(self).out_max_len,
                self.emitted == old(self).emitted,
                self.emitted_ev == old(self).emitted_ev,
                self.orig_set == old(self).orig_set,
                self.orig_ev == old(self).orig_ev,
                self.ordered == old(self).ordered,
                self.rem_seq().len() == r0.len(),
                forall|j: int| 0 <= j < r0.len() ==> self.rem_seq()[j] <= r0[j],
                sum(self.rem_seq()) < sum(r0) || (self.rem_seq() == r0 && self.items
                    == old(self).items),
                forall|j: int| 0 <= j < i ==> self.items@[j] is Some || self.inp_done@[j],
            decreases n - i,
        {
            if self.items[i].is_none() {
                let mut filled = false;
                while !filled && !self.inp_done[i]
                    invariant
                        i < n,
                        n == self.inps@.len(),
                        self.wf(),
                        r0 == old(self).rem_seq(),
                        old(self).exhausted() ==> self.exhausted(),
                        self.out == old(self).out,
                        self.dim0ix_max == old(self).dim0ix_max,
                        self.done_inp == old(self).done_inp,
                        !self.done_inp,
                        self.done_range_complete == old(self).done_range_complete,
                        self.complete == old(self).complete,
                        self.out_max_len == old(self).out_max_len,
                        self.emitted == old(self).emitted,
                        self.emitted_ev == old(self).emitted_ev,
                        self.orig_set == old(self).orig_set,
                        self.orig_ev == old(self).orig_ev,
                        self.ordered == old(self).ordered,
                        self.rem_seq().len() == r0.len(),
                        forall|j: int| 0 <= j < r0.len() ==> self.rem_seq()[j] <= r0[j],
                        sum(self.rem_seq()) < sum(r0) || (self.rem_seq() == r0 && self.items
                            == old(self).items),
                        forall|j: int| 0 <= j < i ==> self.items@[j] is Some || self.inp_done@[j],
                        filled ==> self.items@[i as int] is Some,
                        !filled ==> self.items@[i as int] is None,
                    decreases (if self.inp_done@[i as int] { 0nat } else { self.inps@[i as int]@.len() + 1 }),
                {
                    let ghost rs = self.rem_seq();
                    let ghost before = *self;
                    match self.inps[i].pop_front() {
                        Some(InputItem::Data(k)) => {
                            if !k.is_monotonic() {
                                proof {
                                    self.lemma_ev_pop_input(before, i as int);
                                    self.lemma_rem_step(rs, i as int, r0);
                                    if before.ordered@ {
                                        assert(before.per_input(i as int));
                                        assert(before.rest_ts(i as int) == k.ts_seq() + self.rest_ts(i as int));
                                        lemma_increasing_split(k.ts_seq(), self.rest_ts(i as int));
                                        assert(false);
                                    }
                                }
                                return Err(MergerError::InputNotMonotonic);
                            }
                            let ghost kk = k;
                            self.items[i] = Some(k);
                            filled = true;
                            proof {
                                self.lemma_ev_pop_input(before, i as int);
                                if self.ordered@ {
                                    self.lemma_refill_data(before, i as int, kk);
                                }
                            }
                        },
                        Some(InputItem::RangeComplete) => {
                            self.range_complete[i] = true;
                            proof {
                                self.lemma_ev_pop_input(before, i as int);
                                if self.ordered@ {
                                    self.lemma_refill_skip(before, i as int);
                                }
                            }
                        },
                        Some(InputItem::Log(x)) => {
                            let ghost it = MergerItem::<V>::Log(x);
                            self.outbuf.push_back(MergerItem::Log(x));
                            proof {
                                lemma_out_ts_push(before.outbuf@, it);
                                assert(out_ts(self.outbuf@) =~= out_ts(before.outbuf@));
                                lemma_out_ev_push(before.outbuf@, it);
                                assert(out_ev(self.outbuf@) =~= out_ev(before.outbuf@));
                                self.lemma_ev_pop_input(before, i as int);
                                if self.ordered@ {
                                    self.lemma_refill_skip(before, i as int);
                                }
                            }
                        },
                        Some(InputItem::Stats(x)) => {
                            let ghost it = MergerItem::<V>::Stats(x);
                            self.outbuf.push_back(MergerItem::Stats(x));
                            proof {
                                lemma_out_ts_push(before.outbuf@, it);
                                assert(out_ts(self.outbuf@) =~= out_ts(before.outbuf@));
                                lemma_out_ev_push(before.outbuf@, it);
                                assert(out_ev(self.outbuf@) =~= out_ev(before.outbuf@));
                                self.lemma_ev_pop_input(before, i as int);
                                if self.ordered@ {
                                    self.lemma_refill_skip(before, i as int);
                                }
                            }
                        },
                        Some(InputItem::Error(e)) => {
                            self.inp_done[i] = true;
                            proof {
                                self.lemma_ev_pop_input(before, i as int);
                                self.lemma_rem_step(rs, i as int, r0);
                                if before.ordered@ {
                                    assert(before.per_input(i as int));
                                    assert(before.inps@[i as int]@[0] is Error);
                                    assert(false);
                                }
                            }
                            return Err(MergerError::Input(e));
                        },
                        None => {
                            self.inp_done[i] = true;
                            proof {
                                assert(self.items@ =~= before.items@);
                                assert forall|jj: int, e: (u64, V)| 0 <= jj < self.inps@.len() && #[trigger] self.ev_in_slot(jj, e) implies before.ev_in(e) by {
                                    assert(before.ev_in_slot(jj, e));
                                }
                                self.lemma_ev_frame(before);
                                assert(self.rem_seq() =~= rs);
                                if self.ordered@ {
                                    self.lemma_refill_end(before, i as int);
                                }
                            }
                        },
                    }
                    proof {
                        if filled || self.inp_done@[i as int] == false {
                            self.lemma_rem_step(rs, i as int, r0);
                        }
                    }
                }
            }
            i = i + 1;
        }
        Ok(())
    }

    proof fn lemma_rem_step(self, before: Seq<nat>, i: int, r0: Seq<nat>)
        requires
            before.len() == r0.len(),
            self.rem_seq().len() == r0.len(),
            0 <= i < r0.len(),
            forall|j: int| 0 <= j < r0.len() ==> before[j] <= r0[j],
            forall|j: int| 0 <= j < r0.len() && j != i ==> self.rem_seq()[j] == before[j],
            self.rem_seq()[i] < before[i],
        ensures
            forall|j: int| 0 <= j < r0.len() ==> self.rem_seq()[j] <= r0[j],
            sum(self.rem_seq()) < sum(r0),
    {
        lemma_sum_pointwise(self.rem_seq(), r0);
    }
}

impl<V> Merger<V> {
    proof fn lemma_produced_same(self, before: Self)
        requires
            before.shape(),
            before.ordered@,
            before.law_core(),
            before.done_inp ==> self.out == before.out,
            self.shape(),
            self.produced() == before.produced(),
            self.inps == before.inps,
            self.items == before.items,
            self.inp_done == before.inp_done,
            self.orig_set == before.orig_set,
            self.ordered == before.ordered,
            self.dim0ix_max == before.dim0ix_max,
            self.done_inp == before.done_inp,
        ensures
            self.law_core(),
    {
        assert forall|j: int| 0 <= j < self.inps@.len() implies #[trigger] self.per_input(j) by {
            assert(before.per_input(j));
        }
        assert forall|j: int, t: u64| 0 <= j < self.inps@.len() implies self.in_loc(j, t) == before.in_loc(j, t) by {
        }
        Self::lemma_state_same(self, before);
    }

    /// After a refill: merge one round and decide whether the pending output
    /// is handed on.
    fn poll3(&mut self) -> (r: Flow)
        requires
            old(self).wf(),
            !old(self).done_inp,
            forall|i: int|
                0 <= i < old(self).items@.len() ==> old(self).items@[i] is Some
                    || old(self).inp_done@[i],
        ensures
            final(self).wf(),
            final(self).inps == old(self).inps,
            final(self).inp_done == old(self).inp_done,
            final(self).done_inp == old(self).done_inp,
            final(self).done_range_complete == old(self).done_range_complete,
            final(self).complete == old(self).complete,
            final(self).out_max_len == old(self).out_max_len,
            final(self).emitted == old(self).emitted,
            final(self).emitted_ev == old(self).emitted_ev,
            final(self).orig_set == old(self).orig_set,
            final(self).orig_ev == old(self).orig_ev,
            final(self).ordered == old(self).ordered,
            r is Continue ==> sum(final(self).ev_weight()) < sum(old(self).ev_weight()) || (
            final(self).ev_weight() == old(self).ev_weight() && final(self).out_weight()
                < old(self).out_weight()),
            r is ErrBreak ==> !old(self).ordered@,
            r is DoneBreak ==> final(self).out is None,
            r is DoneBreak ==> forall|i: int|
                0 <= i < final(self).items@.len() ==> #[trigger] final(self).items@[i] is None,
            r is DoneBreak ==> forall|i: int|
                0 <= i < final(self).items@.len() ==> #[trigger] final(self).inp_done@[i],
            old(self).exhausted() ==> final(self).exhausted(),
    {
        let n = self.items.len();
        let mut nitems: usize = 0;
        let mut nitemsmissing: usize = 0;
        let mut i: usize = 0;
        while i < n
            invariant
                i <= n,
                n == self.items@.len(),
                self.shape(),
                *self == *old(self),
                nitems <= i,
                nitemsmissing <= i,
                nitems == 0 <==> forall|j: int| 0 <= j < i ==> self.items@[j] is None,
                nitemsmissing == 0 <==> forall|j: int|
                    0 <= j < i ==> self.items@[j] is Some || self.inp_done@[j],
            decreases n - i,
        {
            if self.items[i].is_some() {
                nitems = nitems + 1;
            } else if !self.inp_done[i] {
                nitemsmissing = nitemsmissing + 1;
            }
            i = i + 1;
        }
        if nitemsmissing != 0 {
            return Flow::ErrBreak(MergerError::NoPendingButMissing);
        }
        let last_emit = nitems == 0;
        let ghost w0 = self.ev_weight();
        if nitems != 0 {
            match self.process() {
                Ok(()) => {},
                Err(e) => {
                    return Flow::ErrBreak(e);
                },
            }
        } else {
            proof {
                assert(self.ev_weight() =~= w0);
            }
        }
        let emit = match self.out.as_ref() {
            Some(out) => out.len() >= self.out_max_len || last_emit,
            None => false,
        };
        if emit {
            let ghost before = *self;
            if let Some(out) = self.out.take() {
                let ghost it = MergerItem::Data(out);
                self.outbuf.push_back(MergerItem::Data(out));
                proof {
                    lemma_out_ev_push(before.outbuf@, it);
                    assert forall|e: (u64, V)| #[trigger] out_ev(self.outbuf@).contains(e) implies before.ev_in(e) by {
                        let x = choose|x: int| 0 <= x < out_ev(self.outbuf@).len() && out_ev(self.outbuf@)[x] == e;
                        if x < out_ev(before.outbuf@).len() {
                            assert(out_ev(before.outbuf@)[x] == e);
                        } else {
                            assert(opt_ev(before.out)[x - out_ev(before.outbuf@).len()] == e);
                        }
                    }
                    assert forall|jj: int, e: (u64, V)| 0 <= jj < self.inps@.len() && #[trigger] self.ev_in_slot(jj, e) implies before.ev_in(e) by {
                        assert(before.ev_in_slot(jj, e));
                    }
                    self.lemma_ev_frame(before);
                    lemma_out_ts_push(before.outbuf@, it);
                    assert(self.produced() =~= before.produced());
                    if self.ordered@ {
                        self.lemma_produced_same(before);
                    }
                }
            }
            Flow::Continue
        } else if self.out.is_some() {
            Flow::Continue
        } else if last_emit {
            Flow::DoneBreak
        } else {
            Flow::Continue
        }
    }

    fn poll2(&mut self) -> (r: Flow)
        requires
            old(self).wf(),
            !old(self).done_inp,
        ensures
            final(self).wf(),
            final(self).done_inp == old(self).done_inp,
            final(self).done_range_complete == old(self).done_range_complete,
            final(self).complete == old(self).complete,
            final(self).emitted == old(self).emitted,
            final(self).emitted_ev == old(self).emitted_ev,
            final(self).orig_set == old(self).orig_set,
            final(self).orig_ev == old(self).orig_ev,
            final(self).ordered == old(self).ordered,
            r is Continue ==> sum(final(self).rem_seq()) < sum(old(self).rem_seq()) || (
            final(self).rem_seq() == old(self).rem_seq() && (sum(final(self).ev_weight()) < sum(
                old(self).ev_weight()) || (final(self).ev_weight() == old(self).ev_weight()
                && final(self).out_weight() < old(self).out_weight()))),
            r is ErrBreak ==> !old(self).ordered@,
            r is DoneBreak ==> final(self).out is None,
            r is DoneBreak ==> forall|i: int|
                0 <= i < final(self).items@.len() ==> #[trigger] final(self).items@[i] is None,
            r is DoneBreak ==> forall|i: int|
                0 <= i < final(self).items@.len() ==> #[trigger] final(self).inp_done@[i],
            old(self).exhausted() ==> final(self).exhausted(),
            final(self).out_max_len == old(self).out_max_len,
    {
        match self.refill() {
            Err(e) => Flow::ErrBreak(e),
            Ok(()) => {
                let ghost mid = *self;
                let r = self.poll3();
                proof {
                    assert(self.rem_seq() =~= mid.rem_seq());

                }
                r
            },
        }
    }

    /// Whether every input reported that its range is complete.
    fn all_range_complete(&self) -> (r: bool)
        ensures
            r == (forall|j: int| 0 <= j < self.range_complete@.len() ==> #[trigger] self.range_complete@[j]),
    {
        let n = self.range_complete.len();
        let mut i: usize = 0;
        while i < n
            invariant
                i <= n,
                n == self.range_complete@.len(),
                forall|j: int| 0 <= j < i ==> #[trigger] self.range_complete@[j],
            decreases n - i,
        {
            if !self.range_complete[i] {
                return false;
            }
            i = i + 1;
        }
        true
    }

    proof fn lemma_set_done(self, before: Self)
        requires
            before.shape(),
            before.ordered@,
            before.law_core(),
            forall|i: int| 0 <= i < before.items@.len() ==> #[trigger] before.items@[i] is None,
            forall|i: int| 0 <= i < before.items@.len() ==> #[trigger] before.inp_done@[i],
            before.out is None,
            self.shape(),
            self.done_inp,
            self.produced() == before.produced(),
            self.inps == before.inps,
            self.items == before.items,
            self.inp_done == before.inp_done,
            self.out == before.out,
            self.orig_set == before.orig_set,
            self.ordered == before.ordered,
            self.dim0ix_max == before.dim0ix_max,
        ensures
            self.law_core(),
    {
        assert forall|j: int| 0 <= j < self.inps@.len() implies #[trigger] self.per_input(j) by {
            assert(before.per_input(j));
        }
        assert forall|j: int| 0 <= j < self.inps@.len() implies self.items@[j] is None && self.inps@[j]@.len() == 0 by {
            assert(before.per_input(j));
            assert(before.inp_done@[j]);
        }
        assert forall|j: int, t: u64| 0 <= j < self.inps@.len() implies self.in_loc(j, t) == before.in_loc(j, t) by {
        }
        Self::lemma_state_same(self, before);
    }

    /// The next item of the merged output; `None` once the output has ended.
    /// When every input has ended, a range-complete marker is queued if
    /// every input reported one, but the output ends before the queue is
    /// served, so the marker is never handed out.
    pub fn next(&mut self) -> (r: Option<MergerItem<V>>)
        requires
            old(self).wf(),
            !old(self).is_complete(),
        ensures
            final(self).wf(),
            r is None <==> final(self).is_complete(),
            final(self).emitted() == old(self).emitted() + match r {
                Some(x) => out_item_ts(x),
                None => Seq::<u64>::empty(),
            },
            final(self).emitted_ev() == old(self).emitted_ev() + match r {
                Some(x) => out_item_ev(x),
                None => Seq::<(u64, V)>::empty(),
            },
            final(self).orig_ev() == old(self).orig_ev(),
            final(self).emitted() == final(self).emitted_ev().map_values(|e: (u64, V)| e.0),
            forall|e: (u64, V)| #[trigger] final(self).emitted_ev().contains(e) ==> final(self).orig_ev().contains(e),
            final(self).orig_set() == old(self).orig_set(),
            final(self).ordered() == old(self).ordered(),
            final(self).ordered() ==> increasing(final(self).emitted()),
            final(self).ordered() && r is None ==> final(self).emitted().to_set() == final(self).orig_set(),
            old(self).ordered() ==> !(r matches Some(MergerItem::Error(_))),
            !(r matches Some(MergerItem::RangeComplete)),
            r matches Some(MergerItem::Data(b)) ==> b.ev_seq().len() >= final(self).out_max_len_spec()
                || final(self).exhausted(),
            old(self).exhausted() ==> final(self).exhausted(),
            final(self).out_max_len_spec() == old(self).out_max_len_spec(),
    {
        loop
            invariant
                self.wf(),
                !self.complete,
                self.out_max_len == old(self).out_max_len,
                old(self).exhausted() ==> self.exhausted(),
                self.emitted == old(self).emitted,
                self.emitted_ev == old(self).emitted_ev,
                self.orig_set == old(self).orig_set,
                self.orig_ev == old(self).orig_ev,
                self.ordered == old(self).ordered,
            decreases
                (if self.done_range_complete { 0nat } else { 1nat }),
                (if self.done_inp { 0nat } else { 1nat }),
                sum(self.rem_seq()),
                sum(self.ev_weight()),
                self.out_weight(),
        {
            if self.done_range_complete {
                let ghost b0 = *self;
                self.complete = true;
                proof {
                    assert forall|jj: int, e: (u64, V)| 0 <= jj < self.inps@.len() && #[trigger] self.ev_in_slot(jj, e) implies b0.ev_in(e) by {
                        assert(b0.ev_in_slot(jj, e));
                    }
                    self.lemma_ev_frame(b0);
                    self.lemma_emitted_sound();
                    if self.ordered@ {
                        let p = self.produced();
                        assert(p =~= self.emitted@);
                        assert forall|t: u64| #[trigger] self.emitted@.to_set().contains(t) == self.orig_set@.contains(t) by {
                            if self.in_state(t) && !p.contains(t) {
                                let j = choose|j: int| 0 <= j < self.inps@.len() && #[trigger] self.in_loc(j, t);
                                assert(self.inps@[j]@.len() == 0);
                                assert(self.rest_ts(j) =~= Seq::<u64>::empty());
                                assert(self.slot_ts(j) =~= Seq::<u64>::empty());
                            }
                        }
                        assert(self.emitted@.to_set() =~= self.orig_set@);
                        lemma_increasing_split(self.emitted@, Seq::<u64>::empty());
                    }
                    assert(self.emitted@ + Seq::<u64>::empty() =~= self.emitted@);
                }
                return None;
            }
            let ghost before = *self;
            if let Some(item) = self.outbuf.pop_front() {
                proof {
                    let x = item;
                    let rest = self.outbuf@;
                    assert(before.outbuf@.subrange(1, before.outbuf@.len() as int) =~= rest);
                    assert(out_ts(before.outbuf@) == out_item_ts(x) + out_ts(rest));
                    self.emitted = Ghost(self.emitted@ + out_item_ts(x));
                    self.emitted_ev = Ghost(self.emitted_ev@ + out_item_ev(x));
                    assert(out_ev(before.outbuf@) == out_item_ev(x) + out_ev(rest));
                    assert(out_item_ts(x) =~= out_item_ev(x).map_values(|e: (u64, V)| e.0));
                    assert(self.emitted@ =~= self.emitted_ev@.map_values(|e: (u64, V)| e.0));
                    assert forall|e: (u64, V)| #[trigger] self.ev_in(e) implies self.orig_ev@.contains(e) by {
                        if self.emitted_ev@.contains(e) {
                            let y = choose|y: int| 0 <= y < self.emitted_ev@.len() && self.emitted_ev@[y] == e;
                            if y < before.emitted_ev@.len() {
                                assert(before.emitted_ev@[y] == e);
                            } else {
                                assert(out_ev(before.outbuf@)[y - before.emitted_ev@.len()] == e);
                            }
                        } else if out_ev(self.outbuf@).contains(e) {
                            let y = choose|y: int| 0 <= y < out_ev(rest).len() && out_ev(rest)[y] == e;
                            assert(out_ev(before.outbuf@)[out_item_ev(x).len() + y] == e);
                        } else if opt_ev(self.out).contains(e) {
                        } else {
                            let j = choose|j: int| 0 <= j < self.inps@.len() && #[trigger] self.ev_in_slot(j, e);
                            assert(before.ev_in_slot(j, e));
                        }
                        assert(before.ev_in(e));
                    }
                    assert(self.produced() =~= before.produced());
                    if self.ordered@ {
                        self.lemma_produced_same(before);
                        let p = self.produced();
                        lemma_increasing_split(self.emitted@ + out_ts(self.outbuf@), opt_ts(self.out));
                        lemma_increasing_split(self.emitted@, out_ts(self.outbuf@));
                        if x is Error {
                            assert(out_ts(before.outbuf@).len() >= 0);
                        }
                    }
                    if before.done_range_complete {
                        assert(out_ts(before.outbuf@) =~= out_item_ts(x) + out_ts(rest));
                        assert(out_ts(rest).len() == 0);
                        assert(out_ts(rest) =~= Seq::<u64>::empty());
                    }
                }
                proof {
                    self.lemma_emitted_sound();
                }
                return Some(item);
            }
            proof {
                assert(self.outbuf@ == before.outbuf@);
                assert forall|jj: int, e: (u64, V)| 0 <= jj < self.inps@.len() && #[trigger] self.ev_in_slot(jj, e) implies before.ev_in(e) by {
                    assert(before.ev_in_slot(jj, e));
                }
                self.lemma_ev_frame(before);
                assert(self.produced() =~= before.produced());
                if self.ordered@ {
                    self.lemma_produced_same(before);
                }
            }
            if !self.done_inp {
                match self.poll2() {
                    Flow::Continue => {},
                    Flow::ErrBreak(e) => {
                        let ghost b1 = *self;
                        self.done_inp = true;
                        proof {
                            assert forall|jj: int, e: (u64, V)| 0 <= jj < self.inps@.len() && #[trigger] self.ev_in_slot(jj, e) implies b1.ev_in(e) by {
                                assert(b1.ev_in_slot(jj, e));
                            }
                            self.lemma_ev_frame(b1);
                            assert(self.emitted@ + out_item_ts(MergerItem::<V>::Error(e)) =~= self.emitted@);
                        }
                        proof {
                            self.lemma_emitted_sound();
                        }
                        return Some(MergerItem::Error(e));
                    },
                    Flow::DoneBreak => {
                        let ghost b2 = *self;
                        self.done_inp = true;
                        proof {
                            assert forall|jj: int, e: (u64, V)| 0 <= jj < self.inps@.len() && #[trigger] self.ev_in_slot(jj, e) implies b2.ev_in(e) by {
                                assert(b2.ev_in_slot(jj, e));
                            }
                            self.lemma_ev_frame(b2);
                            if self.ordered@ {
                                self.lemma_set_done(b2);
                            }
                        }
                    },
                }
            } else {
                let ghost b3 = *self;
                self.done_range_complete = true;
                if self.all_range_complete() {
                    let ghost it = MergerItem::<V>::RangeComplete;
                    self.outbuf.push_back(MergerItem::RangeComplete);
                    proof {
                        lemma_out_ev_push(b3.outbuf@, it);
                        assert(out_ev(self.outbuf@) =~= out_ev(b3.outbuf@));
                        assert forall|jj: int, e: (u64, V)| 0 <= jj < self.inps@.len() && #[trigger] self.ev_in_slot(jj, e) implies b3.ev_in(e) by {
                            assert(b3.ev_in_slot(jj, e));
                        }
                        self.lemma_ev_frame(b3);
                        lemma_out_ts_push(b3.outbuf@, it);
                        assert(b3.outbuf@.len() == 0);
                        assert(out_ts(self.outbuf@) =~= Seq::<u64>::empty());
                        assert(self.produced() =~= b3.produced());
                        if self.ordered@ {
                            self.lemma_produced_same(b3);
                        }
                    }
                } else {
                    proof {
                        assert forall|jj: int, e: (u64, V)| 0 <= jj < self.inps@.len() && #[trigger] self.ev_in_slot(jj, e) implies b3.ev_in(e) by {
                            assert(b3.ev_in_slot(jj, e));
                        }
                        self.lemma_ev_frame(b3);
                        assert(b3.outbuf@.len() == 0);
                        assert(out_ts(self.outbuf@) =~= Seq::<u64>::empty());
                    }
                }
            }
        }
    }
}

/// The merge keeps each value with its timestamp: every event that the
/// merger has handed out, timestamp and value together, is an event of one
/// of its inputs, and the timestamps handed out are those of the events
/// handed out.
pub proof fn lemma_merge_keeps_values<V>(m: Merger<V>)
    requires
        m.wf(),
    ensures
        forall|e: (u64, V)| #[trigger] m.emitted_ev().contains(e) ==> m.orig_ev().contains(e),
        m.emitted() == m.emitted_ev().map_values(|e: (u64, V)| e.0),
{
    m.lemma_emitted_sound();
}

/// The timestamps of an input's batches are those of its events.
pub proof fn lemma_data_ts_ev<V>(s: Seq<InputItem<V>>)
    ensures
        data_ts(s) == data_ev(s).map_values(|e: (u64, V)| e.0),
    decreases s.len(),
{
    if s.len() > 0 {
        let t = s.subrange(1, s.len() as int);
        lemma_data_ts_ev(t);
        assert(item_ts(s[0]) =~= item_ev(s[0]).map_values(|e: (u64, V)| e.0));
        assert(data_ts(s) =~= data_ev(s).map_values(|e: (u64, V)| e.0));
    } else {
        assert(data_ts(s) =~= data_ev(s).map_values(|e: (u64, V)| e.0));
    }
}

/// Once a merger of well ordered inputs has handed out all timestamps of
/// its inputs, its output holds every input event's timestamp, and each
/// event it handed out, value included, is an input event: the output is
/// the inputs' events in time order, each timestamp once.
pub proof fn lemma_merge_output_complete<V>(m: Merger<V>, inps: Seq<Seq<InputItem<V>>>)
    requires
        m.wf(),
        m.orig_set() == inputs_ts_set(inps),
        m.orig_ev() == inputs_ev_set(inps),
        m.emitted().to_set() == m.orig_set(),
    ensures
        forall|e: (u64, V)|
            #[trigger] inputs_ev_set(inps).contains(e) ==> exists|k: int|
                0 <= k < m.emitted_ev().len() && m.emitted_ev()[k].0 == e.0,
        forall|k: int| 0 <= k < m.emitted_ev().len() ==> inputs_ev_set(inps).contains(#[trigger] m.emitted_ev()[k]),
{
    m.lemma_emitted_sound();
    assert forall|e: (u64, V)| #[trigger] inputs_ev_set(inps).contains(e) implies exists|k: int|
        0 <= k < m.emitted_ev().len() && m.emitted_ev()[k].0 == e.0 by {
        let i = choose|i: int| 0 <= i < inps.len() && #[trigger] data_ev(inps[i]).contains(e);
        lemma_data_ts_ev(inps[i]);
        let x = choose|x: int| 0 <= x < data_ev(inps[i]).len() && data_ev(inps[i])[x] == e;
        assert(data_ts(inps[i])[x] == e.0);
        assert(data_ts(inps[i]).contains(e.0));
        assert(m.orig_set().contains(e.0));
        assert(m.emitted().to_set().contains(e.0));
        let k = choose|k: int| 0 <= k < m.emitted().len() && m.emitted()[k] == e.0;
        assert(m.emitted_ev()[k].0 == e.0);
    }
    assert forall|k: int| 0 <= k < m.emitted_ev().len() implies inputs_ev_set(inps).contains(#[trigger] m.emitted_ev()[k]) by {
        assert(m.emitted_ev().contains(m.emitted_ev()[k]));
    }
}

/// How many leading timestamps of `s` are not above `upto`.
pub open spec fn prefix_le(s: Seq<u64>, upto: u64) -> nat
    decreases s.len(),
{
    if s.len() == 0 {
        0
    } else if s[0] > upto {
        0
    } else {
        1 + prefix_le(s.subrange(1, s.len() as int), upto)
    }
}

pub proof fn lemma_prefix_le(s: Seq<u64>, upto: u64)
    ensures
        prefix_le(s, upto) <= s.len(),
        forall|j: int| 0 <= j < prefix_le(s, upto) ==> s[j] <= upto,
        prefix_le(s, upto) < s.len() ==> s[prefix_le(s, upto) as int] > upto,
    decreases s.len(),
{
    if s.len() > 0 && s[0] <= upto {
        let t = s.subrange(1, s.len() as int);
        lemma_prefix_le(t, upto);
        assert forall|j: int| 0 <= j < prefix_le(s, upto) implies s[j] <= upto by {
            if j > 0 {
                assert(s[j] == t[j - 1]);
            }
        }
        if prefix_le(s, upto) < s.len() {
            assert(s[prefix_le(s, upto) as int] == t[prefix_le(t, upto) as int]);
        }
    }
}

pub proof fn lemma_prefix_le_unique(s: Seq<u64>, upto: u64, k: int)
    requires
        0 <= k <= s.len(),
        forall|j: int| 0 <= j < k ==> s[j] <= upto,
        k < s.len() ==> s[k] > upto,
    ensures
        prefix_le(s, upto) == k,
    decreases s.len(),
{
    if s.len() > 0 && k > 0 {
        let t = s.subrange(1, s.len() as int);
        assert forall|j: int| 0 <= j < k - 1 implies t[j] <= upto by {
            assert(t[j] == s[j + 1]);
        }
        if k - 1 < t.len() {
            assert(t[k - 1] == s[k]);
        }
        lemma_prefix_le_unique(t, upto, k - 1);
    }
}

} // verus!
