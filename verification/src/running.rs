use vstd::prelude::*;
use std::collections::VecDeque;
use crate::channelhandler::CaMsgTy;
use crate::channelhandler::ProtoRxItem;

verus! {

/// How many received messages wait at most for a running channel.
pub const RUNNING_INP_BUF_CAP: usize = 64;

/// How many one-time reads may be in flight at once.
pub const READ_NOTIFY_FUTS_CAP: usize = 16;

/// How long a one-time read waits for its answer.
pub const READ_NOTIFY_CMD_TIMEOUT_MS: u64 = 3000;

/// The state of a running channel.
#[derive(Debug, Clone, Copy, PartialEq, Eq, Structural)]
pub enum RunningState {
    Normal,
    Done,
}

/// What a running channel records in its trace.
#[derive(Debug, Clone, Copy, PartialEq, Eq, Structural)]
pub enum RunningTrace {
    ReadNotify,
    ReadNotifyRes,
}

/// What a running channel hands on from its own queues.
#[derive(Debug, Clone, PartialEq, Eq)]
pub enum RunningOut {
    Msg(CaMsgTy),
    Trace(RunningTrace),
}

/// Where a received message goes.
#[derive(Debug, Clone, Copy, PartialEq, Eq, Structural)]
pub enum InpRoute {
    /// The answer of a one-time read in flight, by its request id.
    Waiter(u32),
    /// To the subscription and polling logic.
    ToMpx,
    /// A message a running channel does not expect: the channel fails.
    Unexpected,
}

/// Why a one-time read was not issued.
#[derive(Debug, Clone, Copy, PartialEq, Eq, Structural)]
pub enum ReadNotifyRefused {
    TooMany,
    NotRunning,
}

impl ReadNotifyRefused {
    pub open spec fn text_spec(&self) -> Seq<char> {
        match self {
            ReadNotifyRefused::TooMany => "cmd_read_notify  too many in-flight read-notify commands"@,
            ReadNotifyRefused::NotRunning => "cmd_read_notify  Running  Done"@,
        }
    }

    /// The error text of the refusal.
    pub fn text(&self) -> (r: &'static str)
        ensures
            r@ == self.text_spec(),
    {
        match self {
            ReadNotifyRefused::TooMany => "cmd_read_notify  too many in-flight read-notify commands",
            ReadNotifyRefused::NotRunning => "cmd_read_notify  Running  Done",
        }
    }
}

/// The route of a received message, given the request ids of the one-time
/// reads in flight.
pub open spec fn route_spec(msg: CaMsgTy, pending: Seq<u32>) -> InpRoute {
    match msg {
        CaMsgTy::ReadNotifyRes { ioid, .. } => if pending.contains(ioid) {
            InpRoute::Waiter(ioid)
        } else {
            InpRoute::ToMpx
        },
        CaMsgTy::EventAddRes { .. } => InpRoute::ToMpx,
        CaMsgTy::EventAddResEmpty { .. } => InpRoute::ToMpx,
        _ => InpRoute::Unexpected,
    }
}

/// The decisions of a running channel around its subscription: its input
/// routing and its one-time reads.
#[derive(Debug)]
pub struct RunningCore {
    state: RunningState,
    sid: u32,
    removing: bool,
    inp_done: bool,
    inp_buf: VecDeque<ProtoRxItem>,
    pending: Vec<u32>,
    outbuf: VecDeque<CaMsgTy>,
    trace_outbuf: VecDeque<RunningTrace>,
}

impl RunningCore {
    pub closed spec fn state_spec(&self) -> RunningState {
        self.state
    }

    pub closed spec fn sid_spec(&self) -> u32 {
        self.sid
    }

    pub closed spec fn removing_spec(&self) -> bool {
        self.removing
    }

    pub closed spec fn inp_done_spec(&self) -> bool {
        self.inp_done
    }

    pub closed spec fn inp_seq(&self) -> Seq<ProtoRxItem> {
        self.inp_buf@
    }

    /// The request ids of the one-time reads in flight.
    pub closed spec fn pending_seq(&self) -> Seq<u32> {
        self.pending@
    }

    pub closed spec fn out_seq(&self) -> Seq<CaMsgTy> {
        self.outbuf@
    }

    pub closed spec fn trace_seq(&self) -> Seq<RunningTrace> {
        self.trace_outbuf@
    }

    pub open spec fn wf(&self) -> bool {
        &&& self.pending_seq().len() <= READ_NOTIFY_FUTS_CAP
        &&& self.pending_seq().no_duplicates()
        &&& self.inp_seq().len() <= RUNNING_INP_BUF_CAP
    }

    pub fn new(sid: u32) -> (r: Self)
        ensures
            r.wf(),
            r.state_spec() == RunningState::Normal,
            r.sid_spec() == sid,
            !r.removing_spec(),
            !r.inp_done_spec(),
            r.inp_seq().len() == 0,
            r.pending_seq().len() == 0,
            r.out_seq().len() == 0,
            r.trace_seq().len() == 0,
    {
        RunningCore {
            state: RunningState::Normal,
            sid,
            removing: false,
            inp_done: false,
            inp_buf: VecDeque::new(),
            pending: Vec::new(),
            outbuf: VecDeque::new(),
            trace_outbuf: VecDeque::new(),
        }
    }

    pub fn state(&self) -> (r: RunningState)
        ensures
            r == self.state_spec(),
    {
        self.state
    }

    /// How many more received messages the channel takes.
    pub fn inp_room(&self) -> (r: usize)
        requires
            self.wf(),
        ensures
            r == RUNNING_INP_BUF_CAP - self.inp_seq().len(),
    {
        RUNNING_INP_BUF_CAP - self.inp_buf.len()
    }

    pub fn pending_count(&self) -> (r: usize)
        ensures
            r == self.pending_seq().len(),
    {
        self.pending.len()
    }

    /// Issues a one-time read with the request id `ioid`, which the caller
    /// registered for this channel, unless the channel is done or too many
    /// reads are in flight.
    pub fn cmd_read_notify(&mut self, ioid: u32, data_type: u16, count: u32) -> (r: Result<(), ReadNotifyRefused>)
        requires
            old(self).wf(),
            !old(self).pending_seq().contains(ioid),
        ensures
            final(self).wf(),
            old(self).state_spec() is Done ==> r == Err::<(), ReadNotifyRefused>(ReadNotifyRefused::NotRunning),
            old(self).state_spec() is Normal && old(self).pending_seq().len() >= READ_NOTIFY_FUTS_CAP ==> r
                == Err::<(), ReadNotifyRefused>(ReadNotifyRefused::TooMany),
            r is Err ==> *final(self) == *old(self),
            r is Ok ==> {
                &&& final(self).pending_seq() == old(self).pending_seq().push(ioid)
                &&& final(self).out_seq() == old(self).out_seq().push(
                    CaMsgTy::ReadNotify { data_type, count, sid: old(self).sid_spec(), ioid },
                )
                &&& final(self).trace_seq() == old(self).trace_seq().push(RunningTrace::ReadNotify)
                &&& final(self).state_spec() == old(self).state_spec()
                &&& final(self).inp_seq() == old(self).inp_seq()
            },
            r is Ok <==> (old(self).state_spec() is Normal && old(self).pending_seq().len() < READ_NOTIFY_FUTS_CAP),
            final(self).sid_spec() == old(self).sid_spec(),
    {
        if let RunningState::Done = self.state {
            return Err(ReadNotifyRefused::NotRunning);
        }
        if self.pending.len() >= READ_NOTIFY_FUTS_CAP {
            return Err(ReadNotifyRefused::TooMany);
        }
        self.pending.push(ioid);
        proof {
            assert forall|a: int, b: int| 0 <= a < b < self.pending@.len() implies self.pending@[a] != self.pending@[b] by {
                if b == self.pending@.len() - 1 {
                    assert(self.pending@[a] == old(self).pending@[a]);
                    assert(old(self).pending@.contains(old(self).pending@[a]));
                } else {
                    assert(self.pending@[a] == old(self).pending@[a]);
                    assert(self.pending@[b] == old(self).pending@[b]);
                }
            }
        }
        self.outbuf.push_back(CaMsgTy::ReadNotify { data_type, count, sid: self.sid, ioid });
        self.trace_outbuf.push_back(RunningTrace::ReadNotify);
        Ok(())
    }

    /// The wait of the one-time read `ioid` ended, answered or timed out.
    pub fn read_notify_done(&mut self, ioid: u32) -> (was_pending: bool)
        requires
            old(self).wf(),
        ensures
            final(self).wf(),
            was_pending == old(self).pending_seq().contains(ioid),
            !final(self).pending_seq().contains(ioid),
            forall|x: u32| x != ioid ==> (final(self).pending_seq().contains(x) <==> old(self).pending_seq().contains(x)),
            final(self).out_seq() == old(self).out_seq(),
            final(self).trace_seq() == old(self).trace_seq(),
            final(self).state_spec() == old(self).state_spec(),
            final(self).inp_seq() == old(self).inp_seq(),
            final(self).sid_spec() == old(self).sid_spec(),
    {
        let n = self.pending.len();
        let mut i: usize = 0;
        while i < n && self.pending[i] != ioid
            invariant
                0 <= i <= n,
                n == self.pending@.len(),
                forall|j: int| 0 <= j < i ==> self.pending@[j] != ioid,
            decreases n - i,
        {
            i = i + 1;
        }
        if i < n {
            let ghost before = self.pending@;
            self.pending.remove(i);
            proof {
                assert(before[i as int] == ioid);
                assert forall|x: u32| x != ioid implies (self.pending@.contains(x) <==> before.contains(x)) by {
                    if before.contains(x) {
                        let j = choose|j: int| 0 <= j < before.len() && before[j] == x;
                        if j < i {
                            assert(self.pending@[j] == x);
                        } else {
                            assert(j != i);
                            assert(self.pending@[j - 1] == x);
                        }
                    }
                }
                assert(!self.pending@.contains(ioid)) by {
                    if self.pending@.contains(ioid) {
                        let j = choose|j: int| 0 <= j < self.pending@.len() && self.pending@[j] == ioid;
                        if j < i {
                            assert(before[j] == ioid);
                        } else {
                            assert(before[j + 1] == ioid);
                        }
                    }
                }
                assert forall|a: int, b: int| 0 <= a < b < self.pending@.len() implies self.pending@[a] != self.pending@[b] by {
                    let oa = if a < i { a } else { a + 1 };
                    let ob = if b < i { b } else { b + 1 };
                    assert(self.pending@[a] == before[oa]);
                    assert(self.pending@[b] == before[ob]);
                }
            }
            true
        } else {
            false
        }
    }

    /// Routes a received message: the answer of a read in flight ends that
    /// read and is traced; updates and other read answers go on to the
    /// subscription logic; anything else is unexpected.
    pub fn route_input(&mut self, msg: &CaMsgTy) -> (r: InpRoute)
        requires
            old(self).wf(),
        ensures
            final(self).wf(),
            r == route_spec(*msg, old(self).pending_seq()),
            r matches InpRoute::Waiter(ioid) ==> !final(self).pending_seq().contains(ioid)
                && final(self).trace_seq() == old(self).trace_seq().push(RunningTrace::ReadNotifyRes)
                && forall|x: u32|
                x != ioid ==> (final(self).pending_seq().contains(x) <==> old(self).pending_seq().contains(x)),
            !(r is Waiter) ==> *final(self) == *old(self),
    {
        match msg {
            CaMsgTy::ReadNotifyRes { ioid, .. } => {
                let mut found = false;
                let n = self.pending.len();
                let mut i: usize = 0;
                while i < n
                    invariant
                        0 <= i <= n,
                        n == self.pending@.len(),
                        found == exists|j: int| 0 <= j < i && self.pending@[j] == *ioid,
                    decreases n - i,
                {
                    if self.pending[i] == *ioid {
                        found = true;
                    }
                    i = i + 1;
                }
                proof {
                    if self.pending@.contains(*ioid) {
                        let j = choose|j: int| 0 <= j < self.pending@.len() && self.pending@[j] == *ioid;
                        assert(0 <= j < n);
                    }
                }
                if found {
                    self.read_notify_done(*ioid);
                    self.trace_outbuf.push_back(RunningTrace::ReadNotifyRes);
                    InpRoute::Waiter(*ioid)
                } else {
                    InpRoute::ToMpx
                }
            },
            CaMsgTy::EventAddRes { .. } => InpRoute::ToMpx,
            CaMsgTy::EventAddResEmpty { .. } => InpRoute::ToMpx,
            _ => InpRoute::Unexpected,
        }
    }

    /// Offers a received message: queued where there is room, handed back
    /// otherwise.
    pub fn inp_push_try(&mut self, item: ProtoRxItem) -> (r: Option<ProtoRxItem>)
        requires
            old(self).wf(),
        ensures
            final(self).wf(),
            old(self).inp_seq().len() < RUNNING_INP_BUF_CAP ==> r is None && final(self).inp_seq()
                == old(self).inp_seq().push(item),
            old(self).inp_seq().len() >= RUNNING_INP_BUF_CAP ==> r == Some(item) && final(self).inp_seq()
                == old(self).inp_seq(),
            final(self).pending_seq() == old(self).pending_seq(),
            final(self).state_spec() == old(self).state_spec(),
    {
        if self.inp_buf.len() < RUNNING_INP_BUF_CAP {
            self.inp_buf.push_back(item);
            None
        } else {
            Some(item)
        }
    }

    /// The next queued message.
    pub fn inp_pop(&mut self) -> (r: Option<ProtoRxItem>)
        requires
            old(self).wf(),
        ensures
            final(self).wf(),
            old(self).inp_seq().len() > 0 ==> r == Some(old(self).inp_seq()[0]) && final(self).inp_seq()
                == old(self).inp_seq().drop_first(),
            old(self).inp_seq().len() == 0 ==> r is None && final(self).inp_seq() == old(self).inp_seq(),
            final(self).pending_seq() == old(self).pending_seq(),
            final(self).state_spec() == old(self).state_spec(),
    {
        self.inp_buf.pop_front()
    }

    /// The channel closes: it is being removed.
    pub fn trigger_close(&mut self)
        ensures
            final(self).removing_spec(),
            final(self).state_spec() == old(self).state_spec(),
            final(self).pending_seq() == old(self).pending_seq(),
            final(self).inp_seq() == old(self).inp_seq(),
            final(self).inp_done_spec() == old(self).inp_done_spec(),
    {
        self.removing = true;
    }

    /// The peer closed the channel: it is being removed and no more input
    /// comes.
    pub fn notify_peer_closed(&mut self)
        ensures
            final(self).removing_spec(),
            final(self).inp_done_spec(),
            final(self).state_spec() == old(self).state_spec(),
            final(self).pending_seq() == old(self).pending_seq(),
            final(self).inp_seq() == old(self).inp_seq(),
    {
        self.removing = true;
        self.inp_done = true;
    }

    /// No more input comes.
    pub fn inp_done(&mut self)
        ensures
            final(self).inp_done_spec(),
            final(self).state_spec() == old(self).state_spec(),
            final(self).pending_seq() == old(self).pending_seq(),
            final(self).inp_seq() == old(self).inp_seq(),
            final(self).removing_spec() == old(self).removing_spec(),
    {
        self.inp_done = true;
    }

    /// The channel failed or its subscription ended.
    pub fn finish(&mut self)
        ensures
            final(self).state_spec() == RunningState::Done,
            final(self).pending_seq() == old(self).pending_seq(),
            final(self).inp_seq() == old(self).inp_seq(),
    {
        self.state = RunningState::Done;
    }

    /// The next message for the peer.
    pub fn pop_out(&mut self) -> (r: Option<CaMsgTy>)
        ensures
            old(self).out_seq().len() > 0 ==> r == Some(old(self).out_seq()[0]) && final(self).out_seq()
                == old(self).out_seq().drop_first(),
            old(self).out_seq().len() == 0 ==> r is None && final(self).out_seq() == old(self).out_seq(),
            final(self).pending_seq() == old(self).pending_seq(),
            final(self).trace_seq() == old(self).trace_seq(),
            final(self).inp_seq() == old(self).inp_seq(),
            final(self).state_spec() == old(self).state_spec(),
    {
        self.outbuf.pop_front()
    }

    /// The next trace record.
    pub fn pop_trace(&mut self) -> (r: Option<RunningTrace>)
        ensures
            old(self).trace_seq().len() > 0 ==> r == Some(old(self).trace_seq()[0]) && final(self).trace_seq()
                == old(self).trace_seq().drop_first(),
            old(self).trace_seq().len() == 0 ==> r is None && final(self).trace_seq() == old(self).trace_seq(),
            final(self).pending_seq() == old(self).pending_seq(),
            final(self).out_seq() == old(self).out_seq(),
            final(self).inp_seq() == old(self).inp_seq(),
            final(self).state_spec() == old(self).state_spec(),
    {
        self.trace_outbuf.pop_front()
    }

    /// The next item of the channel's own queues: messages for the peer go
    /// before trace records. `None` where both are empty; then the fetch
    /// sub-handler's items come next.
    pub fn next_output(&mut self) -> (r: Option<RunningOut>)
        ensures
            old(self).out_seq().len() > 0 ==> r == Some(RunningOut::Msg(old(self).out_seq()[0]))
                && final(self).out_seq() == old(self).out_seq().drop_first() && final(self).trace_seq()
                == old(self).trace_seq(),
            old(self).out_seq().len() == 0 && old(self).trace_seq().len() > 0 ==> r == Some(
                RunningOut::Trace(old(self).trace_seq()[0]),
            ) && final(self).trace_seq() == old(self).trace_seq().drop_first() && final(self).out_seq()
                == old(self).out_seq(),
            old(self).out_seq().len() == 0 && old(self).trace_seq().len() == 0 ==> r is None
                && final(self).out_seq() == old(self).out_seq() && final(self).trace_seq() == old(self).trace_seq(),
            final(self).pending_seq() == old(self).pending_seq(),
            final(self).inp_seq() == old(self).inp_seq(),
            final(self).state_spec() == old(self).state_spec(),
    {
        match self.pop_out() {
            Some(m) => Some(RunningOut::Msg(m)),
            None => match self.pop_trace() {
                Some(t) => Some(RunningOut::Trace(t)),
                None => None,
            },
        }
    }
}

/// A running channel hands every monitor update, with or without a value,
/// to the subscription logic, whatever reads are in flight; the answer of a
/// read in flight goes to its waiter; and only a message that is neither an
/// update nor a read answer is unexpected.
pub proof fn lemma_route_updates(msg: CaMsgTy, pending: Seq<u32>)
    ensures
        (msg is EventAddRes || msg is EventAddResEmpty) ==> route_spec(msg, pending) == InpRoute::ToMpx,
        route_spec(msg, pending) is Unexpected <==> !(msg is EventAddRes || msg is EventAddResEmpty
            || msg is ReadNotifyRes),
        route_spec(msg, pending) matches InpRoute::Waiter(i) ==> (msg matches CaMsgTy::ReadNotifyRes { ioid, .. } && ioid
            == i && pending.contains(i)),
        msg matches CaMsgTy::ReadNotifyRes { ioid, .. } ==> (route_spec(msg, pending) is Waiter <==> pending.contains(
            ioid,
        )),
{
}

} // verus!
