use vstd::prelude::*;
use std::collections::VecDeque;
use crate::channelhandler::CaMsgTy;
use crate::channelhandler::ProtoRxItem;
use crate::locallog::{next_count, push_text, Entry, LocalLog, LOCAL_LOG_TRUNCATE_AT};

verus! {

/// How long a subscription request or its cancel waits for the answer.
pub const CREATE_SEND_TIMEOUT_MS: u64 = 20000;

/// How long a monitor may stay silent before the handler wakes up.
pub const SILENCE_MONITOR_WAKEUP_MS: u64 = 60000;

/// How many received messages wait at most for the monitor.
pub const MONITOR_INP_CAP: usize = 16;

/// Where the monitor is asked to go.
#[derive(Debug, Clone, Copy, PartialEq, Eq, Structural)]
pub enum StateDirection {
    Unset,
    Disable,
    Enable,
    Closing,
}

/// The states of a monitor subscription.
#[derive(Debug, Clone, Copy, PartialEq, Eq, Structural)]
pub enum MonState {
    DoNothing,
    CreateMonitorSend(StateDirection),
    CreateMonitorRecv(StateDirection),
    Monitoring(StateDirection),
    RemoveMonitorSend(StateDirection),
    RemoveMonitorRecv(StateDirection),
    RemoveSubidSend(StateDirection),
    Closing1,
    Done,
}

/// What a monitor hands out.
#[derive(Debug, Clone, PartialEq, Eq)]
pub enum MonitoringItem {
    /// A message for the peer.
    ProtoOutSubid(CaMsgTy),
    /// The subscription id of the channel is free again.
    SubidRemove(u32),
    /// A received value, still encoded.
    ChannelEventValue(Vec<u8>),
    /// An entry of the monitor's local log: its number, its time in
    /// milliseconds since the epoch, and its text.
    LocalLog { num: u32, ts_ms: i64, text: String },
}

/// The outcome of one round of the monitor.
#[derive(Debug, Clone, PartialEq, Eq)]
pub enum MonRound {
    Item(MonitoringItem),
    Progress,
    Pending,
    Finished,
}

/// The timer the monitor's state waits on, in milliseconds before jitter.
pub open spec fn timer_spec(st: MonState) -> Option<u64> {
    match st {
        MonState::CreateMonitorRecv(_) => Some(CREATE_SEND_TIMEOUT_MS),
        MonState::Monitoring(_) => Some(SILENCE_MONITOR_WAKEUP_MS),
        MonState::RemoveMonitorRecv(_) => Some(CREATE_SEND_TIMEOUT_MS),
        _ => None,
    }
}

/// The state after a request to enable the monitor.
pub open spec fn enable_spec(st: MonState) -> MonState {
    match st {
        MonState::DoNothing => MonState::CreateMonitorSend(StateDirection::Enable),
        MonState::RemoveMonitorSend(_) => MonState::RemoveMonitorSend(StateDirection::Enable),
        MonState::RemoveMonitorRecv(_) => MonState::RemoveMonitorRecv(StateDirection::Enable),
        MonState::RemoveSubidSend(_) => MonState::RemoveSubidSend(StateDirection::Enable),
        _ => st,
    }
}

/// The state after a request to disable the monitor.
pub open spec fn disable_spec(st: MonState) -> MonState {
    match st {
        MonState::CreateMonitorSend(_) => MonState::CreateMonitorSend(StateDirection::Disable),
        MonState::CreateMonitorRecv(_) => MonState::CreateMonitorRecv(StateDirection::Disable),
        MonState::Monitoring(_) => MonState::Monitoring(StateDirection::Disable),
        _ => st,
    }
}

/// The state after a request to close the monitor.
pub open spec fn closing_spec(st: MonState) -> MonState {
    match st {
        MonState::DoNothing => MonState::Closing1,
        MonState::CreateMonitorSend(_) => MonState::CreateMonitorSend(StateDirection::Closing),
        MonState::CreateMonitorRecv(_) => MonState::CreateMonitorRecv(StateDirection::Closing),
        MonState::Monitoring(_) => MonState::Monitoring(StateDirection::Closing),
        _ => st,
    }
}

/// The value a received message carries for the monitor, if it is an update.
pub open spec fn received_value(msg: CaMsgTy) -> Option<MonitoringItem> {
    match msg {
        CaMsgTy::EventAddRes { data, .. } => Some(MonitoringItem::ChannelEventValue(data)),
        _ => None,
    }
}

/// The state after a received message, and what the message yields.
pub open spec fn input_spec(st: MonState, msg: CaMsgTy) -> (MonState, Option<MonitoringItem>) {
    match st {
        MonState::CreateMonitorRecv(d) => (MonState::Monitoring(d), received_value(msg)),
        MonState::Monitoring(_) => (st, received_value(msg)),
        MonState::RemoveMonitorSend(_) => (st, received_value(msg)),
        MonState::RemoveMonitorRecv(d) => if msg is EventAddResEmpty || msg is EventCancelRes {
            (MonState::RemoveSubidSend(d), None)
        } else {
            (st, None)
        },
        _ => (st, None),
    }
}

/// The step that a state takes after the input, `timer_fired` telling
/// whether its timer elapsed: the next state, what it hands out, and whether
/// it made progress.
pub open spec fn step_spec(st: MonState, timer_fired: bool, sid: u32, cid: u32, dbr: u16, count: u32) -> (
    MonState,
    Option<MonitoringItem>,
    bool,
) {
    match st {
        MonState::DoNothing => (st, None, false),
        MonState::CreateMonitorSend(d) => (
            MonState::CreateMonitorRecv(d),
            Some(MonitoringItem::ProtoOutSubid(CaMsgTy::EventAdd { data_type: dbr, count, sid, subid: 0 })),
            true,
        ),
        MonState::CreateMonitorRecv(_) => if timer_fired {
            (MonState::DoNothing, None, true)
        } else {
            (st, None, false)
        },
        MonState::Monitoring(d) => match d {
            StateDirection::Disable | StateDirection::Closing => (MonState::RemoveMonitorSend(d), None, true),
            StateDirection::Enable => if timer_fired {
                (MonState::Monitoring(d), None, true)
            } else {
                (st, None, false)
            },
            StateDirection::Unset => (st, None, false),
        },
        MonState::RemoveMonitorSend(d) => (
            MonState::RemoveMonitorRecv(d),
            Some(MonitoringItem::ProtoOutSubid(CaMsgTy::EventCancel { data_type: dbr, count, sid, subid: 0 })),
            true,
        ),
        MonState::RemoveMonitorRecv(_) => if timer_fired {
            (MonState::DoNothing, None, true)
        } else {
            (st, None, false)
        },
        MonState::RemoveSubidSend(d) => (
            match d {
                StateDirection::Unset | StateDirection::Disable => MonState::DoNothing,
                StateDirection::Enable => MonState::CreateMonitorSend(StateDirection::Enable),
                StateDirection::Closing => MonState::Closing1,
            },
            Some(MonitoringItem::SubidRemove(cid)),
            true,
        ),
        MonState::Closing1 => (MonState::Done, None, true),
        MonState::Done => (st, None, false),
    }
}

/// Whether the state's step waits on its timer.
pub open spec fn waits_on_timer(st: MonState) -> bool {
    ||| st is CreateMonitorRecv
    ||| st is RemoveMonitorRecv
    ||| (st matches MonState::Monitoring(d) && d is Enable)
}

/// A random spread of a duration: between seven eighths of it and a little
/// more than it, by the low byte of a random number.
pub open spec fn jitter_spec(dur_ns: u64, r: u32) -> int {
    ((896 + (r % 256)) * dur_ns) / 1024
}

/// The spread duration, in nanoseconds.
pub fn duration_jitter(dur_ns: u64, r: u32) -> (d: u64)
    requires
        dur_ns <= u64::MAX / 2048,
    ensures
        d == jitter_spec(dur_ns, r),
{
    let b: u64 = 896 + (r % 256) as u64;
    assert(b * dur_ns <= 1151 * dur_ns) by (nonlinear_arith)
        requires
            b <= 1151,
    ;
    (b * dur_ns) / 1024
}

/// The name of a state, as the local log writes it.
pub open spec fn state_name(st: MonState) -> Seq<char> {
    match st {
        MonState::DoNothing => "DoNothing"@,
        MonState::CreateMonitorSend(_) => "CreateMonitorSend"@,
        MonState::CreateMonitorRecv(_) => "CreateMonitorRecv"@,
        MonState::Monitoring(_) => "Monitoring"@,
        MonState::RemoveMonitorSend(_) => "RemoveMonitorSend"@,
        MonState::RemoveMonitorRecv(_) => "RemoveMonitorRecv"@,
        MonState::RemoveSubidSend(_) => "RemoveSubidSend"@,
        MonState::Closing1 => "Closing1"@,
        MonState::Done => "Done"@,
    }
}

fn state_name_str(st: MonState) -> (r: &'static str)
    ensures
        r@ == state_name(st),
{
    match st {
        MonState::DoNothing => "DoNothing",
        MonState::CreateMonitorSend(_) => "CreateMonitorSend",
        MonState::CreateMonitorRecv(_) => "CreateMonitorRecv",
        MonState::Monitoring(_) => "Monitoring",
        MonState::RemoveMonitorSend(_) => "RemoveMonitorSend",
        MonState::RemoveMonitorRecv(_) => "RemoveMonitorRecv",
        MonState::RemoveSubidSend(_) => "RemoveSubidSend",
        MonState::Closing1 => "Closing1",
        MonState::Done => "Done",
    }
}

/// The local log line of a change of state.
pub open spec fn transition_line(a: MonState, b: MonState) -> Seq<char> {
    "transition  "@ + state_name(a) + " -> "@ + state_name(b)
}

/// The local log line of an elapsed silence timer of a running monitor.
pub open spec fn timeout_line() -> Seq<char> {
    "poll_next_unpin  Monitoring  Timeout  7d956c9"@
}

/// The local log line of a request, `name` being the request and `st` the
/// state it found.
pub open spec fn request_line(name: Seq<char>, st: MonState) -> Seq<char> {
    name + "  "@ + state_name(st)
}

/// The local log lines of one round that took no logged entry, where the
/// message (if any) moved the state from `st0` to `st1`, and the step (if
/// one was taken) is that of `st1`.
pub open spec fn round_lines(
    st0: MonState,
    st1: MonState,
    stepped: bool,
    timer_fired: bool,
    ids: (u32, u32, u16, u32),
) -> Seq<Seq<char>> {
    let (sid, cid, dbr, count) = ids;
    let (st2, _out, prog) = step_spec(st1, timer_fired, sid, cid, dbr, count);
    let input_lines = if st1 != st0 {
        seq![transition_line(st0, st1)]
    } else {
        Seq::<Seq<char>>::empty()
    };
    let step_lines = if stepped && prog {
        (if st1 == MonState::Monitoring(StateDirection::Enable) {
            seq![timeout_line()]
        } else {
            Seq::<Seq<char>>::empty()
        }) + seq![transition_line(st1, st2)]
    } else {
        Seq::<Seq<char>>::empty()
    };
    input_lines + step_lines
}

fn concat4(a: &str, b: &str, c: &str, d: &str) -> (r: String)
    ensures
        r@ == a@ + b@ + c@ + d@,
{
    let mut r = String::from_str(a);
    r.append(b);
    r.append(c);
    r.append(d);
    r
}

/// The decisions of a monitor subscription of one channel.
#[derive(Debug)]
pub struct FetchMonitoring {
    state: MonState,
    cid: u32,
    sid: u32,
    ca_dbr_ty: u16,
    ca_count: u32,
    inp_buf: VecDeque<ProtoRxItem>,
    inp_done: bool,
    llog: LocalLog,
}

impl FetchMonitoring {
    /// The entries of the local log, not yet handed out.
    pub closed spec fn log_entries(&self) -> Seq<Entry> {
        self.llog.entries()
    }

    /// The texts of the local log, not yet handed out.
    pub closed spec fn log_texts(&self) -> Seq<Seq<char>> {
        self.llog.texts()
    }

    /// How many lines the local log has taken so far.
    pub closed spec fn log_count(&self) -> u32 {
        self.llog.count()
    }

    pub closed spec fn state_spec(&self) -> MonState {
        self.state
    }

    pub closed spec fn inp_seq(&self) -> Seq<ProtoRxItem> {
        self.inp_buf@
    }

    pub closed spec fn inp_done_spec(&self) -> bool {
        self.inp_done
    }

    pub closed spec fn ids(&self) -> (u32, u32, u16, u32) {
        (self.sid, self.cid, self.ca_dbr_ty, self.ca_count)
    }

    pub open spec fn wf(&self) -> bool {
        &&& self.inp_seq().len() <= MONITOR_INP_CAP
        &&& self.log_entries().len() <= LOCAL_LOG_TRUNCATE_AT
    }

    /// Adds a line to the local log.
    fn log_line(&mut self, line: String, now_ms: i64)
        requires
            old(self).wf(),
        ensures
            final(self).wf(),
            final(self).log_texts() == push_text(old(self).log_texts(), line@),
            final(self).log_count() == next_count(old(self).log_count()),
            final(self).state == old(self).state,
            final(self).inp_buf == old(self).inp_buf,
            final(self).inp_done == old(self).inp_done,
            final(self).ids() == old(self).ids(),
    {
        self.llog.push(line, now_ms);
    }

    /// Logs a change of state from `a` to `b`.
    fn log_transition(&mut self, a: MonState, b: MonState, now_ms: i64)
        requires
            old(self).wf(),
        ensures
            final(self).wf(),
            final(self).log_texts() == push_text(old(self).log_texts(), transition_line(a, b)),
            final(self).log_count() == next_count(old(self).log_count()),
            final(self).state == old(self).state,
            final(self).inp_buf == old(self).inp_buf,
            final(self).inp_done == old(self).inp_done,
            final(self).ids() == old(self).ids(),
    {
        let line = concat4("transition  ", state_name_str(a), " -> ", state_name_str(b));
        self.log_line(line, now_ms);
    }

    /// Logs a request by its name, with the state it found.
    fn log_request(&mut self, name: &str, now_ms: i64)
        requires
            old(self).wf(),
        ensures
            final(self).wf(),
            final(self).log_texts() == push_text(
                old(self).log_texts(),
                request_line(name@, old(self).state_spec()),
            ),
            final(self).log_count() == next_count(old(self).log_count()),
            final(self).state == old(self).state,
            final(self).inp_buf == old(self).inp_buf,
            final(self).inp_done == old(self).inp_done,
            final(self).ids() == old(self).ids(),
    {
        let mut line = String::from_str(name);
        line.append("  ");
        line.append(state_name_str(self.state));
        self.log_line(line, now_ms);
    }

    /// A monitor for the channel `cid` with server id `sid`, its value type
    /// and element count, doing nothing yet.
    pub fn new(cid: u32, sid: u32, ca_dbr_ty: u16, ca_count: u32) -> (r: Self)
        ensures
            r.wf(),
            r.state_spec() == MonState::DoNothing,
            r.inp_seq().len() == 0,
            !r.inp_done_spec(),
            r.ids() == (sid, cid, ca_dbr_ty, ca_count),
            r.log_entries().len() == 0,
            r.log_count() == 0,
    {
        FetchMonitoring {
            state: MonState::DoNothing,
            cid,
            sid,
            ca_dbr_ty,
            ca_count,
            inp_buf: VecDeque::new(),
            inp_done: false,
            llog: LocalLog::new(),
        }
    }

    pub fn state(&self) -> (r: MonState)
        ensures
            r == self.state_spec(),
    {
        self.state
    }

    /// The timer the current state waits on, in milliseconds before jitter.
    pub fn timer_ms(&self) -> (r: Option<u64>)
        ensures
            r == timer_spec(self.state_spec()),
    {
        match self.state {
            MonState::CreateMonitorRecv(_) => Some(CREATE_SEND_TIMEOUT_MS),
            MonState::Monitoring(_) => Some(SILENCE_MONITOR_WAKEUP_MS),
            MonState::RemoveMonitorRecv(_) => Some(CREATE_SEND_TIMEOUT_MS),
            _ => None,
        }
    }

    /// A request to enable the monitor, logged with the state it found.
    pub fn transition_to_enable(&mut self, now_ms: i64)
        requires
            old(self).wf(),
        ensures
            final(self).wf(),
            final(self).state_spec() == enable_spec(old(self).state_spec()),
            final(self).inp_seq() == old(self).inp_seq(),
            final(self).inp_done_spec() == old(self).inp_done_spec(),
            final(self).ids() == old(self).ids(),
            ({
                let st = old(self).state_spec();
                let t1 = push_text(old(self).log_texts(), request_line("transition_to_enable"@, st));
                if st is DoNothing {
                    &&& final(self).log_texts() == push_text(t1, transition_line(st, enable_spec(st)))
                } else {
                    &&& final(self).log_texts() == t1
                }
            }),
    {
        self.log_request("transition_to_enable", now_ms);
        match self.state {
            MonState::DoNothing => {
                let n = MonState::CreateMonitorSend(StateDirection::Enable);
                self.log_transition(self.state, n, now_ms);
                self.state = n;
            },
            MonState::RemoveMonitorSend(_) => {
                self.state = MonState::RemoveMonitorSend(StateDirection::Enable);
            },
            MonState::RemoveMonitorRecv(_) => {
                self.state = MonState::RemoveMonitorRecv(StateDirection::Enable);
            },
            MonState::RemoveSubidSend(_) => {
                self.state = MonState::RemoveSubidSend(StateDirection::Enable);
            },
            _ => {},
        }
    }

    /// A request to disable the monitor, logged with the state it found.
    pub fn transition_to_disable(&mut self, now_ms: i64)
        requires
            old(self).wf(),
        ensures
            final(self).wf(),
            final(self).state_spec() == disable_spec(old(self).state_spec()),
            final(self).inp_seq() == old(self).inp_seq(),
            final(self).inp_done_spec() == old(self).inp_done_spec(),
            final(self).ids() == old(self).ids(),
            final(self).log_texts() == push_text(
                old(self).log_texts(),
                request_line("transition_to_disable"@, old(self).state_spec()),
            ),
            final(self).log_count() == next_count(old(self).log_count()),
    {
        self.log_request("transition_to_disable", now_ms);
        self.state = match self.state {
            MonState::CreateMonitorSend(_) => MonState::CreateMonitorSend(StateDirection::Disable),
            MonState::CreateMonitorRecv(_) => MonState::CreateMonitorRecv(StateDirection::Disable),
            MonState::Monitoring(_) => MonState::Monitoring(StateDirection::Disable),
            st => st,
        };
    }

    /// The channel closes: the monitor is asked to close, and the request is
    /// logged with the state it found.
    pub fn trigger_closing(&mut self, now_ms: i64)
        requires
            old(self).wf(),
        ensures
            final(self).wf(),
            final(self).state_spec() == closing_spec(old(self).state_spec()),
            final(self).inp_seq() == old(self).inp_seq(),
            final(self).inp_done_spec() == old(self).inp_done_spec(),
            final(self).ids() == old(self).ids(),
            ({
                let st = old(self).state_spec();
                let t1 = push_text(old(self).log_texts(), request_line("transition_to_closing"@, st));
                if st is DoNothing {
                    &&& final(self).log_texts() == push_text(
                        push_text(t1, "transition_to_closing  State::DoNothing  goto Closing1"@),
                        transition_line(st, MonState::Closing1),
                    )
                } else {
                    &&& final(self).log_texts() == t1
                }
            }),
    {
        self.log_request("transition_to_closing", now_ms);
        match self.state {
            MonState::DoNothing => {
                self.log_line(String::from_str("transition_to_closing  State::DoNothing  goto Closing1"), now_ms);
                self.log_transition(MonState::DoNothing, MonState::Closing1, now_ms);
                self.state = MonState::Closing1;
            },
            MonState::CreateMonitorSend(_) => {
                self.state = MonState::CreateMonitorSend(StateDirection::Closing);
            },
            MonState::CreateMonitorRecv(_) => {
                self.state = MonState::CreateMonitorRecv(StateDirection::Closing);
            },
            MonState::Monitoring(_) => {
                self.state = MonState::Monitoring(StateDirection::Closing);
            },
            _ => {},
        }
    }

    /// Offers a received message: queued where there is room, handed back
    /// otherwise.
    pub fn inp_push_try(&mut self, item: ProtoRxItem) -> (r: Option<ProtoRxItem>)
        requires
            old(self).wf(),
        ensures
            final(self).wf(),
            old(self).inp_seq().len() < MONITOR_INP_CAP ==> r is None && final(self).inp_seq()
                == old(self).inp_seq().push(item),
            old(self).inp_seq().len() >= MONITOR_INP_CAP ==> r == Some(item) && final(self).inp_seq()
                == old(self).inp_seq(),
            final(self).state_spec() == old(self).state_spec(),
            final(self).inp_done_spec() == old(self).inp_done_spec(),
            final(self).ids() == old(self).ids(),
            final(self).log_entries() == old(self).log_entries(),
            final(self).log_count() == old(self).log_count(),
    {
        if self.inp_buf.len() < MONITOR_INP_CAP {
            self.inp_buf.push_back(item);
            None
        } else {
            Some(item)
        }
    }

    /// No more messages will come.
    pub fn inp_done(&mut self)
        ensures
            final(self).inp_done_spec(),
            final(self).state_spec() == old(self).state_spec(),
            final(self).inp_seq() == old(self).inp_seq(),
            final(self).ids() == old(self).ids(),
            final(self).log_entries() == old(self).log_entries(),
            final(self).log_count() == old(self).log_count(),
    {
        self.inp_done = true;
    }

    /// The state after the message (if any) that a round takes.
    pub open spec fn round_st1(self) -> MonState {
        if self.inp_seq().len() > 0 {
            input_spec(self.state_spec(), self.inp_seq()[0].msg).0
        } else {
            self.state_spec()
        }
    }

    /// What the message (if any) that a round takes yields.
    pub open spec fn round_got(self) -> Option<MonitoringItem> {
        if self.inp_seq().len() > 0 {
            input_spec(self.state_spec(), self.inp_seq()[0].msg).1
        } else {
            None
        }
    }

    /// A round from `self` to `post` with outcome `r`: it takes the next
    /// received message, and then lets its state take its step, unless the
    /// message yielded a value, which is handed out first.
    pub open spec fn round_post(self, post: Self, r: MonRound, timer_fired: bool) -> bool {
                let (sid, cid, dbr, count) = self.ids();
                let had_input = self.inp_seq().len() > 0;
                let (st1, got) = if had_input {
                    input_spec(self.state_spec(), self.inp_seq()[0].msg)
                } else {
                    (self.state_spec(), None)
                };
                let rest = if had_input && !(self.state_spec() is RemoveSubidSend) {
                    self.inp_seq().drop_first()
                } else {
                    Seq::empty()
                };
                if got is Some {
                    &&& post.state_spec() == st1
                    &&& r == MonRound::Item(got->0)
                    &&& post.inp_seq() == rest
                    &&& post.inp_done_spec() == self.inp_done_spec()
                } else {
                    let (st2, out, prog) = step_spec(st1, timer_fired, sid, cid, dbr, count);
                    &&& post.state_spec() == st2
                    &&& post.inp_seq() == rest
                    &&& post.inp_done_spec() == (self.inp_done_spec() || st1 is Closing1)
                    &&& r == (if out is Some {
                        MonRound::Item(out->0)
                    } else if prog || had_input {
                        MonRound::Progress
                    } else if (!had_input && !self.inp_done_spec()) || waits_on_timer(st1) {
                        MonRound::Pending
                    } else {
                        MonRound::Finished
                    })
                }
            }

    /// One round of the monitor: a logged line is handed out first; where
    /// there is none, the round takes the next received message and then
    /// lets its state take its step, `timer_fired` telling whether the
    /// state's timer elapsed, and logs each change of state. A value from the
    /// message is handed out before the step is taken.
    pub fn poll_round(&mut self, timer_fired: bool, now_ms: i64) -> (r: MonRound)
        requires
            old(self).wf(),
        ensures
            final(self).wf(),
            final(self).ids() == old(self).ids(),
            old(self).log_entries().len() > 0 ==> {
                let e = old(self).log_entries()[0];
                &&& r == MonRound::Item(MonitoringItem::LocalLog { num: e.0, ts_ms: e.1, text: e.2 })
                &&& final(self).log_entries() == old(self).log_entries().drop_first()
                &&& final(self).log_count() == old(self).log_count()
                &&& final(self).state_spec() == old(self).state_spec()
                &&& final(self).inp_seq() == old(self).inp_seq()
                &&& final(self).inp_done_spec() == old(self).inp_done_spec()
            },
            old(self).log_entries().len() == 0 ==> {
                let lines = round_lines(
                    old(self).state_spec(),
                    old(self).round_st1(),
                    old(self).round_got() is None,
                    timer_fired,
                    old(self).ids(),
                );
                &&& old(self).round_post(*final(self), r, timer_fired)
                &&& final(self).log_texts() == lines
            },
    {
        match self.llog.pop() {
            Some(e) => {
                return MonRound::Item(MonitoringItem::LocalLog { num: e.0, ts_ms: e.1, text: e.2 });
            },
            None => {},
        }
        let ghost s0 = *self;
        let st0 = self.state;
        let (r, st1, stepped) = self.step_round(timer_fired);
        let ghost lines = round_lines(s0.state_spec(), st1, s0.round_got() is None, timer_fired, s0.ids());
        let ghost input_lines = if st1 != st0 {
            seq![transition_line(st0, st1)]
        } else {
            Seq::<Seq<char>>::empty()
        };
        proof {
            assert(self.log_texts() =~= Seq::<Seq<char>>::empty());
        }
        if st1 != st0 {
            self.log_transition(st0, st1, now_ms);
        }
        assert(self.log_texts() =~= input_lines);
        if stepped {
            let st2 = self.state;
            if st1 == MonState::Monitoring(StateDirection::Enable) {
                self.log_line(String::from_str("poll_next_unpin  Monitoring  Timeout  7d956c9"), now_ms);
            }
            self.log_transition(st1, st2, now_ms);
        }
        assert(self.log_texts() =~= lines);
        r
    }

    fn step_round(&mut self, timer_fired: bool) -> (r: (MonRound, MonState, bool))
        requires
            old(self).wf(),
        ensures
            final(self).wf(),
            final(self).ids() == old(self).ids(),
            final(self).llog == old(self).llog,
            old(self).round_post(*final(self), r.0, timer_fired),
            r.1 == old(self).round_st1(),
            r.2 == (old(self).round_got() is None && ({
                let (sid, cid, dbr, count) = old(self).ids();
                step_spec(old(self).round_st1(), timer_fired, sid, cid, dbr, count).2
            })),
    {
        let had_input = self.inp_buf.len() > 0;
        let mut got: Option<MonitoringItem> = None;
        let mut pending_inp = false;
        match self.inp_buf.pop_front() {
            Some(item) => {
                match self.state {
                    MonState::CreateMonitorRecv(d) => {
                        got = Self::received_value(item.msg);
                        self.state = MonState::Monitoring(d);
                    },
                    MonState::Monitoring(_) => {
                        got = Self::received_value(item.msg);
                    },
                    MonState::RemoveMonitorSend(_) => {
                        got = Self::received_value(item.msg);
                    },
                    MonState::RemoveMonitorRecv(d) => {
                        match item.msg {
                            CaMsgTy::EventAddResEmpty { .. } | CaMsgTy::EventCancelRes { .. } => {
                                self.state = MonState::RemoveSubidSend(d);
                            },
                            _ => {},
                        }
                    },
                    MonState::RemoveSubidSend(_) => {
                        self.inp_buf.clear();
                    },
                    _ => {},
                }
            },
            None => {
                if !self.inp_done {
                    pending_inp = true;
                }
            },
        }
        let st1 = self.state;
        proof {
            assert(self.inp_buf@ =~= (if old(self).inp_buf@.len() > 0 && !(old(self).state is RemoveSubidSend) {
                old(self).inp_buf@.drop_first()
            } else {
                Seq::<ProtoRxItem>::empty()
            }));
        }
        if let Some(x) = got {
            return (MonRound::Item(x), st1, false);
        }
        let mut prog = false;
        let mut progress = had_input;
        let mut pending = pending_inp;
        let mut out: Option<MonitoringItem> = None;
        match self.state {
            MonState::DoNothing => {},
            MonState::CreateMonitorSend(d) => {
                progress = true;
                prog = true;
                self.state = MonState::CreateMonitorRecv(d);
                out = Some(
                    MonitoringItem::ProtoOutSubid(
                        CaMsgTy::EventAdd { data_type: self.ca_dbr_ty, count: self.ca_count, sid: self.sid, subid: 0 },
                    ),
                );
            },
            MonState::CreateMonitorRecv(_) => {
                if timer_fired {
                    progress = true;
                prog = true;
                    self.state = MonState::DoNothing;
                } else {
                    pending = true;
                }
            },
            MonState::Monitoring(d) => match d {
                StateDirection::Disable | StateDirection::Closing => {
                    progress = true;
                prog = true;
                    self.state = MonState::RemoveMonitorSend(d);
                },
                StateDirection::Enable => {
                    if timer_fired {
                        progress = true;
                prog = true;
                        self.state = MonState::Monitoring(d);
                    } else {
                        pending = true;
                    }
                },
                StateDirection::Unset => {},
            },
            MonState::RemoveMonitorSend(d) => {
                progress = true;
                prog = true;
                self.state = MonState::RemoveMonitorRecv(d);
                out = Some(
                    MonitoringItem::ProtoOutSubid(
                        CaMsgTy::EventCancel { data_type: self.ca_dbr_ty, count: self.ca_count, sid: self.sid, subid: 0 },
                    ),
                );
            },
            MonState::RemoveMonitorRecv(_) => {
                if timer_fired {
                    progress = true;
                prog = true;
                    self.state = MonState::DoNothing;
                } else {
                    pending = true;
                }
            },
            MonState::RemoveSubidSend(d) => {
                progress = true;
                prog = true;
                self.state = match d {
                    StateDirection::Unset | StateDirection::Disable => MonState::DoNothing,
                    StateDirection::Enable => MonState::CreateMonitorSend(StateDirection::Enable),
                    StateDirection::Closing => MonState::Closing1,
                };
                out = Some(MonitoringItem::SubidRemove(self.cid));
            },
            MonState::Closing1 => {
                progress = true;
                prog = true;
                self.inp_done = true;
                self.state = MonState::Done;
            },
            MonState::Done => {},
        }
        let r = match out {
            Some(x) => MonRound::Item(x),
            None => if progress {
                MonRound::Progress
            } else if pending {
                MonRound::Pending
            } else {
                MonRound::Finished
            },
        };
        (r, st1, prog)
    }

    fn received_value(msg: CaMsgTy) -> (r: Option<MonitoringItem>)
        ensures
            r == received_value(msg),
    {
        match msg {
            CaMsgTy::EventAddRes { data, .. } => Some(MonitoringItem::ChannelEventValue(data)),
            _ => None,
        }
    }
}

/// A subscribed monitor forwards every update it receives: in the running
/// state an update yields exactly one value carrying its data, the same as
/// the first update that confirms the subscription, and the monitor stays
/// running; so does one whose cancel is not sent yet.
pub proof fn lemma_monitor_forwards_updates(d: StateDirection, data_type: u16, sid: u32, subid: u32, data: Vec<u8>)
    ensures
        input_spec(MonState::Monitoring(d), CaMsgTy::EventAddRes { data_type, sid, subid, data }) == (
            MonState::Monitoring(d),
            Some(MonitoringItem::ChannelEventValue(data)),
        ),
        input_spec(MonState::CreateMonitorRecv(d), CaMsgTy::EventAddRes { data_type, sid, subid, data }) == (
            MonState::Monitoring(d),
            Some(MonitoringItem::ChannelEventValue(data)),
        ),
        input_spec(MonState::RemoveMonitorSend(d), CaMsgTy::EventAddRes { data_type, sid, subid, data }) == (
            MonState::RemoveMonitorSend(d),
            Some(MonitoringItem::ChannelEventValue(data)),
        ),
{
}

/// A round of a running monitor whose next message is an update hands out
/// that update's value, keeps the monitor running and takes the message.
pub proof fn lemma_monitor_round_forwards(m: FetchMonitoring, post: FetchMonitoring, r: MonRound, timer_fired: bool)
    requires
        m.state_spec() is Monitoring,
        m.inp_seq().len() > 0,
        m.inp_seq()[0].msg is EventAddRes,
        m.round_post(post, r, timer_fired),
    ensures
        m.inp_seq()[0].msg matches CaMsgTy::EventAddRes { data, .. } && r == MonRound::Item(
            MonitoringItem::ChannelEventValue(data),
        ),
        post.state_spec() == m.state_spec(),
        post.inp_seq() == m.inp_seq().drop_first(),
{
}

} // verus!
