use vstd::prelude::*;
use crate::channelheap;
use crate::channelhandler::CaMsgTy;

verus! {

/// The echo exchange that keeps a session alive, with the deadline of its
/// current phase in milliseconds.
#[derive(Debug, Clone, Copy, PartialEq, Eq, Structural)]
pub enum PingPongInfo {
    Idle(u64),
    Send(u64),
    Wait(u64),
}

/// What a running session reports of itself.
#[derive(Debug, Clone, Copy, PartialEq, Eq, Structural)]
pub struct RunningInfo {
    pub pingpong: PingPongInfo,
}

/// The state of the protocol session of a connection.
#[derive(Debug)]
pub enum StatusInfoState {
    Running(RunningInfo, channelheap::StatusInfo),
    Done,
}

#[derive(Debug)]
pub struct StatusInfo {
    pub state: StatusInfoState,
}

/// How long the keep-alive stays idle before it sends an echo.
pub const PING_IDLE_MS: u64 = 10000;

/// How long the echo request may wait to be sent.
pub const PING_SEND_MS: u64 = 4000;

/// How long the peer has to answer the echo.
pub const PING_WAIT_MS: u64 = 10000;

/// The phase of the keep-alive exchange.
#[derive(Debug, Clone, Copy, PartialEq, Eq, Structural)]
pub enum PingPhase {
    Idle,
    /// The echo request waits to be handed out, if it is still there.
    Send { has_item: bool },
    Wait,
}

/// What a step of the keep-alive exchange asks for.
#[derive(Debug, Clone, Copy, PartialEq, Eq, Structural)]
pub enum PingAction {
    Nothing,
    /// Hand out an echo request to the peer.
    EmitEcho,
    /// The peer did not answer the echo in time: the session fails.
    EchoTimeout,
    /// The echo request was lost: the session fails.
    NoItem,
}

/// The keep-alive exchange of a session: idle, then an echo request, then
/// the wait for the answer, each phase with its deadline in milliseconds.
#[derive(Debug, Clone, Copy, PartialEq, Eq, Structural)]
pub struct PingPong {
    pub phase: PingPhase,
    pub until_ms: u64,
}

/// The step of the keep-alive at `now_ms`: the next exchange, what it asks
/// for, and whether it made progress.
pub open spec fn ping_step_spec(p: PingPong, now_ms: u64) -> (PingPong, PingAction, bool) {
    let fired = now_ms >= p.until_ms;
    match p.phase {
        PingPhase::Idle => if fired {
            (
                PingPong { phase: PingPhase::Send { has_item: true }, until_ms: sat_add(now_ms, PING_SEND_MS) },
                PingAction::Nothing,
                true,
            )
        } else {
            (p, PingAction::Nothing, false)
        },
        PingPhase::Send { has_item } => if fired {
            (PingPong { phase: PingPhase::Idle, until_ms: sat_add(now_ms, PING_IDLE_MS) }, PingAction::Nothing, true)
        } else if has_item {
            (
                PingPong { phase: PingPhase::Wait, until_ms: sat_add(now_ms, PING_WAIT_MS) },
                PingAction::EmitEcho,
                true,
            )
        } else {
            (p, PingAction::NoItem, false)
        },
        PingPhase::Wait => if fired {
            (p, PingAction::EchoTimeout, true)
        } else {
            (p, PingAction::Nothing, false)
        },
    }
}

pub open spec fn sat_add(a: u64, b: u64) -> u64 {
    if a + b > u64::MAX {
        u64::MAX
    } else {
        (a + b) as u64
    }
}

impl PingPong {
    /// A fresh exchange, idle from `now_ms`.
    pub fn new_idle(now_ms: u64) -> (r: Self)
        ensures
            r == (PingPong { phase: PingPhase::Idle, until_ms: sat_add(now_ms, PING_IDLE_MS) }),
    {
        PingPong { phase: PingPhase::Idle, until_ms: now_ms.saturating_add(PING_IDLE_MS) }
    }

    /// Lets the exchange take its step at `now_ms`. Returns the action and
    /// whether there was progress.
    pub fn step(&mut self, now_ms: u64) -> (r: (PingAction, bool))
        ensures
            (*final(self), r.0, r.1) == ping_step_spec(*old(self), now_ms),
    {
        let fired = now_ms >= self.until_ms;
        match self.phase {
            PingPhase::Idle => {
                if fired {
                    *self = PingPong {
                        phase: PingPhase::Send { has_item: true },
                        until_ms: now_ms.saturating_add(PING_SEND_MS),
                    };
                    (PingAction::Nothing, true)
                } else {
                    (PingAction::Nothing, false)
                }
            },
            PingPhase::Send { has_item } => {
                if fired {
                    *self = PingPong::new_idle(now_ms);
                    (PingAction::Nothing, true)
                } else if has_item {
                    *self = PingPong { phase: PingPhase::Wait, until_ms: now_ms.saturating_add(PING_WAIT_MS) };
                    (PingAction::EmitEcho, true)
                } else {
                    (PingAction::NoItem, false)
                }
            },
            PingPhase::Wait => {
                if fired {
                    (PingAction::EchoTimeout, true)
                } else {
                    (PingAction::Nothing, false)
                }
            },
        }
    }

    /// The peer answered an echo: a waiting exchange goes back to idle.
    pub fn on_echo(&mut self, now_ms: u64)
        ensures
            *final(self) == (if old(self).phase is Wait {
                PingPong { phase: PingPhase::Idle, until_ms: sat_add(now_ms, PING_IDLE_MS) }
            } else {
                *old(self)
            }),
    {
        if let PingPhase::Wait = self.phase {
            *self = PingPong::new_idle(now_ms);
        }
    }

    /// The keep-alive as the status reports it.
    pub fn status_info(&self) -> (r: PingPongInfo)
        ensures
            r == (match self.phase {
                PingPhase::Idle => PingPongInfo::Idle(self.until_ms),
                PingPhase::Send { .. } => PingPongInfo::Send(self.until_ms),
                PingPhase::Wait => PingPongInfo::Wait(self.until_ms),
            }),
    {
        match self.phase {
            PingPhase::Idle => PingPongInfo::Idle(self.until_ms),
            PingPhase::Send { .. } => PingPongInfo::Send(self.until_ms),
            PingPhase::Wait => PingPongInfo::Wait(self.until_ms),
        }
    }
}

/// The keep-alive fails a session only for a missing answer: from idle, the
/// echo goes out once the idle time is over, the exchange then waits without
/// failing until the wait's deadline, and fails once it is past.
pub proof fn lemma_answered_echo_keeps_session(t0: u64, t1: u64, t2: u64)
    requires
        t0 + PING_IDLE_MS <= t1,
        t1 + PING_WAIT_MS <= u64::MAX,
        t1 + PING_SEND_MS <= u64::MAX,
        t1 <= t2 < t1 + PING_WAIT_MS,
    ensures
        ({
            let p0 = PingPong { phase: PingPhase::Idle, until_ms: sat_add(t0, PING_IDLE_MS) };
            let (p1, a1, _) = ping_step_spec(p0, t1);
            let (p2, a2, _) = ping_step_spec(p1, t1);
            let (p3, a3, _) = ping_step_spec(p2, t2);
            &&& a1 is Nothing
            &&& a2 is EmitEcho
            &&& a3 is Nothing
            &&& p3.phase is Wait
            &&& ping_step_spec(p3, (t1 + PING_WAIT_MS) as u64).1 is EchoTimeout
        }),
{
}

/// Where a received message goes in a session: to the channels where it
/// names one (by channel, subscription or request id), to the keep-alive
/// where it is an echo, and nowhere otherwise.
#[derive(Debug, Clone, Copy, PartialEq, Eq, Structural)]
pub enum DispatchTarget {
    ChannelHeap,
    Echo,
    Unhandled,
}

pub fn dispatch_target(has_cid: bool, has_subid: bool, has_ioid: bool, is_echo: bool) -> (r: DispatchTarget)
    ensures
        r == (if has_cid || has_subid || has_ioid {
            DispatchTarget::ChannelHeap
        } else if is_echo {
            DispatchTarget::Echo
        } else {
            DispatchTarget::Unhandled
        }),
{
    if has_cid || has_subid || has_ioid {
        DispatchTarget::ChannelHeap
    } else if is_echo {
        DispatchTarget::Echo
    } else {
        DispatchTarget::Unhandled
    }
}


/// How many items wait at most at the input of a session.
pub const ACTIVE_INP_BUF_CAP: usize = 3;

/// How many items wait at most between two stages of a session.
pub const FWD_BUF_CAP: usize = 1;

/// A received protocol message, with the ids it carries.
#[derive(Debug, Clone, PartialEq, Eq)]
pub struct CaMsg {
    pub ty: CaMsgTy,
    pub cid: Option<u32>,
    pub subid: Option<u32>,
    pub ioid: Option<u32>,
}

impl CaMsg {
    /// Whether the message names a channel by one of its ids.
    pub open spec fn names_channel(&self) -> bool {
        self.cid is Some || self.subid is Some || self.ioid is Some
    }
}

/// What a command to a session asks for.
#[derive(Debug, Clone, PartialEq, Eq)]
pub enum CaCommandKind {
    ChannelAdd(String),
    ChannelRemove(String),
    DisconnectOnIdle,
}

/// A command to a session.
#[derive(Debug, Clone, PartialEq, Eq)]
pub struct CaCommand {
    pub kind: CaCommandKind,
}

impl CaCommand {
    pub fn channel_add(name: String) -> (r: Self)
        ensures
            r.kind == CaCommandKind::ChannelAdd(name),
    {
        CaCommand { kind: CaCommandKind::ChannelAdd(name) }
    }

    pub fn channel_remove(name: String) -> (r: Self)
        ensures
            r.kind == CaCommandKind::ChannelRemove(name),
    {
        CaCommand { kind: CaCommandKind::ChannelRemove(name) }
    }

    pub fn disconnect_on_idle() -> (r: Self)
        ensures
            r.kind == CaCommandKind::DisconnectOnIdle,
    {
        CaCommand { kind: CaCommandKind::DisconnectOnIdle }
    }
}

/// An input item of a session.
#[derive(Debug, Clone, PartialEq, Eq)]
pub enum InpItem {
    CaMsg(CaMsg),
    Cmd(CaCommand),
}

/// An input item of the channel heap of a session.
#[derive(Debug, Clone, PartialEq, Eq)]
pub enum HeapInp {
    CaMsg(CaMsg),
    RemoveChannel(String),
}

/// What a command asks of the channel heap right away.
#[derive(Debug, Clone, PartialEq, Eq)]
pub enum CommandEffect {
    ChannelAdd(String),
    /// The removal waits for the heap in the session's buffer; the heap
    /// confirms it once done.
    RemoveQueued,
    DisconnectOnIdle,
}

/// Why a session fails.
#[derive(Debug, Clone, Copy, PartialEq, Eq, Structural)]
pub enum ActiveCaError {
    ChannelHeap,
    PingNoItem,
    IocEchoTimeout,
}

/// Whether a session runs, with its keep-alive, or is done.
#[derive(Debug, Clone, Copy, PartialEq, Eq, Structural)]
pub enum SessionState {
    Running(PingPong),
    Done,
}

/// The messages among input items, in order.
pub open spec fn msgs_of(s: Seq<InpItem>) -> Seq<CaMsg>
    decreases s.len(),
{
    if s.len() == 0 {
        Seq::empty()
    } else {
        msgs_of(s.drop_last()) + match s.last() {
            InpItem::CaMsg(m) => seq![m],
            InpItem::Cmd(_) => Seq::empty(),
        }
    }
}

/// The commands among input items, in order.
pub open spec fn cmds_of(s: Seq<InpItem>) -> Seq<CaCommand>
    decreases s.len(),
{
    if s.len() == 0 {
        Seq::empty()
    } else {
        cmds_of(s.drop_last()) + match s.last() {
            InpItem::CaMsg(_) => Seq::empty(),
            InpItem::Cmd(c) => seq![c],
        }
    }
}

/// The messages that name a channel, in order.
pub open spec fn channel_msgs(s: Seq<CaMsg>) -> Seq<CaMsg>
    decreases s.len(),
{
    if s.len() == 0 {
        Seq::empty()
    } else {
        channel_msgs(s.drop_last()) + if s.last().names_channel() {
            seq![s.last()]
        } else {
            Seq::empty()
        }
    }
}

/// The messages among the inputs of a channel heap, in order.
pub open spec fn heap_msgs(s: Seq<HeapInp>) -> Seq<CaMsg>
    decreases s.len(),
{
    if s.len() == 0 {
        Seq::empty()
    } else {
        heap_msgs(s.drop_last()) + match s.last() {
            HeapInp::CaMsg(m) => seq![m],
            HeapInp::RemoveChannel(_) => Seq::empty(),
        }
    }
}

proof fn lemma_msgs_of_concat(a: Seq<InpItem>, b: Seq<InpItem>)
    ensures
        msgs_of(a + b) == msgs_of(a) + msgs_of(b),
        cmds_of(a + b) == cmds_of(a) + cmds_of(b),
    decreases b.len(),
{
    if b.len() == 0 {
        assert(a + b =~= a);
        assert(msgs_of(a) + msgs_of(b) =~= msgs_of(a));
        assert(cmds_of(a) + cmds_of(b) =~= cmds_of(a));
    } else {
        lemma_msgs_of_concat(a, b.drop_last());
        assert((a + b).drop_last() =~= a + b.drop_last());
        assert((a + b).last() == b.last());
        assert(msgs_of(a + b) =~= msgs_of(a) + msgs_of(b));
        assert(cmds_of(a + b) =~= cmds_of(a) + cmds_of(b));
    }
}

proof fn lemma_channel_msgs_concat(a: Seq<CaMsg>, b: Seq<CaMsg>)
    ensures
        channel_msgs(a + b) == channel_msgs(a) + channel_msgs(b),
    decreases b.len(),
{
    if b.len() == 0 {
        assert(a + b =~= a);
        assert(channel_msgs(a) + channel_msgs(b) =~= channel_msgs(a));
    } else {
        lemma_channel_msgs_concat(a, b.drop_last());
        assert((a + b).drop_last() =~= a + b.drop_last());
        assert((a + b).last() == b.last());
        assert(channel_msgs(a + b) =~= channel_msgs(a) + channel_msgs(b));
    }
}

proof fn lemma_heap_msgs_concat(a: Seq<HeapInp>, b: Seq<HeapInp>)
    ensures
        heap_msgs(a + b) == heap_msgs(a) + heap_msgs(b),
    decreases b.len(),
{
    if b.len() == 0 {
        assert(a + b =~= a);
        assert(heap_msgs(a) + heap_msgs(b) =~= heap_msgs(a));
    } else {
        lemma_heap_msgs_concat(a, b.drop_last());
        assert((a + b).drop_last() =~= a + b.drop_last());
        assert((a + b).last() == b.last());
        assert(heap_msgs(a + b) =~= heap_msgs(a) + heap_msgs(b));
    }
}

pub proof fn lemma_one_item(x: InpItem)
    ensures
        msgs_of(seq![x]) == (match x {
            InpItem::CaMsg(m) => seq![m],
            InpItem::Cmd(_) => Seq::<CaMsg>::empty(),
        }),
        cmds_of(seq![x]) == (match x {
            InpItem::CaMsg(_) => Seq::<CaCommand>::empty(),
            InpItem::Cmd(c) => seq![c],
        }),
{
    let e = Seq::<InpItem>::empty();
    assert(seq![x].drop_last() =~= e);
    assert(msgs_of(e) =~= Seq::<CaMsg>::empty());
    assert(cmds_of(e) =~= Seq::<CaCommand>::empty());
    assert(msgs_of(seq![x]) =~= (match x {
        InpItem::CaMsg(m) => seq![m],
        InpItem::Cmd(_) => Seq::<CaMsg>::empty(),
    }));
    assert(cmds_of(seq![x]) =~= (match x {
        InpItem::CaMsg(_) => Seq::<CaCommand>::empty(),
        InpItem::Cmd(c) => seq![c],
    }));
}

proof fn lemma_one_msg(m: CaMsg)
    ensures
        channel_msgs(seq![m]) == (if m.names_channel() {
            seq![m]
        } else {
            Seq::<CaMsg>::empty()
        }),
{
    let e = Seq::<CaMsg>::empty();
    assert(seq![m].drop_last() =~= e);
    assert(channel_msgs(e) =~= e);
    assert(channel_msgs(seq![m]) =~= (if m.names_channel() {
        seq![m]
    } else {
        Seq::<CaMsg>::empty()
    }));
}

proof fn lemma_heap_push(s: Seq<HeapInp>, x: HeapInp)
    ensures
        heap_msgs(s.push(x)) == heap_msgs(s) + match x {
            HeapInp::CaMsg(m) => seq![m],
            HeapInp::RemoveChannel(_) => Seq::<CaMsg>::empty(),
        },
{
    assert(s.push(x).drop_last() =~= s);
}

/// The protocol session of a connection: its input, split into messages and
/// commands, the buffer towards its channel heap, the command in progress,
/// and its keep-alive.
pub struct ActiveCa {
    state: SessionState,
    inp_buf: Vec<InpItem>,
    inp_cmd_buf: Vec<CaCommand>,
    inp_msg_buf: Vec<CaMsg>,
    buf_for_chanheap: Vec<HeapInp>,
    cmd_busy: bool,
    msgs_in: Ghost<Seq<CaMsg>>,
    heap_out: Ghost<Seq<HeapInp>>,
    cmds_in: Ghost<Seq<CaCommand>>,
    cmds_taken: Ghost<Seq<CaCommand>>,
}

impl ActiveCa {
    pub closed spec fn state_spec(&self) -> SessionState {
        self.state
    }

    pub closed spec fn inp_seq(&self) -> Seq<InpItem> {
        self.inp_buf@
    }

    pub closed spec fn cmd_seq(&self) -> Seq<CaCommand> {
        self.inp_cmd_buf@
    }

    pub closed spec fn msg_seq(&self) -> Seq<CaMsg> {
        self.inp_msg_buf@
    }

    /// What waits to be handed to the channel heap.
    pub closed spec fn fwd_seq(&self) -> Seq<HeapInp> {
        self.buf_for_chanheap@
    }

    /// Whether a command is in progress.
    pub closed spec fn cmd_busy_spec(&self) -> bool {
        self.cmd_busy
    }

    /// Every message that the session took in.
    pub closed spec fn msgs_in(&self) -> Seq<CaMsg> {
        self.msgs_in@
    }

    /// Everything handed to the channel heap.
    pub closed spec fn heap_out(&self) -> Seq<HeapInp> {
        self.heap_out@
    }

    /// Every command that the session took in.
    pub closed spec fn cmds_in(&self) -> Seq<CaCommand> {
        self.cmds_in@
    }

    /// The commands that were carried out.
    pub closed spec fn cmds_taken(&self) -> Seq<CaCommand> {
        self.cmds_taken@
    }

    /// The buffers keep their bounds; every message that names a channel is,
    /// in the order it came in, handed to the heap or waiting on the way;
    /// every command is, in order, carried out or waiting.
    pub open spec fn wf(&self) -> bool {
        &&& self.inp_seq().len() <= ACTIVE_INP_BUF_CAP
        &&& self.cmd_seq().len() <= FWD_BUF_CAP
        &&& self.msg_seq().len() <= FWD_BUF_CAP
        &&& self.fwd_seq().len() <= FWD_BUF_CAP
        &&& channel_msgs(self.msgs_in()) == heap_msgs(self.heap_out()) + heap_msgs(self.fwd_seq())
            + channel_msgs(self.msg_seq()) + channel_msgs(msgs_of(self.inp_seq()))
        &&& self.cmds_in() == self.cmds_taken() + self.cmd_seq() + cmds_of(self.inp_seq())
    }

    /// A session as it starts at `now_ms`: running, its keep-alive idle,
    /// nothing taken in yet.
    pub open spec fn is_fresh(&self, now_ms: u64) -> bool {
        &&& self.state_spec() == SessionState::Running(
            PingPong { phase: PingPhase::Idle, until_ms: sat_add(now_ms, PING_IDLE_MS) },
        )
        &&& self.inp_seq().len() == 0
        &&& self.cmd_seq().len() == 0
        &&& self.msg_seq().len() == 0
        &&& self.fwd_seq().len() == 0
        &&& !self.cmd_busy_spec()
        &&& self.msgs_in().len() == 0
        &&& self.heap_out().len() == 0
        &&& self.cmds_in().len() == 0
        &&& self.cmds_taken().len() == 0
    }

    /// A new session, running, with its keep-alive idle from `now_ms`.
    pub fn new(now_ms: u64) -> (r: Self)
        ensures
            r.wf(),
            r.is_fresh(now_ms),
            r.state_spec() == SessionState::Running(
                PingPong { phase: PingPhase::Idle, until_ms: sat_add(now_ms, PING_IDLE_MS) },
            ),
            r.inp_seq().len() == 0,
            r.cmd_seq().len() == 0,
            r.msg_seq().len() == 0,
            r.fwd_seq().len() == 0,
            !r.cmd_busy_spec(),
            r.msgs_in().len() == 0,
            r.heap_out().len() == 0,
            r.cmds_in().len() == 0,
            r.cmds_taken().len() == 0,
    {
        let r = ActiveCa {
            state: SessionState::Running(PingPong::new_idle(now_ms)),
            inp_buf: Vec::new(),
            inp_cmd_buf: Vec::new(),
            inp_msg_buf: Vec::new(),
            buf_for_chanheap: Vec::new(),
            cmd_busy: false,
            msgs_in: Ghost(Seq::empty()),
            heap_out: Ghost(Seq::empty()),
            cmds_in: Ghost(Seq::empty()),
            cmds_taken: Ghost(Seq::empty()),
        };
        proof {
            assert(channel_msgs(r.msgs_in@) =~= heap_msgs(r.heap_out@) + heap_msgs(r.buf_for_chanheap@)
                + channel_msgs(r.inp_msg_buf@) + channel_msgs(msgs_of(r.inp_buf@)));
            assert(r.cmds_in@ =~= r.cmds_taken@ + r.inp_cmd_buf@ + cmds_of(r.inp_buf@));
        }
        r
    }

    pub fn is_done(&self) -> (r: bool)
        ensures
            r == (self.state_spec() is Done),
    {
        match self.state {
            SessionState::Done => true,
            SessionState::Running(_) => false,
        }
    }

    /// Why a dynamic command cannot be served; `None` while the session
    /// runs and its channel heap serves it.
    pub fn dyn_cmd_refusal(&self) -> (r: Option<&'static str>)
        ensures
            self.state_spec() is Running ==> r is None,
            self.state_spec() is Done ==> (r matches Some(t) && t@ == "ActiveCa  State::Done"@),
    {
        match self.state {
            SessionState::Running(_) => None,
            SessionState::Done => Some("ActiveCa  State::Done"),
        }
    }

    pub fn inp_is_space(&self) -> (r: bool)
        ensures
            r == (self.inp_seq().len() < ACTIVE_INP_BUF_CAP),
    {
        self.inp_buf.len() < ACTIVE_INP_BUF_CAP
    }

    /// Takes an input item where the input buffer has room, else hands it
    /// back.
    pub fn inp_push_try(&mut self, item: InpItem) -> (r: Option<InpItem>)
        requires
            old(self).wf(),
        ensures
            final(self).wf(),
            old(self).inp_seq().len() < ACTIVE_INP_BUF_CAP ==> {
                &&& r is None
                &&& final(self).inp_seq() == old(self).inp_seq().push(item)
                &&& final(self).msgs_in() == old(self).msgs_in() + msgs_of(seq![item])
                &&& final(self).cmds_in() == old(self).cmds_in() + cmds_of(seq![item])
                &&& final(self).state_spec() == old(self).state_spec()
                &&& final(self).cmd_seq() == old(self).cmd_seq()
                &&& final(self).msg_seq() == old(self).msg_seq()
                &&& final(self).fwd_seq() == old(self).fwd_seq()
                &&& final(self).cmd_busy_spec() == old(self).cmd_busy_spec()
                &&& final(self).heap_out() == old(self).heap_out()
                &&& final(self).cmds_taken() == old(self).cmds_taken()
            },
            old(self).inp_seq().len() >= ACTIVE_INP_BUF_CAP ==> r == Some(item) && *final(self) == *old(self),
    {
        if self.inp_buf.len() < ACTIVE_INP_BUF_CAP {
            let ghost old_inp = self.inp_buf@;
            proof {
                lemma_msgs_of_concat(old_inp, seq![item]);
                lemma_channel_msgs_concat(self.msgs_in@, msgs_of(seq![item]));
                lemma_channel_msgs_concat(msgs_of(old_inp), msgs_of(seq![item]));
                self.msgs_in = Ghost(self.msgs_in@ + msgs_of(seq![item]));
                self.cmds_in = Ghost(self.cmds_in@ + cmds_of(seq![item]));
            }
            self.inp_buf.push(item);
            proof {
                assert(old_inp.push(item) =~= old_inp + seq![item]);
                assert(channel_msgs(self.msgs_in@) =~= heap_msgs(self.heap_out@) + heap_msgs(
                    self.buf_for_chanheap@,
                ) + channel_msgs(self.inp_msg_buf@) + channel_msgs(msgs_of(self.inp_buf@)));
                assert(self.cmds_in@ =~= self.cmds_taken@ + self.inp_cmd_buf@ + cmds_of(self.inp_buf@));
            }
            None
        } else {
            Some(item)
        }
    }

    /// Moves the first input item to the message or the command buffer,
    /// where the session runs and both have room. Returns whether it did.
    pub fn pop_input(&mut self) -> (moved: bool)
        requires
            old(self).wf(),
        ensures
            final(self).wf(),
            moved == (old(self).state_spec() is Running && old(self).cmd_seq().len() < FWD_BUF_CAP
                && old(self).msg_seq().len() < FWD_BUF_CAP && old(self).inp_seq().len() > 0),
            moved ==> {
                &&& final(self).inp_seq() == old(self).inp_seq().drop_first()
                &&& match old(self).inp_seq()[0] {
                    InpItem::CaMsg(m) => final(self).msg_seq() == old(self).msg_seq().push(m)
                        && final(self).cmd_seq() == old(self).cmd_seq(),
                    InpItem::Cmd(c) => final(self).cmd_seq() == old(self).cmd_seq().push(c)
                        && final(self).msg_seq() == old(self).msg_seq(),
                }
                &&& final(self).state_spec() == old(self).state_spec()
                &&& final(self).fwd_seq() == old(self).fwd_seq()
                &&& final(self).cmd_busy_spec() == old(self).cmd_busy_spec()
                &&& final(self).msgs_in() == old(self).msgs_in()
                &&& final(self).heap_out() == old(self).heap_out()
                &&& final(self).cmds_in() == old(self).cmds_in()
                &&& final(self).cmds_taken() == old(self).cmds_taken()
            },
            !moved ==> *final(self) == *old(self),
    {
        let running = match self.state {
            SessionState::Running(_) => true,
            SessionState::Done => false,
        };
        if running && self.inp_cmd_buf.len() < FWD_BUF_CAP && self.inp_msg_buf.len() < FWD_BUF_CAP
            && self.inp_buf.len() > 0 {
            let ghost old_inp = self.inp_buf@;
            let item = self.inp_buf.remove(0);
            proof {
                assert(old_inp =~= seq![item] + self.inp_buf@);
                lemma_msgs_of_concat(seq![item], self.inp_buf@);
                lemma_one_item(item);
                assert(self.inp_buf@ =~= old_inp.drop_first());
            }
            match item {
                InpItem::CaMsg(m) => {
                    proof {
                        assert(self.inp_msg_buf@.len() == 0);
                        assert(self.inp_msg_buf@.push(m) =~= seq![m]);
                        assert(msgs_of(old_inp) =~= seq![m] + msgs_of(self.inp_buf@));
                        lemma_channel_msgs_concat(seq![m], msgs_of(self.inp_buf@));
                        assert(self.inp_msg_buf@ =~= Seq::<CaMsg>::empty());
                        assert(channel_msgs(Seq::<CaMsg>::empty()) =~= Seq::<CaMsg>::empty());
                        assert(cmds_of(old_inp) =~= cmds_of(self.inp_buf@));
                    }
                    self.inp_msg_buf.push(m);
                },
                InpItem::Cmd(c) => {
                    proof {
                        assert(self.inp_cmd_buf@.len() == 0);
                        assert(cmds_of(old_inp) =~= seq![c] + cmds_of(self.inp_buf@));
                        assert(msgs_of(old_inp) =~= msgs_of(self.inp_buf@));
                    }
                    self.inp_cmd_buf.push(c);
                },
            }
            proof {
                assert(channel_msgs(self.msgs_in@) =~= heap_msgs(self.heap_out@) + heap_msgs(
                    self.buf_for_chanheap@,
                ) + channel_msgs(self.inp_msg_buf@) + channel_msgs(msgs_of(self.inp_buf@)));
                assert(self.cmds_in@ =~= self.cmds_taken@ + self.inp_cmd_buf@ + cmds_of(self.inp_buf@));
            }
            true
        } else {
            false
        }
    }

    /// Starts the next command, where the session runs, no command is in
    /// progress and the buffer towards the heap has room: a removal is
    /// queued there, the other commands are for the heap to carry out at
    /// once. The command is then in progress until `command_done`.
    pub fn take_command(&mut self) -> (r: Option<CommandEffect>)
        requires
            old(self).wf(),
        ensures
            final(self).wf(),
            r is Some == (old(self).state_spec() is Running && !old(self).cmd_busy_spec()
                && old(self).fwd_seq().len() < FWD_BUF_CAP && old(self).cmd_seq().len() > 0),
            r is Some ==> {
                let c = old(self).cmd_seq()[0];
                &&& final(self).cmd_seq() == old(self).cmd_seq().drop_first()
                &&& final(self).cmds_taken() == old(self).cmds_taken().push(c)
                &&& final(self).cmd_busy_spec()
                &&& match c.kind {
                    CaCommandKind::ChannelAdd(name) => r == Some(CommandEffect::ChannelAdd(name))
                        && final(self).fwd_seq() == old(self).fwd_seq(),
                    CaCommandKind::ChannelRemove(name) => r == Some(CommandEffect::RemoveQueued)
                        && final(self).fwd_seq() == old(self).fwd_seq().push(HeapInp::RemoveChannel(name)),
                    CaCommandKind::DisconnectOnIdle => r == Some(CommandEffect::DisconnectOnIdle)
                        && final(self).fwd_seq() == old(self).fwd_seq(),
                }
                &&& final(self).state_spec() == old(self).state_spec()
                &&& final(self).inp_seq() == old(self).inp_seq()
                &&& final(self).msg_seq() == old(self).msg_seq()
                &&& final(self).msgs_in() == old(self).msgs_in()
                &&& final(self).heap_out() == old(self).heap_out()
                &&& final(self).cmds_in() == old(self).cmds_in()
            },
            r is None ==> *final(self) == *old(self),
    {
        let running = match self.state {
            SessionState::Running(_) => true,
            SessionState::Done => false,
        };
        if running && !self.cmd_busy && self.buf_for_chanheap.len() < FWD_BUF_CAP && self.inp_cmd_buf.len() > 0 {
            let ghost old_cmds = self.inp_cmd_buf@;
            let c = self.inp_cmd_buf.remove(0);
            proof {
                self.cmds_taken = Ghost(self.cmds_taken@.push(c));
                assert(old_cmds =~= seq![c] + self.inp_cmd_buf@);
                assert(self.cmds_in@ =~= self.cmds_taken@ + self.inp_cmd_buf@ + cmds_of(self.inp_buf@));
                assert(self.inp_cmd_buf@ =~= old_cmds.drop_first());
            }
            self.cmd_busy = true;
            let effect = match c.kind {
                CaCommandKind::ChannelAdd(name) => CommandEffect::ChannelAdd(name),
                CaCommandKind::ChannelRemove(name) => {
                    let ghost old_fwd = self.buf_for_chanheap@;
                    proof {
                        lemma_heap_push(old_fwd, HeapInp::RemoveChannel(name));
                        assert(heap_msgs(old_fwd) + Seq::<CaMsg>::empty() =~= heap_msgs(old_fwd));
                    }
                    self.buf_for_chanheap.push(HeapInp::RemoveChannel(name));
                    CommandEffect::RemoveQueued
                },
                CaCommandKind::DisconnectOnIdle => CommandEffect::DisconnectOnIdle,
            };
            Some(effect)
        } else {
            None
        }
    }

    /// The command in progress is done.
    pub fn command_done(&mut self)
        requires
            old(self).wf(),
        ensures
            final(self).wf(),
            !final(self).cmd_busy_spec(),
            final(self).state_spec() == old(self).state_spec(),
            final(self).inp_seq() == old(self).inp_seq(),
            final(self).cmd_seq() == old(self).cmd_seq(),
            final(self).msg_seq() == old(self).msg_seq(),
            final(self).fwd_seq() == old(self).fwd_seq(),
            final(self).msgs_in() == old(self).msgs_in(),
            final(self).heap_out() == old(self).heap_out(),
            final(self).cmds_in() == old(self).cmds_in(),
            final(self).cmds_taken() == old(self).cmds_taken(),
    {
        self.cmd_busy = false;
    }

    /// Hands the next received message on, where the session runs and the
    /// buffer towards the heap has room: to the heap where it names a
    /// channel, to the keep-alive where it is an echo; any other message is
    /// dropped. Returns whether a message was taken.
    pub fn dispatch(&mut self, now_ms: u64) -> (progress: bool)
        requires
            old(self).wf(),
        ensures
            final(self).wf(),
            progress == (old(self).state_spec() is Running && old(self).fwd_seq().len() < FWD_BUF_CAP
                && old(self).msg_seq().len() > 0),
            progress ==> {
                let m = old(self).msg_seq()[0];
                &&& final(self).msg_seq() == old(self).msg_seq().drop_first()
                &&& if m.names_channel() {
                    final(self).fwd_seq() == old(self).fwd_seq().push(HeapInp::CaMsg(m))
                        && final(self).state_spec() == old(self).state_spec()
                } else if m.ty is Echo {
                    final(self).fwd_seq() == old(self).fwd_seq() && match old(self).state_spec() {
                        SessionState::Running(p) => final(self).state_spec() == SessionState::Running(
                            if p.phase is Wait {
                                PingPong { phase: PingPhase::Idle, until_ms: sat_add(now_ms, PING_IDLE_MS) }
                            } else {
                                p
                            },
                        ),
                        SessionState::Done => false,
                    }
                } else {
                    final(self).fwd_seq() == old(self).fwd_seq() && final(self).state_spec()
                        == old(self).state_spec()
                }
                &&& final(self).inp_seq() == old(self).inp_seq()
                &&& final(self).cmd_seq() == old(self).cmd_seq()
                &&& final(self).cmd_busy_spec() == old(self).cmd_busy_spec()
                &&& final(self).msgs_in() == old(self).msgs_in()
                &&& final(self).heap_out() == old(self).heap_out()
                &&& final(self).cmds_in() == old(self).cmds_in()
                &&& final(self).cmds_taken() == old(self).cmds_taken()
            },
            !progress ==> *final(self) == *old(self),
    {
        let pp = match self.state {
            SessionState::Running(p) => Some(p),
            SessionState::Done => None,
        };
        match pp {
            Some(p) => {
                if self.buf_for_chanheap.len() < FWD_BUF_CAP && self.inp_msg_buf.len() > 0 {
                    let ghost old_msgs = self.inp_msg_buf@;
                    let ghost old_fwd = self.buf_for_chanheap@;
                    let m = self.inp_msg_buf.remove(0);
                    proof {
                        assert(old_msgs =~= seq![m] + self.inp_msg_buf@);
                        lemma_channel_msgs_concat(seq![m], self.inp_msg_buf@);
                        lemma_one_msg(m);
                        assert(self.inp_msg_buf@ =~= old_msgs.drop_first());
                    }
                    let target = dispatch_target(m.cid.is_some(), m.subid.is_some(), m.ioid.is_some(), match m.ty {
                        CaMsgTy::Echo => true,
                        _ => false,
                    });
                    match target {
                        DispatchTarget::ChannelHeap => {
                            proof {
                                lemma_heap_push(old_fwd, HeapInp::CaMsg(m));
                            }
                            self.buf_for_chanheap.push(HeapInp::CaMsg(m));
                        },
                        DispatchTarget::Echo => {
                            let mut p2 = p;
                            p2.on_echo(now_ms);
                            self.state = SessionState::Running(p2);
                        },
                        DispatchTarget::Unhandled => {},
                    }
                    proof {
                        assert(channel_msgs(self.msgs_in@) =~= heap_msgs(self.heap_out@) + heap_msgs(
                            self.buf_for_chanheap@,
                        ) + channel_msgs(self.inp_msg_buf@) + channel_msgs(msgs_of(self.inp_buf@)));
                    }
                    true
                } else {
                    false
                }
            },
            None => false,
        }
    }

    /// Hands what waits to the channel heap, in order, as far as the heap has
    /// room for `heap_space` items, where the session runs.
    pub fn push_to_chanheap(&mut self, heap_space: usize) -> (r: Vec<HeapInp>)
        requires
            old(self).wf(),
        ensures
            final(self).wf(),
            old(self).state_spec() is Running ==> {
                let n = if heap_space < old(self).fwd_seq().len() {
                    heap_space as int
                } else {
                    old(self).fwd_seq().len() as int
                };
                &&& r@ == old(self).fwd_seq().take(n)
                &&& final(self).fwd_seq() == old(self).fwd_seq().skip(n)
                &&& final(self).heap_out() == old(self).heap_out() + r@
                &&& final(self).state_spec() == old(self).state_spec()
                &&& final(self).inp_seq() == old(self).inp_seq()
                &&& final(self).cmd_seq() == old(self).cmd_seq()
                &&& final(self).msg_seq() == old(self).msg_seq()
                &&& final(self).cmd_busy_spec() == old(self).cmd_busy_spec()
                &&& final(self).msgs_in() == old(self).msgs_in()
                &&& final(self).cmds_in() == old(self).cmds_in()
                &&& final(self).cmds_taken() == old(self).cmds_taken()
            },
            old(self).state_spec() is Done ==> r@.len() == 0 && *final(self) == *old(self),
    {
        let mut r: Vec<HeapInp> = Vec::new();
        if self.is_done() {
            return r;
        }
        let ghost fwd0 = self.buf_for_chanheap@;
        let ghost out0 = self.heap_out@;
        while r.len() < heap_space && self.buf_for_chanheap.len() > 0
            invariant
                fwd0 == r@ + self.buf_for_chanheap@,
                self.heap_out@ == out0 + r@,
                fwd0 == old(self).buf_for_chanheap@,
                out0 == old(self).heap_out@,
                self.state == old(self).state,
                self.inp_buf@ == old(self).inp_buf@,
                self.inp_cmd_buf@ == old(self).inp_cmd_buf@,
                self.inp_msg_buf@ == old(self).inp_msg_buf@,
                self.cmd_busy == old(self).cmd_busy,
                self.msgs_in@ == old(self).msgs_in@,
                self.cmds_in@ == old(self).cmds_in@,
                self.cmds_taken@ == old(self).cmds_taken@,
                r@.len() <= heap_space,
                self.inp_buf@.len() <= ACTIVE_INP_BUF_CAP,
                self.inp_cmd_buf@.len() <= FWD_BUF_CAP,
                self.inp_msg_buf@.len() <= FWD_BUF_CAP,
                fwd0.len() <= FWD_BUF_CAP,
                channel_msgs(self.msgs_in@) == heap_msgs(out0) + heap_msgs(fwd0) + channel_msgs(
                    self.inp_msg_buf@,
                ) + channel_msgs(msgs_of(self.inp_buf@)),
                self.cmds_in@ == self.cmds_taken@ + self.inp_cmd_buf@ + cmds_of(self.inp_buf@),
            decreases self.buf_for_chanheap@.len(),
        {
            let ghost before = self.buf_for_chanheap@;
            let x = self.buf_for_chanheap.remove(0);
            proof {
                assert(before =~= seq![x] + self.buf_for_chanheap@);
                self.heap_out = Ghost(self.heap_out@.push(x));
            }
            r.push(x);
            proof {
                assert(fwd0 =~= r@ + self.buf_for_chanheap@);
            }
        }
        proof {
            lemma_heap_msgs_concat(out0, r@);
            lemma_heap_msgs_concat(r@, self.buf_for_chanheap@);
            assert(channel_msgs(self.msgs_in@) =~= heap_msgs(self.heap_out@) + heap_msgs(self.buf_for_chanheap@)
                + channel_msgs(self.inp_msg_buf@) + channel_msgs(msgs_of(self.inp_buf@)));
            let n = if heap_space < fwd0.len() {
                heap_space as int
            } else {
                fwd0.len() as int
            };
            assert(r@.len() == n);
            assert(r@ =~= fwd0.take(n));
            assert(self.buf_for_chanheap@ =~= fwd0.skip(n));
        }
        r
    }

    /// Lets the keep-alive take its step at `now_ms`, where the session runs:
    /// an echo request to send, nothing, or the failure of the session, which
    /// is then done.
    pub fn ping(&mut self, now_ms: u64) -> (r: Result<Option<CaMsg>, ActiveCaError>)
        requires
            old(self).wf(),
        ensures
            final(self).wf(),
            match old(self).state_spec() {
                SessionState::Running(p) => {
                    let (p2, a, _) = ping_step_spec(p, now_ms);
                    match a {
                        PingAction::EmitEcho => r == Ok::<Option<CaMsg>, ActiveCaError>(
                            Some(CaMsg { ty: CaMsgTy::Echo, cid: None, subid: None, ioid: None }),
                        ) && final(self).state_spec() == SessionState::Running(p2),
                        PingAction::Nothing => r == Ok::<Option<CaMsg>, ActiveCaError>(None)
                            && final(self).state_spec() == SessionState::Running(p2),
                        PingAction::EchoTimeout => r == Err::<Option<CaMsg>, ActiveCaError>(
                            ActiveCaError::IocEchoTimeout,
                        ) && final(self).state_spec() is Done,
                        PingAction::NoItem => r == Err::<Option<CaMsg>, ActiveCaError>(ActiveCaError::PingNoItem)
                            && final(self).state_spec() is Done,
                    }
                },
                SessionState::Done => r == Ok::<Option<CaMsg>, ActiveCaError>(None) && final(self).state_spec()
                    is Done,
            },
            final(self).inp_seq() == old(self).inp_seq(),
            final(self).cmd_seq() == old(self).cmd_seq(),
            final(self).msg_seq() == old(self).msg_seq(),
            final(self).fwd_seq() == old(self).fwd_seq(),
            final(self).cmd_busy_spec() == old(self).cmd_busy_spec(),
            final(self).msgs_in() == old(self).msgs_in(),
            final(self).heap_out() == old(self).heap_out(),
            final(self).cmds_in() == old(self).cmds_in(),
            final(self).cmds_taken() == old(self).cmds_taken(),
    {
        match self.state {
            SessionState::Running(p) => {
                let mut p2 = p;
                let (a, _progress) = p2.step(now_ms);
                match a {
                    PingAction::EmitEcho => {
                        self.state = SessionState::Running(p2);
                        Ok(Some(CaMsg { ty: CaMsgTy::Echo, cid: None, subid: None, ioid: None }))
                    },
                    PingAction::Nothing => {
                        self.state = SessionState::Running(p2);
                        Ok(None)
                    },
                    PingAction::EchoTimeout => {
                        self.state = SessionState::Done;
                        Err(ActiveCaError::IocEchoTimeout)
                    },
                    PingAction::NoItem => {
                        self.state = SessionState::Done;
                        Err(ActiveCaError::PingNoItem)
                    },
                }
            },
            SessionState::Done => Ok(None),
        }
    }

    /// The channel heap ended or failed: the session is done.
    pub fn on_heap_end(&mut self)
        requires
            old(self).wf(),
        ensures
            final(self).wf(),
            final(self).state_spec() is Done,
            final(self).inp_seq() == old(self).inp_seq(),
            final(self).cmd_seq() == old(self).cmd_seq(),
            final(self).msg_seq() == old(self).msg_seq(),
            final(self).fwd_seq() == old(self).fwd_seq(),
            final(self).cmd_busy_spec() == old(self).cmd_busy_spec(),
            final(self).msgs_in() == old(self).msgs_in(),
            final(self).heap_out() == old(self).heap_out(),
            final(self).cmds_in() == old(self).cmds_in(),
            final(self).cmds_taken() == old(self).cmds_taken(),
    {
        self.state = SessionState::Done;
    }

    /// The status of the session, with that of its channel heap.
    pub fn status_info(&self, heap: channelheap::StatusInfo) -> (r: StatusInfo)
        ensures
            match self.state_spec() {
                SessionState::Running(p) => r.state matches StatusInfoState::Running(ri, h) && h == heap
                    && ri.pingpong == (match p.phase {
                    PingPhase::Idle => PingPongInfo::Idle(p.until_ms),
                    PingPhase::Send { .. } => PingPongInfo::Send(p.until_ms),
                    PingPhase::Wait => PingPongInfo::Wait(p.until_ms),
                }),
                SessionState::Done => r.state is Done,
            },
    {
        match self.state {
            SessionState::Running(p) => StatusInfo {
                state: StatusInfoState::Running(RunningInfo { pingpong: p.status_info() }, heap),
            },
            SessionState::Done => StatusInfo { state: StatusInfoState::Done },
        }
    }
}

/// A session hands the channel heap the messages that name a channel in the
/// order it took them in, none twice and none left out: what it handed so
/// far is a prefix of them, and once its buffers are empty, all of them.
pub proof fn lemma_session_keeps_message_order(s: ActiveCa)
    requires
        s.wf(),
    ensures
        heap_msgs(s.heap_out()).len() <= channel_msgs(s.msgs_in()).len(),
        heap_msgs(s.heap_out()) == channel_msgs(s.msgs_in()).take(heap_msgs(s.heap_out()).len() as int),
        s.inp_seq().len() == 0 && s.msg_seq().len() == 0 && s.fwd_seq().len() == 0 ==> heap_msgs(s.heap_out())
            == channel_msgs(s.msgs_in()),
{
    let a = heap_msgs(s.heap_out());
    let rest = heap_msgs(s.fwd_seq()) + channel_msgs(s.msg_seq()) + channel_msgs(msgs_of(s.inp_seq()));
    assert(channel_msgs(s.msgs_in()) =~= a + rest);
    assert((a + rest).take(a.len() as int) =~= a);
    if s.inp_seq().len() == 0 && s.msg_seq().len() == 0 && s.fwd_seq().len() == 0 {
        assert(s.inp_seq() =~= Seq::<InpItem>::empty());
        assert(s.msg_seq() =~= Seq::<CaMsg>::empty());
        assert(s.fwd_seq() =~= Seq::<HeapInp>::empty());
        assert(rest =~= Seq::<CaMsg>::empty());
        assert(a + rest =~= a);
    }
}

/// A session carries out the commands in the order it took them in.
pub proof fn lemma_session_keeps_command_order(s: ActiveCa)
    requires
        s.wf(),
    ensures
        s.cmds_taken() == s.cmds_in().take(s.cmds_taken().len() as int),
{
    let t = s.cmds_taken();
    let rest = s.cmd_seq() + cmds_of(s.inp_seq());
    assert(s.cmds_in() =~= t + rest);
    assert((t + rest).take(t.len() as int) =~= t);
}

} // verus!
