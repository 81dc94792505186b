use std::collections::VecDeque;
use vstd::prelude::*;
use crate::conf::ChannelConfig;

verus! {

/// How many protocol messages wait at most in the input buffer of a handler.
pub const INP_BUF_CAP: usize = 64;

/// How long a handler waits for the answer to its close request.
pub const CLOSE_RES_TIMEOUT_MS: u64 = 2000;

/// Why a channel was closed, as recorded in its status series.
#[derive(Debug, Clone, Copy, PartialEq, Eq)]
pub enum ChannelStatusClosedReason {
    ProtocolError,
    NoProtocol,
    ChannelRemove,
    ProtocolDone,
}

/// Why a channel handler closes.
#[derive(Debug, Clone, PartialEq, Eq)]
pub enum ClosingReason {
    ErrorMsg(String),
    InputDone,
    Command,
    PeerClosed,
}

impl ClosingReason {
    pub open spec fn closed_reason_spec(&self) -> ChannelStatusClosedReason {
        match self {
            ClosingReason::ErrorMsg(_) => ChannelStatusClosedReason::ProtocolError,
            ClosingReason::InputDone => ChannelStatusClosedReason::NoProtocol,
            ClosingReason::Command => ChannelStatusClosedReason::ChannelRemove,
            ClosingReason::PeerClosed => ChannelStatusClosedReason::ProtocolDone,
        }
    }

    pub fn to_channel_status_closed_reason(&self) -> (r: ChannelStatusClosedReason)
        ensures
            r == self.closed_reason_spec(),
    {
        match self {
            ClosingReason::ErrorMsg(_) => ChannelStatusClosedReason::ProtocolError,
            ClosingReason::InputDone => ChannelStatusClosedReason::NoProtocol,
            ClosingReason::Command => ChannelStatusClosedReason::ChannelRemove,
            ClosingReason::PeerClosed => ChannelStatusClosedReason::ProtocolDone,
        }
    }

    pub open spec fn no_more_protocol_spec(&self) -> bool {
        self is InputDone || self is PeerClosed
    }

    /// Whether no more protocol traffic can be exchanged for the channel.
    pub fn no_more_protocol(&self) -> (r: bool)
        ensures
            r == self.no_more_protocol_spec(),
    {
        match self {
            ClosingReason::ErrorMsg(_) => false,
            ClosingReason::InputDone => true,
            ClosingReason::Command => false,
            ClosingReason::PeerClosed => true,
        }
    }
}

/// The kind of a channel-access protocol message, as far as a handler cares.
#[derive(Debug, Clone, PartialEq, Eq)]
pub enum CaMsgTy {
    ChannelCloseRes { sid: u32, cid: u32 },
    ChannelDisconnect { cid: u32 },
    ChannelClose { sid: u32, cid: u32 },
    EventAddResEmpty { data_type: u16, sid: u32, subid: u32 },
    /// A monitor update, with the encoded value.
    EventAddRes { data_type: u16, sid: u32, subid: u32, data: Vec<u8> },
    EventCancelRes { sid: u32, subid: u32 },
    /// A subscription request: type, element count, server id, subscription id.
    EventAdd { data_type: u16, count: u32, sid: u32, subid: u32 },
    /// The cancel of a subscription.
    EventCancel { data_type: u16, count: u32, sid: u32, subid: u32 },
    /// A one-time read request.
    ReadNotify { data_type: u16, count: u32, sid: u32, ioid: u32 },
    /// The answer to a one-time read, with the encoded value and, for an
    /// enum channel read with its control type, the names of its variants.
    ReadNotifyRes { data_type: u16, count: u32, sid: u32, ioid: u32, data: Vec<u8>, variants: Option<Vec<String>> },
    /// The keep-alive echo of a session.
    Echo,
    Other,
}

impl CaMsgTy {
    /// Whether the message belongs to the closing of the channel.
    pub open spec fn is_close_protocol(&self) -> bool {
        self is ChannelCloseRes || self is ChannelDisconnect || self is ChannelClose
    }
}

/// A protocol message received for a channel.
#[derive(Debug, Clone, PartialEq, Eq)]
pub struct ProtoRxItem {
    pub msg: CaMsgTy,
}

/// The state of a channel handler.
#[derive(Debug, Clone, Copy, PartialEq, Eq)]
pub enum HandlerState {
    Init,
    Creating,
    ReadEnum,
    Running,
    CloseSend,
    CloseWait,
    Done1,
    Done,
}

impl HandlerState {
    pub open spec fn name_spec(&self) -> Seq<char> {
        match self {
            HandlerState::Init => "Init"@,
            HandlerState::Creating => "Creating"@,
            HandlerState::ReadEnum => "ReadEnum"@,
            HandlerState::Running => "Running"@,
            HandlerState::CloseSend => "CloseSend"@,
            HandlerState::CloseWait => "CloseWait"@,
            HandlerState::Done1 => "Done1"@,
            HandlerState::Done => "Done"@,
        }
    }

    /// The short name of the state.
    pub fn name_short(&self) -> (r: &'static str)
        ensures
            r@ == self.name_spec(),
    {
        match self {
            HandlerState::Init => "Init",
            HandlerState::Creating => "Creating",
            HandlerState::ReadEnum => "ReadEnum",
            HandlerState::Running => "Running",
            HandlerState::CloseSend => "CloseSend",
            HandlerState::CloseWait => "CloseWait",
            HandlerState::Done1 => "Done1",
            HandlerState::Done => "Done",
        }
    }

    /// Whether a sub-handler (create, read-enum, running) owns the channel.
    pub open spec fn has_sub(&self) -> bool {
        self is Creating || self is ReadEnum || self is Running
    }

    /// Whether the state belongs to the close sequence.
    pub open spec fn is_closing_state(&self) -> bool {
        self is CloseSend || self is CloseWait || self is Done1 || self is Done
    }
}

/// What a channel handler hands to its connection.
#[derive(Debug, Clone, PartialEq, Eq)]
pub enum HandlerOut {
    ChannelStatusClosed(ChannelStatusClosedReason),
    ProtoOut(CaMsgTy),
    /// The channel got created, after this many nanoseconds.
    TraceCreated(u64),
}

/// Counters of a channel handler.
#[derive(Debug, Clone, Copy, PartialEq, Eq)]
pub struct Counters {
    pub event_add_res_cnt: u64,
}

impl Counters {
    fn new() -> (r: Self)
        ensures
            r.event_add_res_cnt == 0,
    {
        Counters { event_add_res_cnt: 0 }
    }

    pub fn zero() -> (r: Self)
        ensures
            r.event_add_res_cnt == 0,
    {
        Self::new()
    }
}

/// The state, closing reason, removal flag and output queue of a handler
/// after a command, and whether the sub-handler must be told to close: a
/// removal of a handler that is not done and not yet removing starts the
/// close sequence for the command, unless one runs already.
pub open spec fn after_cmd(
    st: HandlerState,
    closing: Option<ClosingReason>,
    removing: bool,
    out: Seq<HandlerOut>,
    cmd: Cmd,
) -> (HandlerState, Option<ClosingReason>, bool, Seq<HandlerOut>, bool) {
    if st is Done || cmd is ChannelHandlerStatus || removing {
        (st, closing, removing, out, false)
    } else if closing is Some {
        (st, closing, true, out, false)
    } else {
        (
            if st is Init {
                HandlerState::Done1
            } else {
                st
            },
            Some(ClosingReason::Command),
            true,
            out.push(HandlerOut::ChannelStatusClosed(ChannelStatusClosedReason::ChannelRemove)),
            st.has_sub(),
        )
    }
}

/// What one round of a handler's loop gives.
#[derive(Debug, Clone, PartialEq, Eq)]
pub enum HandlerRound {
    /// An item of the output queue.
    Out(HandlerOut),
    Progress,
    Pending,
    Finished,
    /// The state's step is the sub-handler's.
    Sub,
}

/// The outcome of one round of a handler's loop: what it gives, the command
/// when it was not taken, whether the sub-handler must be told to close,
/// whether a removal waits for the confirmation, and the messages passed to
/// the sub-handler.
#[derive(Debug)]
pub struct HandlerStep {
    pub round: HandlerRound,
    pub cmd_back: Option<Cmd>,
    pub forward_close: bool,
    pub notify_removing: bool,
    /// The messages passed to the sub-handler.
    pub to_sub: Vec<ProtoRxItem>,
}

/// A command to a channel handler.
#[derive(Debug, Clone, Copy, PartialEq, Eq)]
pub enum Cmd {
    Remove,
    ChannelHandlerStatus,
}

/// Consume a message that belongs to the close protocol, and note what it says.
/// Every message taken from the input buffer passes through here.
pub fn intercept_close_msg(
    item: ProtoRxItem,
    closing: &Option<ClosingReason>,
    peer_closed: &mut bool,
    chan_close_ack: &mut bool,
) -> (r: Option<ProtoRxItem>)
    ensures
        r is None <==> item.msg.is_close_protocol(),
        r matches Some(x) ==> x == item,
        *final(chan_close_ack) == (*old(chan_close_ack) || item.msg is ChannelCloseRes),
        *final(peer_closed) == (*old(peer_closed) || (item.msg is ChannelCloseRes && closing is None)
            || item.msg is ChannelDisconnect || item.msg is ChannelClose),
{
    match &item.msg {
        CaMsgTy::ChannelCloseRes { .. } => {
            *chan_close_ack = true;
            if closing.is_none() {
                *peer_closed = true;
            }
            None
        },
        CaMsgTy::ChannelDisconnect { .. } => {
            *peer_closed = true;
            None
        },
        CaMsgTy::ChannelClose { .. } => {
            *peer_closed = true;
            None
        },
        _ => Some(item),
    }
}

/// Whether an output item is a close request to the peer.
pub open spec fn is_close_cmd(x: HandlerOut) -> bool {
    x matches HandlerOut::ProtoOut(CaMsgTy::ChannelClose { .. })
}

/// How many close requests a sequence of output items holds.
pub open spec fn close_cmds(s: Seq<HandlerOut>) -> nat
    decreases s.len(),
{
    if s.len() == 0 {
        0
    } else {
        close_cmds(s.drop_last()) + if is_close_cmd(s.last()) {
            1nat
        } else {
            0nat
        }
    }
}

pub proof fn lemma_close_cmds_push(s: Seq<HandlerOut>, x: HandlerOut)
    ensures
        close_cmds(s.push(x)) == close_cmds(s) + if is_close_cmd(x) {
            1nat
        } else {
            0nat
        },
{
    assert(s.push(x).drop_last() =~= s);
}

pub proof fn lemma_close_cmds_front(s: Seq<HandlerOut>)
    requires
        s.len() > 0,
    ensures
        close_cmds(s) == close_cmds(s.subrange(1, s.len() as int)) + if is_close_cmd(s[0]) {
            1nat
        } else {
            0nat
        },
    decreases s.len(),
{
    if s.len() > 1 {
        let d = s.drop_last();
        lemma_close_cmds_front(d);
        assert(d.subrange(1, d.len() as int) =~= s.subrange(1, s.len() as int).drop_last());
        assert(s.subrange(1, s.len() as int).last() == s.last());
    } else {
        assert(s.drop_last() =~= Seq::<HandlerOut>::empty());
        assert(s.subrange(1, s.len() as int) =~= Seq::<HandlerOut>::empty());
    }
}

/// The position of the first message of `s` that is not part of the close
/// protocol, or the length of `s` where there is none.
pub open spec fn first_data(s: Seq<ProtoRxItem>) -> int
    decreases s.len(),
{
    if s.len() == 0 {
        0
    } else if !s[0].msg.is_close_protocol() {
        0
    } else {
        1 + first_data(s.drop_first())
    }
}

pub proof fn lemma_first_data_unique(s: Seq<ProtoRxItem>, k: int)
    requires
        0 <= k <= s.len(),
        k < s.len() ==> !s[k].msg.is_close_protocol(),
        forall|j: int| 0 <= j < k ==> (#[trigger] s[j]).msg.is_close_protocol(),
    ensures
        first_data(s) == k,
    decreases s.len(),
{
    if s.len() > 0 && k > 0 {
        let t = s.drop_first();
        assert(s[0].msg.is_close_protocol());
        assert forall|j: int| 0 <= j < k - 1 implies (#[trigger] t[j]).msg.is_close_protocol() by {
            assert(t[j] == s[j + 1]);
        }
        lemma_first_data_unique(t, k - 1);
    }
}

/// Whether some message of `s` is a close acknowledgement.
pub open spec fn has_close_res(s: Seq<ProtoRxItem>) -> bool {
    exists|k: int| 0 <= k < s.len() && #[trigger] s[k].msg is ChannelCloseRes
}

/// Whether some message of `s` tells that the peer closed the channel.
pub open spec fn has_peer_close(s: Seq<ProtoRxItem>, closing_none: bool) -> bool {
    exists|k: int|
        0 <= k < s.len() && ((#[trigger] s[k].msg is ChannelCloseRes && closing_none)
            || s[k].msg is ChannelDisconnect || s[k].msg is ChannelClose)
}

/// The messages of `s` that are no part of the closing of the channel, in
/// order: those a sub-handler gets.
pub open spec fn data_of(s: Seq<ProtoRxItem>) -> Seq<ProtoRxItem>
    decreases s.len(),
{
    if s.len() == 0 {
        Seq::empty()
    } else if s.last().msg.is_close_protocol() {
        data_of(s.drop_last())
    } else {
        data_of(s.drop_last()).push(s.last())
    }
}

/// What one more message adds to the close facts of a prefix.
pub proof fn lemma_flags_step(s: Seq<ProtoRxItem>, k: int, cn: bool)
    requires
        0 <= k < s.len(),
    ensures
        has_close_res(s.subrange(0, k + 1)) == (has_close_res(s.subrange(0, k)) || s[k].msg is ChannelCloseRes),
        has_peer_close(s.subrange(0, k + 1), cn) == (has_peer_close(s.subrange(0, k), cn) || (s[k].msg is ChannelCloseRes
            && cn) || s[k].msg is ChannelDisconnect || s[k].msg is ChannelClose),
{
    let a = s.subrange(0, k);
    let b = s.subrange(0, k + 1);
    let it = s[k];
    assert(b[k] == it);
    if has_close_res(a) {
        let j = choose|j: int| 0 <= j < a.len() && #[trigger] a[j].msg is ChannelCloseRes;
        assert(b[j] == a[j]);
    }
    if has_close_res(b) {
        let j = choose|j: int| 0 <= j < b.len() && #[trigger] b[j].msg is ChannelCloseRes;
        if j < k {
            assert(a[j] == b[j]);
        }
    }
    if has_peer_close(a, cn) {
        let j = choose|j: int| 0 <= j < a.len() && ((#[trigger] a[j].msg is ChannelCloseRes && cn)
            || a[j].msg is ChannelDisconnect || a[j].msg is ChannelClose);
        assert(b[j] == a[j]);
    }
    if has_peer_close(b, cn) {
        let j = choose|j: int| 0 <= j < b.len() && ((#[trigger] b[j].msg is ChannelCloseRes && cn)
            || b[j].msg is ChannelDisconnect || b[j].msg is ChannelClose);
        if j < k {
            assert(a[j] == b[j]);
        }
    }
}

/// Empty the input buffer while closing: close-protocol messages are noted,
/// everything else is discarded. Returns whether anything was there.
pub fn drain_inp_closing(
    buf: &mut VecDeque<ProtoRxItem>,
    closing: &Option<ClosingReason>,
    peer_closed: &mut bool,
    chan_close_ack: &mut bool,
) -> (r: bool)
    ensures
        final(buf)@.len() == 0,
        r == (old(buf)@.len() > 0),
        *final(chan_close_ack) == (*old(chan_close_ack) || has_close_res(old(buf)@)),
        *final(peer_closed) == (*old(peer_closed) || has_peer_close(old(buf)@, closing is None)),
{
    let ghost s = buf@;
    let mut any = false;
    let ghost mut k: int = 0;
    while buf.len() > 0
        invariant
            0 <= k <= s.len(),
            buf@ == s.subrange(k, s.len() as int),
            any == (k > 0),
            *chan_close_ack == (*old(chan_close_ack) || has_close_res(s.subrange(0, k))),
            *peer_closed == (*old(peer_closed) || has_peer_close(s.subrange(0, k), closing is None)),
        decreases buf@.len(),
    {
        match buf.pop_front() {
            Some(item) => {
                any = true;
                let ghost it = item;
                let _discarded = intercept_close_msg(item, closing, peer_closed, chan_close_ack);
                proof {
                    assert(s[k] == it);
                    lemma_flags_step(s, k, closing is None);
                    k = k + 1;
                }
            },
            None => {},
        }
    }
    proof {
        assert(s.subrange(0, k) =~= s);
    }
    any
}

/// Record that the channel closes: the first reason wins, and the closed
/// status is queued once.
fn note_closing(closing: &mut Option<ClosingReason>, outbuf: &mut VecDeque<HandlerOut>, reason: ClosingReason)
    ensures
        old(closing).is_some() ==> *final(closing) == *old(closing) && final(outbuf)@ == old(outbuf)@,
        old(closing).is_none() ==> *final(closing) == Some(reason) && final(outbuf)@ == old(outbuf)@.push(
            HandlerOut::ChannelStatusClosed(reason.closed_reason_spec()),
        ),
        close_cmds(final(outbuf)@) == close_cmds(old(outbuf)@),
{
    proof {
        lemma_close_cmds_push(outbuf@, HandlerOut::ChannelStatusClosed(reason.closed_reason_spec()));
    }
    if closing.is_some() {
        return;
    }
    outbuf.push_back(HandlerOut::ChannelStatusClosed(reason.to_channel_status_closed_reason()));
    *closing = Some(reason);
}

/// `VecDeque::capacity`: how many items the queue holds without
/// reallocating. The contract claims only that this is at least its length;
/// the exact value is what the allocator gave.
#[verifier::external_body]
fn deque_capacity<T>(q: &VecDeque<T>) -> (r: usize)
    ensures
        r >= q@.len(),
{
    q.capacity()
}

/// Length and capacity of a buffer.
#[derive(Debug, Clone, Copy, PartialEq, Eq)]
pub struct LenCap {
    pub len: usize,
    pub cap: usize,
}

/// A snapshot of a channel handler.
#[derive(Debug, Clone, PartialEq, Eq)]
pub struct StatusInfo {
    pub state_short: String,
    pub state_elapsed_ms: u64,
    pub proto_inp_buf: LenCap,
    pub outbuf: LenCap,
    pub enum_variants_len: Option<u32>,
    pub counters: Counters,
}

/// The decisions of one channel of a connection: it forwards protocol
/// messages to the sub-handler of its current phase and runs the close
/// sequence.
pub struct ChannelHandler {
    state: HandlerState,
    removing: bool,
    cid: u32,
    sid: Option<u32>,
    closing: Option<ClosingReason>,
    peer_closed: bool,
    chan_close_ack: bool,
    backend: String,
    conf: ChannelConfig,
    enum_variants: Option<Vec<String>>,
    proto_inp_buf: VecDeque<ProtoRxItem>,
    proto_inp_done: bool,
    counters: Counters,
    outbuf: VecDeque<HandlerOut>,
    /// How many closed statuses were queued so far.
    closed_emitted: Ghost<nat>,
    /// How many close requests were sent to the peer so far.
    close_sent: Ghost<nat>,
    /// How many close requests were handed out of the output queue so far.
    close_handed: Ghost<nat>,
}

impl ChannelHandler {
    /// Whether `post` keeps what `self` knows of the channel and its input:
    /// its ids other than the server id, the flags of the close protocol,
    /// the input queue, the counters and the configuration.
    pub open spec fn keeps_io(self, post: Self) -> bool {
        &&& post.cid_spec() == self.cid_spec()
        &&& post.peer_closed_spec() == self.peer_closed_spec()
        &&& post.ack_spec() == self.ack_spec()
        &&& post.inp_done_spec() == self.inp_done_spec()
        &&& post.inp_buf() == self.inp_buf()
        &&& post.counters_spec() == self.counters_spec()
        &&& post.conf_spec() == self.conf_spec()
        &&& post.backend_spec() == self.backend_spec()
    }

    pub closed spec fn state_spec(self) -> HandlerState {
        self.state
    }

    pub closed spec fn closing_spec(self) -> Option<ClosingReason> {
        self.closing
    }

    pub closed spec fn sid_spec(self) -> Option<u32> {
        self.sid
    }

    pub closed spec fn cid_spec(self) -> u32 {
        self.cid
    }

    pub closed spec fn peer_closed_spec(self) -> bool {
        self.peer_closed
    }

    pub closed spec fn ack_spec(self) -> bool {
        self.chan_close_ack
    }

    pub closed spec fn inp_done_spec(self) -> bool {
        self.proto_inp_done
    }

    pub closed spec fn removing_spec(self) -> bool {
        self.removing
    }

    pub closed spec fn has_enum_variants(self) -> bool {
        self.enum_variants is Some
    }

    pub closed spec fn counters_spec(self) -> Counters {
        self.counters
    }

    pub closed spec fn inp_buf(self) -> Seq<ProtoRxItem> {
        self.proto_inp_buf@
    }

    pub closed spec fn out_seq(self) -> Seq<HandlerOut> {
        self.outbuf@
    }

    /// How many closed statuses were queued so far.
    pub closed spec fn closed_emitted(self) -> nat {
        self.closed_emitted@
    }

    /// How many close requests were sent to the peer so far.
    pub closed spec fn close_sent(self) -> nat {
        self.close_sent@
    }

    /// How many close requests were handed out of the output queue so far.
    pub closed spec fn close_handed(self) -> nat {
        self.close_handed@
    }

    pub closed spec fn wf(self) -> bool {
        &&& self.close_sent@ == self.close_handed@ + close_cmds(self.outbuf@)
        &&& self.closed_emitted@ == (if self.closing is Some { 1nat } else { 0nat })
        &&& self.close_sent@ <= 1
        &&& self.close_sent@ == 1 ==> (self.state is CloseWait || self.state is Done1 || self.state is Done)
        &&& (self.state is CloseSend || self.state is CloseWait) ==> self.closing is Some
        &&& self.state is CloseSend ==> self.sid is Some && !self.peer_closed && !self.proto_inp_done
            && self.close_sent@ == 0
        &&& self.proto_inp_buf@.len() <= INP_BUF_CAP
    }

    pub fn new(backend: String, conf: ChannelConfig, cid: u32) -> (r: Self)
        ensures
            r.wf(),
            r.state_spec() == HandlerState::Init,
            r.closing_spec() is None,
            r.sid_spec() is None,
            r.cid_spec() == cid,
            !r.peer_closed_spec(),
            !r.ack_spec(),
            !r.inp_done_spec(),
            !r.removing_spec(),
            r.inp_buf().len() == 0,
            r.out_seq().len() == 0,
            r.closed_emitted() == 0,
            r.close_sent() == 0,
            r.close_handed() == 0,
            r.name_spec() == conf.name_spec(),
            r.conf_spec() == conf,
            r.backend_spec() == backend@,
            r.counters_spec() == (Counters { event_add_res_cnt: 0 }),
            !r.has_enum_variants(),
    {
        ChannelHandler {
            state: HandlerState::Init,
            removing: false,
            cid,
            sid: None,
            closing: None,
            peer_closed: false,
            chan_close_ack: false,
            backend,
            conf,
            enum_variants: None,
            proto_inp_buf: VecDeque::with_capacity(INP_BUF_CAP),
            proto_inp_done: false,
            counters: Counters::new(),
            outbuf: VecDeque::new(),
            closed_emitted: Ghost(0),
            close_sent: Ghost(0),
            close_handed: Ghost(0),
        }
    }

    pub fn state(&self) -> (r: HandlerState)
        ensures
            r == self.state_spec(),
    {
        self.state
    }

    pub fn closing(&self) -> (r: &Option<ClosingReason>)
        ensures
            *r == self.closing_spec(),
    {
        &self.closing
    }

    pub fn removing(&self) -> (r: bool)
        ensures
            r == self.removing_spec(),
    {
        self.removing
    }

    pub fn peer_closed(&self) -> (r: bool)
        ensures
            r == self.peer_closed_spec(),
    {
        self.peer_closed
    }

    pub fn chan_close_ack(&self) -> (r: bool)
        ensures
            r == self.ack_spec(),
    {
        self.chan_close_ack
    }

    pub fn cid(&self) -> (r: u32)
        ensures
            r == self.cid_spec(),
    {
        self.cid
    }

    pub fn sid(&self) -> (r: Option<u32>)
        ensures
            r == self.sid_spec(),
    {
        self.sid
    }

    pub closed spec fn name_spec(self) -> Seq<char> {
        self.conf.name_spec()
    }

    /// The configuration of the channel.
    pub closed spec fn conf_spec(self) -> ChannelConfig {
        self.conf
    }

    pub closed spec fn backend_spec(self) -> Seq<char> {
        self.backend@
    }

    pub fn name(&self) -> (r: &str)
        ensures
            r@ == self.name_spec(),
    {
        self.conf.name()
    }

    pub fn config(&self) -> (r: &ChannelConfig)
        ensures
            *r == self.conf_spec(),
    {
        &self.conf
    }

    pub fn backend(&self) -> (r: &String)
        ensures
            r@ == self.backend_spec(),
    {
        &self.backend
    }

    /// The channel's name and the short name of its state.
    pub fn channel_info_v1(&self) -> (r: crate::metrics::ChannelInfoV1)
        ensures
            r.name@ == self.name_spec(),
            r.state_short@ == self.state_spec().name_spec(),
    {
        crate::metrics::ChannelInfoV1 {
            name: String::from_str(self.conf.name()),
            state_short: String::from_str(self.state.name_short()),
        }
    }

    /// Why a one-time read can not be issued: only a running channel issues
    /// one; the answer otherwise names the state.
    pub fn read_notify_refusal(&self) -> (r: Option<String>)
        ensures
            self.state_spec() is Running ==> r is None,
            !(self.state_spec() is Running) ==> (r matches Some(t) && t@ == "ChannelHandler  "@
                + self.state_spec().name_spec()),
    {
        match self.state {
            HandlerState::Running => None,
            _ => {
                let mut t = String::from_str("ChannelHandler  ");
                t.append(self.state.name_short());
                Some(t)
            },
        }
    }

    /// Take the next item that the handler hands to its connection.
    pub fn pop_out(&mut self) -> (r: Option<HandlerOut>)
        requires
            old(self).wf(),
        ensures
            final(self).wf(),
            old(self).out_seq().len() == 0 ==> r is None && final(self).out_seq() == old(self).out_seq(),
            old(self).out_seq().len() > 0 ==> r == Some(old(self).out_seq()[0]) && final(self).out_seq()
                == old(self).out_seq().subrange(1, old(self).out_seq().len() as int),
            final(self).state_spec() == old(self).state_spec(),
            final(self).closing_spec() == old(self).closing_spec(),
            final(self).close_sent() == old(self).close_sent(),
            final(self).closed_emitted() == old(self).closed_emitted(),
            final(self).close_handed() == old(self).close_handed() + match r {
                Some(x) => if is_close_cmd(x) {
                    1nat
                } else {
                    0nat
                },
                None => 0nat,
            },
            final(self).removing_spec() == old(self).removing_spec(),
            old(self).keeps_io(*final(self)),
            final(self).sid_spec() == old(self).sid_spec(),
    {
        let ghost before = self.outbuf@;
        let r = self.outbuf.pop_front();
        proof {
            if before.len() > 0 {
                lemma_close_cmds_front(before);
                if is_close_cmd(before[0]) {
                    self.close_handed = Ghost(self.close_handed@ + 1);
                }
            }
        }
        r
    }

    /// Start the close sequence for `reason`, unless it runs already.
    /// Returns whether the current sub-handler must be told to close.
    pub fn initiate_close(&mut self, reason: ClosingReason) -> (forward: bool)
        requires
            old(self).wf(),
        ensures
            final(self).wf(),
            old(self).closing_spec() is Some ==> !forward && final(self).closing_spec() == old(self).closing_spec()
                && final(self).state_spec() == old(self).state_spec()
                && final(self).out_seq() == old(self).out_seq(),
            old(self).closing_spec() is None ==> final(self).closing_spec() == Some(reason)
                && final(self).out_seq() == old(self).out_seq().push(
                HandlerOut::ChannelStatusClosed(reason.closed_reason_spec()),
            ) && forward == old(self).state_spec().has_sub()
                && final(self).state_spec() == (if old(self).state_spec() is Init {
                HandlerState::Done1
            } else {
                old(self).state_spec()
            }),
            final(self).close_sent() == old(self).close_sent(),
            final(self).close_handed() == old(self).close_handed(),
            final(self).sid_spec() == old(self).sid_spec(),
            final(self).peer_closed_spec() == old(self).peer_closed_spec(),
            final(self).ack_spec() == old(self).ack_spec(),
            final(self).inp_done_spec() == old(self).inp_done_spec(),
            final(self).removing_spec() == old(self).removing_spec(),
            final(self).inp_buf() == old(self).inp_buf(),
            final(self).cid_spec() == old(self).cid_spec(),
            old(self).keeps_io(*final(self)),
    {
        if self.closing.is_some() {
            return false;
        }
        note_closing(&mut self.closing, &mut self.outbuf, reason);
        proof {
            self.closed_emitted = Ghost(1);
        }
        match self.state {
            HandlerState::Init => {
                self.state = HandlerState::Done1;
                false
            },
            HandlerState::Creating => true,
            HandlerState::ReadEnum => true,
            HandlerState::Running => true,
            HandlerState::CloseSend => false,
            HandlerState::CloseWait => false,
            HandlerState::Done1 => false,
            HandlerState::Done => false,
        }
    }

    /// The sub-handler ended: go to the close sequence. A close request is
    /// only sent to the peer when the channel was created, the peer did not
    /// close it and the protocol can still carry one.
    pub fn enter_close_send(&mut self)
        requires
            old(self).wf(),
            !old(self).state_spec().is_closing_state(),
        ensures
            final(self).wf(),
            final(self).closing_spec() is Some,
            old(self).closing_spec() is Some ==> final(self).closing_spec() == old(self).closing_spec(),
            old(self).closing_spec() is None ==> final(self).closing_spec() == Some(ClosingReason::InputDone),
            ({
                let c = final(self).closing_spec()->0;
                if old(self).sid_spec() is None || old(self).peer_closed_spec() || old(self).inp_done_spec()
                    || c.no_more_protocol_spec() {
                    final(self).state_spec() == HandlerState::Done1
                } else {
                    final(self).state_spec() == HandlerState::CloseSend
                }
            }),
            final(self).close_sent() == old(self).close_sent(),
            final(self).close_handed() == old(self).close_handed(),
            old(self).closing_spec() is None ==> final(self).out_seq() == old(self).out_seq().push(
                HandlerOut::ChannelStatusClosed(ChannelStatusClosedReason::NoProtocol),
            ),
            old(self).closing_spec() is Some ==> final(self).out_seq() == old(self).out_seq(),
            final(self).sid_spec() == old(self).sid_spec(),
            final(self).peer_closed_spec() == old(self).peer_closed_spec(),
            final(self).inp_done_spec() == old(self).inp_done_spec(),
            final(self).removing_spec() == old(self).removing_spec(),
    {
        if self.closing.is_none() {
            note_closing(&mut self.closing, &mut self.outbuf, ClosingReason::InputDone);
            proof {
                self.closed_emitted = Ghost(1);
            }
        }
        let no_proto = match &self.closing {
            Some(x) => x.no_more_protocol(),
            None => false,
        };
        if self.sid.is_none() || self.peer_closed || self.proto_inp_done || no_proto {
            self.state = HandlerState::Done1;
        } else {
            self.state = HandlerState::CloseSend;
        }
    }

    /// The first poll of a fresh handler starts the create phase.
    pub fn start(&mut self)
        requires
            old(self).wf(),
            old(self).state_spec() is Init,
        ensures
            final(self).wf(),
            final(self).state_spec() == HandlerState::Creating,
            final(self).closing_spec() == old(self).closing_spec(),
            final(self).close_sent() == old(self).close_sent(),
            final(self).out_seq() == old(self).out_seq(),
            final(self).removing_spec() == old(self).removing_spec(),
            final(self).close_handed() == old(self).close_handed(),
            old(self).keeps_io(*final(self)),
            final(self).sid_spec() == old(self).sid_spec(),
            final(self).has_enum_variants() == old(self).has_enum_variants(),
    {
        self.state = HandlerState::Creating;
    }

    /// The channel was created with server id `sid`; go on to read the enum
    /// strings of an enum channel, or straight to the running phase.
    pub fn created(&mut self, sid: u32, is_enum: bool, latency_ns: u64)
        requires
            old(self).wf(),
            old(self).state_spec() is Creating,
        ensures
            final(self).wf(),
            final(self).sid_spec() == Some(sid),
            final(self).state_spec() == (if is_enum { HandlerState::ReadEnum } else { HandlerState::Running }),
            final(self).out_seq() == old(self).out_seq().push(HandlerOut::TraceCreated(latency_ns)),
            final(self).closing_spec() == old(self).closing_spec(),
            final(self).close_sent() == old(self).close_sent(),
            old(self).keeps_io(*final(self)),
            final(self).removing_spec() == old(self).removing_spec(),
            final(self).close_handed() == old(self).close_handed(),
            final(self).has_enum_variants() == old(self).has_enum_variants(),
    {
        self.sid = Some(sid);
        proof {
            lemma_close_cmds_push(self.outbuf@, HandlerOut::TraceCreated(latency_ns));
        }
        self.outbuf.push_back(HandlerOut::TraceCreated(latency_ns));
        if is_enum {
            self.state = HandlerState::ReadEnum;
        } else {
            self.state = HandlerState::Running;
        }
    }

    /// The enum strings were read: the channel goes to the running phase.
    pub fn enum_strings_read(&mut self, vars: Vec<String>)
        requires
            old(self).wf(),
            old(self).state_spec() is ReadEnum,
        ensures
            final(self).wf(),
            final(self).state_spec() == HandlerState::Running,
            final(self).closing_spec() == old(self).closing_spec(),
            final(self).close_sent() == old(self).close_sent(),
            final(self).out_seq() == old(self).out_seq(),
            old(self).keeps_io(*final(self)),
            final(self).sid_spec() == old(self).sid_spec(),
            final(self).removing_spec() == old(self).removing_spec(),
            final(self).close_handed() == old(self).close_handed(),
            final(self).has_enum_variants(),
    {
        self.enum_variants = Some(vars);
        self.state = HandlerState::Running;
    }

    /// The sub-handler failed: the handler ends without a close exchange.
    pub fn sub_failed(&mut self)
        requires
            old(self).wf(),
            old(self).state_spec().has_sub(),
        ensures
            final(self).wf(),
            final(self).state_spec() == HandlerState::Done1,
            final(self).close_sent() == old(self).close_sent(),
            final(self).out_seq() == old(self).out_seq(),
            final(self).closing_spec() == old(self).closing_spec(),
            old(self).keeps_io(*final(self)),
            final(self).sid_spec() == old(self).sid_spec(),
            final(self).removing_spec() == old(self).removing_spec(),
            final(self).close_handed() == old(self).close_handed(),
    {
        self.state = HandlerState::Done1;
    }

    /// Offer a received message. It is queued when there is room; otherwise
    /// it is handed back.
    pub fn inp_push_try(&mut self, item: ProtoRxItem) -> (r: Option<CaMsgTy>)
        requires
            old(self).wf(),
        ensures
            final(self).wf(),
            old(self).inp_buf().len() < INP_BUF_CAP ==> r is None && final(self).inp_buf()
                == old(self).inp_buf().push(item),
            old(self).inp_buf().len() >= INP_BUF_CAP ==> r == Some(item.msg) && final(self).inp_buf()
                == old(self).inp_buf(),
            final(self).state_spec() == old(self).state_spec(),
            final(self).closing_spec() == old(self).closing_spec(),
            final(self).close_sent() == old(self).close_sent(),
            final(self).out_seq() == old(self).out_seq(),
    {
        if self.proto_inp_buf.len() < INP_BUF_CAP {
            self.proto_inp_buf.push_back(item);
            None
        } else {
            Some(item.msg)
        }
    }

    /// The next queued message for the sub-handler: the first one that is not
    /// part of the close protocol. The close-protocol messages in front of it
    /// are consumed and noted; the messages behind it stay queued.
    pub fn next_for_sub(&mut self) -> (r: Option<ProtoRxItem>)
        requires
            old(self).wf(),
            old(self).state_spec().has_sub(),
        ensures
            final(self).wf(),
            ({
                let s = old(self).inp_buf();
                let k = first_data(s);
                &&& k < s.len() ==> r == Some(s[k]) && final(self).inp_buf() == s.subrange(k + 1, s.len() as int)
                &&& k >= s.len() ==> r is None && final(self).inp_buf().len() == 0
                &&& final(self).ack_spec() == (old(self).ack_spec() || has_close_res(s.subrange(0, k)))
                &&& final(self).peer_closed_spec() == (old(self).peer_closed_spec() || has_peer_close(
                    s.subrange(0, k),
                    old(self).closing_spec() is None,
                ))
            }),
            r matches Some(x) ==> !x.msg.is_close_protocol(),
            final(self).state_spec() == old(self).state_spec(),
            final(self).closing_spec() == old(self).closing_spec(),
            final(self).close_sent() == old(self).close_sent(),
            final(self).close_handed() == old(self).close_handed(),
            final(self).out_seq() == old(self).out_seq(),
            final(self).sid_spec() == old(self).sid_spec(),
            final(self).inp_done_spec() == old(self).inp_done_spec(),
            final(self).removing_spec() == old(self).removing_spec(),
    {
        let ghost s = self.proto_inp_buf@;
        let ghost mut k: int = 0;
        proof {
            assert(s.subrange(0, 0) =~= Seq::<ProtoRxItem>::empty());
        }
        while self.proto_inp_buf.len() > 0
            invariant
                self.wf(),
                self.state.has_sub(),
                self.state == old(self).state,
                self.closing == old(self).closing,
                self.close_sent == old(self).close_sent,
                self.close_handed == old(self).close_handed,
                self.outbuf@ == old(self).outbuf@,
                self.sid == old(self).sid,
                self.proto_inp_done == old(self).proto_inp_done,
                self.removing == old(self).removing,
                s == old(self).proto_inp_buf@,
                0 <= k <= s.len(),
                self.proto_inp_buf@ == s.subrange(k, s.len() as int),
                forall|j: int| 0 <= j < k ==> (#[trigger] s[j]).msg.is_close_protocol(),
                self.chan_close_ack == (old(self).chan_close_ack || has_close_res(s.subrange(0, k))),
                self.peer_closed == (old(self).peer_closed || has_peer_close(s.subrange(0, k), self.closing is None)),
            decreases self.proto_inp_buf@.len(),
        {
            if let Some(item) = self.proto_inp_buf.pop_front() {
                let ghost it = item;
                proof {
                    assert(it == s[k]);
                    lemma_flags_step(s, k, self.closing is None);
                }
                if let Some(item) = intercept_close_msg(item, &self.closing, &mut self.peer_closed, &mut self.chan_close_ack) {
                    proof {
                        lemma_first_data_unique(s, k);
                        assert(self.proto_inp_buf@ =~= s.subrange(k + 1, s.len() as int));
                    }
                    return Some(item);
                }
                proof {
                    k = k + 1;
                    assert(self.proto_inp_buf@ =~= s.subrange(k, s.len() as int));
                }
            }
        }
        proof {
            lemma_first_data_unique(s, k);
        }
        None
    }

    /// One round of passing input to the sub-handler, which has room for
    /// `room` messages: the queue is taken from the front, each close message
    /// noted as `intercept_close_msg` does, and the other messages are handed
    /// on until the room is used up. Where the room is not used up the whole
    /// queue was taken, so a close answer behind data is noted in the same
    /// round.
    pub fn pass_to_sub(&mut self, room: usize) -> (r: Vec<ProtoRxItem>)
        requires
            old(self).wf(),
            old(self).state_spec().has_sub(),
        ensures
            final(self).wf(),
            ({
                let s = old(self).inp_buf();
                let k = s.len() - final(self).inp_buf().len();
                &&& 0 <= k <= s.len()
                &&& final(self).inp_buf() == s.subrange(k, s.len() as int)
                &&& r@ == data_of(s.subrange(0, k))
                &&& r@.len() <= room
                &&& r@.len() < room ==> final(self).inp_buf().len() == 0
                &&& r@.len() == room ==> (k == 0 || !s[k - 1].msg.is_close_protocol())
                &&& final(self).ack_spec() == (old(self).ack_spec() || has_close_res(s.subrange(0, k)))
                &&& final(self).peer_closed_spec() == (old(self).peer_closed_spec() || has_peer_close(
                    s.subrange(0, k),
                    old(self).closing_spec() is None,
                ))
            }),
            final(self).state_spec() == old(self).state_spec(),
            final(self).closing_spec() == old(self).closing_spec(),
            final(self).close_sent() == old(self).close_sent(),
            final(self).close_handed() == old(self).close_handed(),
            final(self).out_seq() == old(self).out_seq(),
            final(self).sid_spec() == old(self).sid_spec(),
            final(self).inp_done_spec() == old(self).inp_done_spec(),
            final(self).removing_spec() == old(self).removing_spec(),
            final(self).cid_spec() == old(self).cid_spec(),
            final(self).counters_spec() == old(self).counters_spec(),
            final(self).conf_spec() == old(self).conf_spec(),
            final(self).backend_spec() == old(self).backend_spec(),
    {
        let ghost s = self.proto_inp_buf@;
        let ghost mut k: int = 0;
        let mut out: Vec<ProtoRxItem> = Vec::new();
        proof {
            assert(s.subrange(0, 0) =~= Seq::<ProtoRxItem>::empty());
            assert(s.subrange(0, s.len() as int) =~= s);
        }
        while out.len() < room && self.proto_inp_buf.len() > 0
            invariant
                self.wf(),
                self.state.has_sub(),
                self.state == old(self).state,
                self.closing == old(self).closing,
                self.close_sent == old(self).close_sent,
                self.close_handed == old(self).close_handed,
                self.outbuf@ == old(self).outbuf@,
                self.sid == old(self).sid,
                self.proto_inp_done == old(self).proto_inp_done,
                self.removing == old(self).removing,
                self.cid == old(self).cid,
                self.counters == old(self).counters,
                self.conf == old(self).conf,
                self.backend == old(self).backend,
                s == old(self).proto_inp_buf@,
                0 <= k <= s.len(),
                self.proto_inp_buf@ == s.subrange(k, s.len() as int),
                out@ == data_of(s.subrange(0, k)),
                out@.len() <= room,
                out@.len() == room ==> (k == 0 || !s[k - 1].msg.is_close_protocol()),
                self.chan_close_ack == (old(self).chan_close_ack || has_close_res(s.subrange(0, k))),
                self.peer_closed == (old(self).peer_closed || has_peer_close(s.subrange(0, k), self.closing is None)),
            decreases self.proto_inp_buf@.len(),
        {
            if let Some(item) = self.proto_inp_buf.pop_front() {
                let ghost it = item;
                proof {
                    assert(it == s[k]);
                    lemma_flags_step(s, k, self.closing is None);
                    assert(s.subrange(0, k + 1).drop_last() =~= s.subrange(0, k));
                    assert(s.subrange(0, k + 1).last() == it);
                }
                if let Some(x) = intercept_close_msg(item, &self.closing, &mut self.peer_closed, &mut self.chan_close_ack) {
                    out.push(x);
                }
                proof {
                    k = k + 1;
                    assert(self.proto_inp_buf@ =~= s.subrange(k, s.len() as int));
                }
            }
        }
        out
    }

    /// The round of a state whose step is the sub-handler's (creation, enum
    /// read, running): input is passed to the sub-handler as `pass_to_sub`
    /// does, and a peer that closed the channel starts the close sequence.
    /// Returns the messages for the sub-handler, and whether it must be told
    /// to close.
    pub fn sub_round(&mut self, room: usize) -> (r: (Vec<ProtoRxItem>, bool))
        requires
            old(self).wf(),
            old(self).state_spec().has_sub(),
        ensures
            final(self).wf(),
            ({
                let s = old(self).inp_buf();
                let k = s.len() - final(self).inp_buf().len();
                let peer = old(self).peer_closed_spec() || has_peer_close(
                    s.subrange(0, k),
                    old(self).closing_spec() is None,
                );
                &&& 0 <= k <= s.len()
                &&& final(self).inp_buf() == s.subrange(k, s.len() as int)
                &&& r.0@ == data_of(s.subrange(0, k))
                &&& r.0@.len() <= room
                &&& r.0@.len() < room ==> final(self).inp_buf().len() == 0
                &&& r.0@.len() == room ==> (k == 0 || !s[k - 1].msg.is_close_protocol())
                &&& final(self).ack_spec() == (old(self).ack_spec() || has_close_res(s.subrange(0, k)))
                &&& final(self).peer_closed_spec() == peer
                &&& r.1 == (peer && old(self).closing_spec() is None)
                &&& r.1 ==> final(self).closing_spec() == Some(ClosingReason::PeerClosed)
                    && final(self).out_seq() == old(self).out_seq().push(
                    HandlerOut::ChannelStatusClosed(ChannelStatusClosedReason::ProtocolDone),
                )
                &&& !r.1 ==> final(self).closing_spec() == old(self).closing_spec() && final(self).out_seq()
                    == old(self).out_seq()
            }),
            final(self).state_spec() == old(self).state_spec(),
            final(self).close_sent() == old(self).close_sent(),
            final(self).cid_spec() == old(self).cid_spec(),
            final(self).counters_spec() == old(self).counters_spec(),
            final(self).conf_spec() == old(self).conf_spec(),
            final(self).backend_spec() == old(self).backend_spec(),
            final(self).sid_spec() == old(self).sid_spec(),
            final(self).inp_done_spec() == old(self).inp_done_spec(),
            final(self).removing_spec() == old(self).removing_spec(),
            final(self).close_handed() == old(self).close_handed(),
    {
        let items = self.pass_to_sub(room);
        let notify = self.check_peer_closed();
        (items, notify)
    }

    /// Put a message back in front that the sub-handler did not take.
    pub fn unpop_for_sub(&mut self, item: ProtoRxItem)
        requires
            old(self).wf(),
            old(self).inp_buf().len() < INP_BUF_CAP,
        ensures
            final(self).wf(),
            final(self).inp_buf() == seq![item] + old(self).inp_buf(),
            final(self).state_spec() == old(self).state_spec(),
            final(self).closing_spec() == old(self).closing_spec(),
            final(self).close_sent() == old(self).close_sent(),
            final(self).out_seq() == old(self).out_seq(),
    {
        self.proto_inp_buf.push_front(item);
    }

    /// When the peer closed the channel and no close runs yet, start it.
    /// Returns whether the sub-handler must be told that the peer closed.
    pub fn check_peer_closed(&mut self) -> (notify: bool)
        requires
            old(self).wf(),
        ensures
            final(self).wf(),
            notify == (old(self).peer_closed_spec() && old(self).closing_spec() is None),
            notify ==> final(self).closing_spec() == Some(ClosingReason::PeerClosed)
                && final(self).out_seq() == old(self).out_seq().push(
                HandlerOut::ChannelStatusClosed(ChannelStatusClosedReason::ProtocolDone),
            ),
            !notify ==> final(self).closing_spec() == old(self).closing_spec() && final(self).out_seq()
                == old(self).out_seq(),
            final(self).state_spec() == old(self).state_spec(),
            final(self).close_sent() == old(self).close_sent(),
            old(self).keeps_io(*final(self)),
            final(self).sid_spec() == old(self).sid_spec(),
            final(self).removing_spec() == old(self).removing_spec(),
            final(self).close_handed() == old(self).close_handed(),
    {
        if self.peer_closed && self.closing.is_none() {
            note_closing(&mut self.closing, &mut self.outbuf, ClosingReason::PeerClosed);
            proof {
                self.closed_emitted = Ghost(1);
            }
            true
        } else {
            false
        }
    }

    /// Handle a command. Returns whether the sub-handler must be told to close.
    pub fn handle_cmd(&mut self, cmd: Cmd) -> (forward: bool)
        requires
            old(self).wf(),
        ensures
            final(self).wf(),
            final(self).close_sent() == old(self).close_sent(),
            (old(self).state_spec() is Done || cmd is ChannelHandlerStatus || old(self).removing_spec())
                ==> !forward && final(self).closing_spec() == old(self).closing_spec()
                && final(self).state_spec() == old(self).state_spec()
                && final(self).removing_spec() == old(self).removing_spec(),
            !(old(self).state_spec() is Done) && cmd is Remove && !old(self).removing_spec()
                ==> final(self).removing_spec() && (old(self).closing_spec() is None
                ==> final(self).closing_spec() == Some(ClosingReason::Command)) && (
            old(self).closing_spec() is Some ==> final(self).closing_spec() == old(self).closing_spec()),
            final(self).close_handed() == old(self).close_handed(),
            ({
                let (st, cl, rm, out, fw) = after_cmd(
                    old(self).state_spec(),
                    old(self).closing_spec(),
                    old(self).removing_spec(),
                    old(self).out_seq(),
                    cmd,
                );
                &&& final(self).state_spec() == st
                &&& final(self).closing_spec() == cl
                &&& final(self).removing_spec() == rm
                &&& final(self).out_seq() == out
                &&& forward == fw
            }),
            final(self).sid_spec() == old(self).sid_spec(),
            final(self).cid_spec() == old(self).cid_spec(),
            final(self).ack_spec() == old(self).ack_spec(),
            final(self).inp_done_spec() == old(self).inp_done_spec(),
            final(self).inp_buf() == old(self).inp_buf(),
            final(self).out_seq() == (if !(old(self).state_spec() is Done) && cmd is Remove && !old(
                self,
            ).removing_spec() && old(self).closing_spec() is None {
                old(self).out_seq().push(HandlerOut::ChannelStatusClosed(ChannelStatusClosedReason::ChannelRemove))
            } else {
                old(self).out_seq()
            }),
            old(self).keeps_io(*final(self)),
    {
        if let HandlerState::Done = self.state {
            return false;
        }
        match cmd {
            Cmd::Remove => {
                if self.removing {
                    false
                } else {
                    self.removing = true;
                    self.initiate_close(ClosingReason::Command)
                }
            },
            Cmd::ChannelHandlerStatus => false,
        }
    }

    /// The input from the connection ended. Returns whether the sub-handler
    /// must be told.
    pub fn inp_done(&mut self) -> (forward: bool)
        requires
            old(self).wf(),
        ensures
            final(self).wf(),
            final(self).inp_done_spec(),
            final(self).close_sent() == old(self).close_sent(),
            forward == old(self).state_spec().has_sub(),
            old(self).closing_spec() is Some ==> final(self).closing_spec() == old(self).closing_spec(),
            old(self).closing_spec() is None ==> final(self).closing_spec() == Some(ClosingReason::InputDone),
            (old(self).state_spec() is CloseSend || old(self).state_spec() is CloseWait) ==> final(self).state_spec()
                == HandlerState::Done1,
            old(self).state_spec() is Init && old(self).closing_spec() is None ==> final(self).state_spec()
                == HandlerState::Done1,
            old(self).state_spec() is Init && old(self).closing_spec() is Some ==> final(self).state_spec()
                == HandlerState::Init,
            old(self).state_spec().has_sub() || old(self).state_spec() is Done1 || old(self).state_spec() is Done
                ==> final(self).state_spec() == old(self).state_spec(),
            final(self).close_handed() == old(self).close_handed(),
            final(self).out_seq() == (if old(self).closing_spec() is None {
                old(self).out_seq().push(HandlerOut::ChannelStatusClosed(ChannelStatusClosedReason::NoProtocol))
            } else {
                old(self).out_seq()
            }),
    {
        let forward = match self.state {
            HandlerState::Creating => true,
            HandlerState::ReadEnum => true,
            HandlerState::Running => true,
            _ => false,
        };
        let abort_close = match self.state {
            HandlerState::CloseSend => true,
            HandlerState::CloseWait => true,
            _ => false,
        };
        if let HandlerState::CloseSend = self.state {
            self.state = HandlerState::Done1;
        }
        self.proto_inp_done = true;
        self.initiate_close(ClosingReason::InputDone);
        if abort_close {
            self.state = HandlerState::Done1;
        }
        forward
    }

    /// The close-send step: drop the pending input, send the close request
    /// when the channel was created, and wait for the answer.
    pub fn step_close_send(&mut self) -> (sent: bool)
        requires
            old(self).wf(),
            old(self).state_spec() is CloseSend,
        ensures
            final(self).wf(),
            final(self).state_spec() == HandlerState::CloseWait,
            sent,
            final(self).close_sent() == old(self).close_sent() + 1,
            final(self).close_sent() == 1,
            final(self).out_seq() == old(self).out_seq().push(
                HandlerOut::ProtoOut(CaMsgTy::ChannelClose { sid: old(self).sid_spec()->0, cid: old(self).cid_spec() }),
            ),
            final(self).inp_buf().len() == 0,
            final(self).closing_spec() == old(self).closing_spec(),
            final(self).removing_spec() == old(self).removing_spec(),
            final(self).close_handed() == old(self).close_handed(),
    {
        drain_inp_closing(&mut self.proto_inp_buf, &self.closing, &mut self.peer_closed, &mut self.chan_close_ack);
        let sent = match self.sid {
            Some(sid) => {
                proof {
                    lemma_close_cmds_push(self.outbuf@, HandlerOut::ProtoOut(CaMsgTy::ChannelClose { sid, cid: self.cid }));
                }
                self.outbuf.push_back(HandlerOut::ProtoOut(CaMsgTy::ChannelClose { sid, cid: self.cid }));
                proof {
                    self.close_sent = Ghost(self.close_sent@ + 1);
                }
                true
            },
            None => false,
        };
        self.state = HandlerState::CloseWait;
        sent
    }

    /// The close-wait step: the wait ends with the close answer, with the end
    /// of the input, or when `timeout_fired`.
    pub fn step_close_wait(&mut self, timeout_fired: bool) -> (progress: bool)
        requires
            old(self).wf(),
            old(self).state_spec() is CloseWait,
        ensures
            final(self).wf(),
            final(self).inp_buf().len() == 0,
            final(self).close_sent() == old(self).close_sent(),
            final(self).out_seq() == old(self).out_seq(),
            final(self).closing_spec() == old(self).closing_spec(),
            final(self).ack_spec() == (old(self).ack_spec() || has_close_res(old(self).inp_buf())),
            (final(self).ack_spec() || old(self).inp_done_spec() || timeout_fired) ==> final(self).state_spec()
                == HandlerState::Done1,
            !(final(self).ack_spec() || old(self).inp_done_spec() || timeout_fired) ==> final(self).state_spec()
                == HandlerState::CloseWait,
            progress == (old(self).inp_buf().len() > 0 || final(self).ack_spec() || old(self).inp_done_spec()
                || timeout_fired),
            final(self).removing_spec() == old(self).removing_spec(),
            final(self).close_handed() == old(self).close_handed(),
    {
        let any = drain_inp_closing(&mut self.proto_inp_buf, &self.closing, &mut self.peer_closed, &mut self.chan_close_ack);
        if self.chan_close_ack {
            self.state = HandlerState::Done1;
            true
        } else if self.proto_inp_done {
            self.state = HandlerState::Done1;
            true
        } else if timeout_fired {
            self.state = HandlerState::Done1;
            true
        } else {
            any
        }
    }

    /// The last step: the handler is done. Returns whether a removal waits
    /// for the confirmation.
    pub fn step_done1(&mut self) -> (notify_removing: bool)
        requires
            old(self).wf(),
            old(self).state_spec() is Done1,
        ensures
            final(self).wf(),
            final(self).state_spec() == HandlerState::Done,
            notify_removing == old(self).removing_spec(),
            final(self).close_sent() == old(self).close_sent(),
            final(self).out_seq() == old(self).out_seq(),
            final(self).closing_spec() == old(self).closing_spec(),
            final(self).removing_spec() == old(self).removing_spec(),
            final(self).close_handed() == old(self).close_handed(),
            old(self).keeps_io(*final(self)),
            final(self).sid_spec() == old(self).sid_spec(),
    {
        self.state = HandlerState::Done;
        self.removing
    }

    /// One round of the handler's loop: queued output goes first; then the
    /// command that arrived, if any; then the step of the state. `cmd` is
    /// not taken where output is queued, and comes back in `cmd_back`.
    /// `close_timer_fired` tells whether the wait for the close answer timed
    /// out. In the creation, enum read and running states the round passes
    /// input to the sub-handler, which has room for `sub_room` messages, as
    /// `sub_round` does; the sub-handler's own step is the caller's.
    pub fn poll_round(&mut self, cmd: Option<Cmd>, close_timer_fired: bool, sub_room: usize) -> (r: HandlerStep)
        requires
            old(self).wf(),
        ensures
            final(self).wf(),
            old(self).out_seq().len() > 0 ==> {
                &&& r.round == HandlerRound::Out(old(self).out_seq()[0])
                &&& r.cmd_back == cmd
                &&& !r.forward_close
                &&& !r.notify_removing
                &&& r.to_sub@.len() == 0
                &&& final(self).out_seq() == old(self).out_seq().drop_first()
                &&& final(self).state_spec() == old(self).state_spec()
                &&& final(self).closing_spec() == old(self).closing_spec()
                &&& final(self).removing_spec() == old(self).removing_spec()
                &&& old(self).keeps_io(*final(self))
                &&& final(self).sid_spec() == old(self).sid_spec()
                &&& final(self).close_sent() == old(self).close_sent()
                &&& final(self).close_handed() == old(self).close_handed() + (if is_close_cmd(old(self).out_seq()[0]) {
                    1nat
                } else {
                    0nat
                })
            },
            old(self).out_seq().len() == 0 ==> {
                let (st1, cl1, rm1, out1, fw) = match cmd {
                    Some(c) => after_cmd(
                        old(self).state_spec(),
                        old(self).closing_spec(),
                        old(self).removing_spec(),
                        old(self).out_seq(),
                        c,
                    ),
                    None => (old(self).state_spec(), old(self).closing_spec(), old(self).removing_spec(), old(self).out_seq(), false),
                };
                let ack = old(self).ack_spec() || has_close_res(old(self).inp_buf());
                let s = old(self).inp_buf();
                let k = s.len() - final(self).inp_buf().len();
                let peer = old(self).peer_closed_spec() || has_peer_close(s.subrange(0, k), cl1 is None);
                let notify = st1.has_sub() && peer && cl1 is None;
                &&& r.cmd_back is None
                &&& r.forward_close == (fw || notify)
                &&& final(self).closing_spec() == (if notify {
                    Some(ClosingReason::PeerClosed)
                } else {
                    cl1
                })
                &&& !st1.has_sub() ==> r.to_sub@.len() == 0
                &&& final(self).removing_spec() == rm1
                &&& final(self).close_handed() == old(self).close_handed()
                &&& r.notify_removing == (st1 is Done1 && rm1)
                &&& final(self).close_sent() == old(self).close_sent() + (if st1 is CloseSend { 1nat } else { 0nat })
                &&& match st1 {
                    HandlerState::Init => {
                        &&& final(self).state_spec() == HandlerState::Creating
                        &&& final(self).out_seq() == out1
                        &&& old(self).keeps_io(*final(self))
                        &&& final(self).sid_spec() == old(self).sid_spec()
                        &&& r.round == HandlerRound::Progress
                    },
                    HandlerState::CloseSend => {
                        &&& final(self).state_spec() == HandlerState::CloseWait
                        &&& final(self).out_seq() == out1.push(
                            HandlerOut::ProtoOut(
                                CaMsgTy::ChannelClose { sid: old(self).sid_spec()->0, cid: old(self).cid_spec() },
                            ),
                        )
                        &&& r.round == HandlerRound::Progress
                    },
                    HandlerState::CloseWait => {
                        &&& final(self).ack_spec() == ack
                        &&& final(self).state_spec() == (if ack || old(self).inp_done_spec() || close_timer_fired {
                            HandlerState::Done1
                        } else {
                            HandlerState::CloseWait
                        })
                        &&& final(self).out_seq() == out1
                        &&& r.round == (if old(self).inp_buf().len() > 0 || ack || old(self).inp_done_spec()
                            || close_timer_fired || cmd is Some {
                            HandlerRound::Progress
                        } else {
                            HandlerRound::Pending
                        })
                    },
                    HandlerState::Done1 => {
                        &&& final(self).state_spec() == HandlerState::Done
                        &&& final(self).out_seq() == out1
                        &&& r.round == HandlerRound::Progress
                        &&& old(self).keeps_io(*final(self))
                        &&& final(self).sid_spec() == old(self).sid_spec()
                    },
                    HandlerState::Done => {
                        &&& final(self).state_spec() == HandlerState::Done
                        &&& final(self).out_seq() == out1
                        &&& old(self).keeps_io(*final(self))
                        &&& final(self).sid_spec() == old(self).sid_spec()
                        &&& r.round == (if cmd is Some {
                            HandlerRound::Progress
                        } else {
                            HandlerRound::Finished
                        })
                    },
                    _ => {
                        &&& final(self).state_spec() == st1
                        &&& r.round == HandlerRound::Sub
                        &&& final(self).sid_spec() == old(self).sid_spec()
                        &&& final(self).cid_spec() == old(self).cid_spec()
                        &&& final(self).inp_done_spec() == old(self).inp_done_spec()
                        &&& final(self).counters_spec() == old(self).counters_spec()
                        &&& final(self).conf_spec() == old(self).conf_spec()
                        &&& final(self).backend_spec() == old(self).backend_spec()
                        &&& 0 <= k <= s.len()
                        &&& final(self).inp_buf() == s.subrange(k, s.len() as int)
                        &&& r.to_sub@ == data_of(s.subrange(0, k))
                        &&& r.to_sub@.len() <= sub_room
                        &&& r.to_sub@.len() < sub_room ==> final(self).inp_buf().len() == 0
                        &&& r.to_sub@.len() == sub_room ==> (k == 0 || !s[k - 1].msg.is_close_protocol())
                        &&& final(self).ack_spec() == (old(self).ack_spec() || has_close_res(s.subrange(0, k)))
                        &&& final(self).peer_closed_spec() == peer
                        &&& final(self).out_seq() == (if notify {
                            out1.push(HandlerOut::ChannelStatusClosed(ChannelStatusClosedReason::ProtocolDone))
                        } else {
                            out1
                        })
                    },
                }
            },
    {
        if self.outbuf.len() > 0 {
            let x = self.pop_out();
            match x {
                Some(item) => {
                    proof {
                        assert(self.out_seq() =~= old(self).out_seq().drop_first());
                    }
                    return HandlerStep {
                        round: HandlerRound::Out(item),
                        cmd_back: cmd,
                        forward_close: false,
                        notify_removing: false,
                        to_sub: Vec::new(),
                    };
                },
                None => {
                    proof {
                        assert(false);
                    }
                },
            }
        }
        let had_cmd = cmd.is_some();
        let mut forward_close = false;
        if let Some(c) = cmd {
            forward_close = self.handle_cmd(c);
        }
        let mut notify_removing = false;
        let mut to_sub: Vec<ProtoRxItem> = Vec::new();
        let round = match self.state {
            HandlerState::Init => {
                self.start();
                HandlerRound::Progress
            },
            HandlerState::CloseSend => {
                self.step_close_send();
                HandlerRound::Progress
            },
            HandlerState::CloseWait => {
                let p = self.step_close_wait(close_timer_fired);
                if p || had_cmd {
                    HandlerRound::Progress
                } else {
                    HandlerRound::Pending
                }
            },
            HandlerState::Done1 => {
                notify_removing = self.step_done1();
                HandlerRound::Progress
            },
            HandlerState::Done => {
                if had_cmd {
                    HandlerRound::Progress
                } else {
                    HandlerRound::Finished
                }
            },
            _ => {
                let (items, notify) = self.sub_round(sub_room);
                to_sub = items;
                forward_close = forward_close || notify;
                HandlerRound::Sub
            },
        };
        HandlerStep { round, cmd_back: None, forward_close, notify_removing, to_sub }
    }

    /// A snapshot of the handler, with the time spent in the current state.
    pub fn status_info(&self, state_elapsed_ms: u64) -> (r: StatusInfo)
        ensures
            r.state_short@ == self.state_spec().name_spec(),
            r.state_elapsed_ms == state_elapsed_ms,
            r.proto_inp_buf.len == self.inp_buf().len(),
            r.proto_inp_buf.cap == INP_BUF_CAP,
            r.outbuf.len == self.out_seq().len(),
            r.outbuf.cap >= r.outbuf.len,
            r.enum_variants_len.is_some() == self.has_enum_variants(),
            r.counters == self.counters_spec(),
    {
        let enum_variants_len = match &self.enum_variants {
            Some(x) => {
                let n = x.len();
                Some(if n > u32::MAX as usize { u32::MAX } else { n as u32 })
            },
            None => None,
        };
        StatusInfo {
            state_short: String::from_str(self.state.name_short()),
            state_elapsed_ms,
            proto_inp_buf: LenCap { len: self.proto_inp_buf.len(), cap: INP_BUF_CAP },
            outbuf: LenCap { len: self.outbuf.len(), cap: deque_capacity(&self.outbuf) },
            enum_variants_len,
            counters: self.counters,
        }
    }
}

/// A handler never sends more than one close request: the close requests
/// in its output queue together with those it handed out are at most one,
/// and only once it is in the close sequence. It queues a closed status
/// exactly when it closes.
pub proof fn lemma_close_once(h: ChannelHandler)
    requires
        h.wf(),
    ensures
        h.close_handed() + close_cmds(h.out_seq()) == h.close_sent(),
        h.close_handed() + close_cmds(h.out_seq()) <= 1,
        h.close_sent() <= 1,
        h.closed_emitted() == (if h.closing_spec() is Some { 1nat } else { 0nat }),
        h.close_sent() == 1 ==> h.state_spec().is_closing_state(),
        (h.state_spec() is CloseSend || h.state_spec() is CloseWait) ==> h.closing_spec() is Some,
{
}

} // verus!
