use vstd::prelude::*;

verus! {

/// How many items wait at most in the output of a connection before the
/// periodic status and the write batches hold back.
pub const OUT_QUEUE_LEN_MAX: usize = 64;

/// How many write items a connection batches before it tries to flush.
pub const WRITE_BATCH_LEN_MAX: usize = 256;

/// The input buffers of a connected connection.
pub const CONNECTED_INP_BUF_CAP: usize = 128;

/// How many outgoing protocol messages a healthy connection holds at most.
pub const PROTO_OUT_LEN_HEALTHY_MAX: usize = 1000;

/// Whether a connected connection is healthy: its outgoing protocol queue
/// and its input buffers are not piling up.
pub fn connected_health_check(proto_out_len: usize, inp_len: usize, cmd_len: usize) -> (r: bool)
    ensures
        r == (proto_out_len <= PROTO_OUT_LEN_HEALTHY_MAX && inp_len <= 10 * CONNECTED_INP_BUF_CAP
            && cmd_len <= 10 * CONNECTED_INP_BUF_CAP),
{
    let mut healthy = true;
    if proto_out_len > PROTO_OUT_LEN_HEALTHY_MAX {
        healthy = false;
    }
    if inp_len > 10 * CONNECTED_INP_BUF_CAP {
        healthy = false;
    }
    if cmd_len > 10 * CONNECTED_INP_BUF_CAP {
        healthy = false;
    }
    healthy
}

/// The phase of a connection whose socket is up.
#[derive(Debug, Clone, Copy, PartialEq, Eq, Structural)]
pub enum ConnectedPhase {
    Init,
    Handshake,
    ActiveCa,
    Done,
}

/// The phase of a connection.
#[derive(Debug, Clone, Copy, PartialEq, Eq, Structural)]
pub enum ConnPhase {
    Connecting,
    Connected(ConnectedPhase),
    Done,
}

/// What happened to a connection.
#[derive(Debug, Clone, Copy, PartialEq, Eq, Structural)]
pub enum ConnEvent {
    TcpConnected,
    TcpFailed,
    HandshakeDone,
    /// The socket session or the protocol session failed or ended.
    SessionEnded,
}

/// The phase after an event; an event that the phase does not wait for
/// changes nothing.
pub open spec fn conn_phase_spec(p: ConnPhase, ev: ConnEvent) -> ConnPhase {
    match (p, ev) {
        (ConnPhase::Connecting, ConnEvent::TcpConnected) => ConnPhase::Connected(ConnectedPhase::Init),
        (ConnPhase::Connecting, ConnEvent::TcpFailed) => ConnPhase::Done,
        (ConnPhase::Connected(ConnectedPhase::Handshake), ConnEvent::HandshakeDone) => ConnPhase::Connected(
            ConnectedPhase::ActiveCa,
        ),
        (ConnPhase::Connected(_), ConnEvent::SessionEnded) => ConnPhase::Done,
        _ => p,
    }
}

/// The step a connected connection takes by itself: the handshake starts at
/// once.
pub fn connected_start(p: ConnPhase) -> (r: ConnPhase)
    ensures
        r == (if p == ConnPhase::Connected(ConnectedPhase::Init) {
            ConnPhase::Connected(ConnectedPhase::Handshake)
        } else {
            p
        }),
{
    match p {
        ConnPhase::Connected(ConnectedPhase::Init) => ConnPhase::Connected(ConnectedPhase::Handshake),
        _ => p,
    }
}

pub fn conn_phase_next(p: ConnPhase, ev: ConnEvent) -> (r: ConnPhase)
    ensures
        r == conn_phase_spec(p, ev),
{
    match (p, ev) {
        (ConnPhase::Connecting, ConnEvent::TcpConnected) => ConnPhase::Connected(ConnectedPhase::Init),
        (ConnPhase::Connecting, ConnEvent::TcpFailed) => ConnPhase::Done,
        (ConnPhase::Connected(ConnectedPhase::Handshake), ConnEvent::HandshakeDone) => ConnPhase::Connected(
            ConnectedPhase::ActiveCa,
        ),
        (ConnPhase::Connected(_), ConnEvent::SessionEnded) => ConnPhase::Done,
        _ => p,
    }
}

/// How many items the output of a connection may hold before it counts as
/// piling up.
pub const CONN_OUT_BUF_HEALTHY_MAX: usize = 5 * 128;

/// Whether a connection is healthy: its output is not piling up, or the
/// state it is in (its connect attempt, its connected session) is healthy; a
/// finished connection is.
pub fn conn_health_check(out_buf_len: usize, p: ConnPhase, connecting_healthy: bool, connected_healthy: bool) -> (r: bool)
    ensures
        r == (out_buf_len <= CONN_OUT_BUF_HEALTHY_MAX || match p {
            ConnPhase::Connecting => connecting_healthy,
            ConnPhase::Connected(_) => connected_healthy,
            ConnPhase::Done => true,
        }),
{
    let mut healthy = true;
    if out_buf_len > CONN_OUT_BUF_HEALTHY_MAX {
        healthy = false;
    }
    let sub = match p {
        ConnPhase::Connecting => connecting_healthy,
        ConnPhase::Connected(_) => connected_healthy,
        ConnPhase::Done => true,
    };
    healthy || sub
}

/// The period of the status ticker with its spread: the interval plus up to
/// an eighth of it, by the low five bits of a random number.
pub open spec fn jitter_ticker_spec(ivl_ns: u64, r: u32) -> int {
    ivl_ns + (ivl_ns * (r % 32)) / 255
}

pub fn jitter_ticker_ns(ivl_ns: u64, r: u32) -> (t: u64)
    requires
        ivl_ns <= u64::MAX / 64,
    ensures
        t == jitter_ticker_spec(ivl_ns, r),
{
    let k: u64 = (r % 32) as u64;
    assert(ivl_ns * k <= ivl_ns * 31) by (nonlinear_arith)
        requires
            k <= 31,
    ;
    assert((ivl_ns * k) / 255 <= ivl_ns) by (nonlinear_arith)
        requires
            k <= 31,
    ;
    ivl_ns + (ivl_ns * k) / 255
}

/// An item of the output of a connection: one of its own, or a batch of
/// write items.
#[derive(Debug, Clone, PartialEq, Eq)]
pub enum ConnItem<T, W> {
    Item(T),
    WriteItems(Vec<W>),
}

/// The write items that a sequence of output items carries, in order.
pub open spec fn writes_of<T, W>(s: Seq<ConnItem<T, W>>) -> Seq<W>
    decreases s.len(),
{
    if s.len() == 0 {
        Seq::empty()
    } else {
        writes_of(s.drop_last()) + match s.last() {
            ConnItem::WriteItems(v) => v@,
            ConnItem::Item(_) => Seq::empty(),
        }
    }
}

pub proof fn lemma_writes_of_push<T, W>(s: Seq<ConnItem<T, W>>, x: ConnItem<T, W>)
    ensures
        writes_of(s.push(x)) == writes_of(s) + match x {
            ConnItem::WriteItems(v) => v@,
            ConnItem::Item(_) => Seq::empty(),
        },
{
    assert(s.push(x).drop_last() =~= s);
}

/// The output of a connection: the items that wait to be handed out, and
/// the write items that wait to be batched. Every write item that came in
/// is, in order, either in a handed-out batch, in a waiting batch, or in
/// the batch being filled.
pub struct ConnOutput<T, W> {
    out: Vec<ConnItem<T, W>>,
    batch: Vec<W>,
    written: Ghost<Seq<W>>,
    handed: Ghost<Seq<W>>,
}

impl<T, W> ConnOutput<T, W> {
    pub closed spec fn out_seq(&self) -> Seq<ConnItem<T, W>> {
        self.out@
    }

    pub closed spec fn batch_seq(&self) -> Seq<W> {
        self.batch@
    }

    /// Every write item that came in.
    pub closed spec fn written(&self) -> Seq<W> {
        self.written@
    }

    /// The write items of the batches handed out.
    pub closed spec fn handed(&self) -> Seq<W> {
        self.handed@
    }

    pub open spec fn wf(&self) -> bool {
        self.handed() + writes_of(self.out_seq()) + self.batch_seq() == self.written()
    }

    pub fn new() -> (r: Self)
        ensures
            r.wf(),
            r.out_seq().len() == 0,
            r.batch_seq().len() == 0,
            r.written().len() == 0,
            r.handed().len() == 0,
    {
        let r = ConnOutput { out: Vec::new(), batch: Vec::new(), written: Ghost(Seq::empty()), handed: Ghost(Seq::empty()) };
        proof {
            assert(writes_of(r.out@) =~= Seq::<W>::empty());
            assert(r.handed@ + writes_of(r.out@) + r.batch@ =~= r.written@);
        }
        r
    }

    pub fn out_len(&self) -> (r: usize)
        ensures
            r == self.out_seq().len(),
    {
        self.out.len()
    }

    pub fn batch_len(&self) -> (r: usize)
        ensures
            r == self.batch_seq().len(),
    {
        self.batch.len()
    }

    /// Queues an item of the connection's own.
    pub fn push_item(&mut self, item: T)
        requires
            old(self).wf(),
        ensures
            final(self).wf(),
            final(self).out_seq() == old(self).out_seq().push(ConnItem::Item(item)),
            final(self).batch_seq() == old(self).batch_seq(),
            final(self).written() == old(self).written(),
            final(self).handed() == old(self).handed(),
    {
        proof {
            lemma_writes_of_push(self.out@, ConnItem::Item(item));
            assert(writes_of(self.out@) + Seq::<W>::empty() =~= writes_of(self.out@));
        }
        self.out.push(ConnItem::Item(item));
    }

    /// Hands the waiting write items on as one batch, where there are some
    /// and the output has room. Returns whether it did.
    pub fn try_flush_write_batch(&mut self) -> (flushed: bool)
        requires
            old(self).wf(),
        ensures
            final(self).wf(),
            flushed == (old(self).batch_seq().len() > 0 && old(self).out_seq().len() < OUT_QUEUE_LEN_MAX),
            flushed ==> final(self).batch_seq().len() == 0,
            flushed ==> final(self).out_seq().len() == old(self).out_seq().len() + 1,
            flushed ==> final(self).out_seq().drop_last() == old(self).out_seq(),
            flushed ==> (final(self).out_seq().last() matches ConnItem::WriteItems(v) && v@ == old(self).batch_seq()),
            !flushed ==> final(self).out_seq() == old(self).out_seq() && final(self).batch_seq()
                == old(self).batch_seq(),
            final(self).written() == old(self).written(),
            final(self).handed() == old(self).handed(),
    {
        if self.batch.len() > 0 && self.out.len() < OUT_QUEUE_LEN_MAX {
            let mut b: Vec<W> = Vec::new();
            std::mem::swap(&mut b, &mut self.batch);
            let ghost bv = b@;
            proof {
                lemma_writes_of_push(self.out@, ConnItem::WriteItems(b));
            }
            self.out.push(ConnItem::WriteItems(b));
            proof {
                assert(self.out@.drop_last() =~= old(self).out@);
                assert(self.handed@ + writes_of(self.out@) + self.batch@ =~= self.written@);
            }
            true
        } else {
            false
        }
    }

    /// Takes write items; a batch that reached its size is flushed.
    pub fn add_writes(&mut self, items: Vec<W>)
        requires
            old(self).wf(),
        ensures
            final(self).wf(),
            final(self).written() == old(self).written() + items@,
            final(self).handed() == old(self).handed(),
    {
        let mut items = items;
        let ghost iv = items@;
        self.batch.append(&mut items);
        proof {
            self.written = Ghost(self.written@ + iv);
            assert(self.handed@ + writes_of(self.out@) + self.batch@ =~= self.written@);
        }
        if self.batch.len() >= WRITE_BATCH_LEN_MAX {
            self.try_flush_write_batch();
        }
    }

    /// The ticker fired: the metrics are queued in any case, the status only
    /// where the output has room after them. Returns whether the status was
    /// queued.
    pub fn on_ticker_fired(&mut self, metrics: T, status: T) -> (emitted: bool)
        requires
            old(self).wf(),
        ensures
            final(self).wf(),
            emitted == (old(self).out_seq().len() + 1 < OUT_QUEUE_LEN_MAX),
            emitted ==> final(self).out_seq() == old(self).out_seq().push(ConnItem::Item(metrics)).push(
                ConnItem::Item(status),
            ),
            !emitted ==> final(self).out_seq() == old(self).out_seq().push(ConnItem::Item(metrics)),
            final(self).batch_seq() == old(self).batch_seq(),
            final(self).written() == old(self).written(),
            final(self).handed() == old(self).handed(),
    {
        self.push_item(metrics);
        if self.out.len() < OUT_QUEUE_LEN_MAX {
            self.push_item(status);
            true
        } else {
            false
        }
    }

    /// Hands out everything that waits, in order.
    pub fn take(&mut self) -> (r: Vec<ConnItem<T, W>>)
        requires
            old(self).wf(),
        ensures
            final(self).wf(),
            r@ == old(self).out_seq(),
            final(self).out_seq().len() == 0,
            final(self).batch_seq() == old(self).batch_seq(),
            final(self).written() == old(self).written(),
            final(self).handed() == old(self).handed() + writes_of(old(self).out_seq()),
    {
        let mut r: Vec<ConnItem<T, W>> = Vec::new();
        std::mem::swap(&mut r, &mut self.out);
        proof {
            self.handed = Ghost(self.handed@ + writes_of(r@));
            assert(writes_of(self.out@) =~= Seq::<W>::empty());
            assert(self.handed@ + writes_of(self.out@) + self.batch@ =~= self.written@);
        }
        r
    }
}


/// How a connection answers a dynamic command.
#[derive(Debug, Clone, Copy, PartialEq, Eq)]
pub enum DynCmdRoute {
    /// The command did not name a connection command.
    BadCommand,
    /// The full status of the connection and its channels.
    StatusFull,
    /// The state of the socket of the connection.
    SocketState,
    /// The connected session answers.
    Forward,
    /// The connection cannot answer in its phase, with this error text.
    Refused(&'static str),
}

/// The text of the refusal of a dynamic command in a phase without session.
pub open spec fn dyn_cmd_refusal_spec(p: ConnPhase) -> Seq<char> {
    match p {
        ConnPhase::Connecting => "CaConn  State::Connecting"@,
        _ => "CaConn  State::Done"@,
    }
}

/// Routes a dynamic command: the full status in any phase; the socket state,
/// or the session's own answer, while connected; an error text otherwise.
pub fn dyn_cmd_route(caconn_cmd: Option<&str>, p: ConnPhase) -> (r: DynCmdRoute)
    ensures
        caconn_cmd is None ==> r == DynCmdRoute::BadCommand,
        caconn_cmd matches Some(c) ==> {
            if c@ == "conn_state_channel_full"@ {
                r == DynCmdRoute::StatusFull
            } else if p is Connected {
                r == (if c@ == "ca_conn_state_proto"@ {
                    DynCmdRoute::SocketState
                } else {
                    DynCmdRoute::Forward
                })
            } else {
                r matches DynCmdRoute::Refused(t) && t@ == dyn_cmd_refusal_spec(p)
            }
        },
{
    match caconn_cmd {
        None => DynCmdRoute::BadCommand,
        Some(c) => {
            if crate::strorder::str_eq(c, "conn_state_channel_full") {
                DynCmdRoute::StatusFull
            } else {
                match p {
                    ConnPhase::Connected(_) => {
                        if crate::strorder::str_eq(c, "ca_conn_state_proto") {
                            DynCmdRoute::SocketState
                        } else {
                            DynCmdRoute::Forward
                        }
                    },
                    ConnPhase::Connecting => DynCmdRoute::Refused("CaConn  State::Connecting"),
                    ConnPhase::Done => DynCmdRoute::Refused("CaConn  State::Done"),
                }
            }
        },
    }
}

/// What a connection's loop does first in a round.
#[derive(Debug, Clone, Copy, PartialEq, Eq, Structural)]
pub enum ConnIntake {
    /// Hand out the queued output.
    EmitOutput,
    /// Wait for the command that is being passed on to the channels.
    AwaitCmdForward,
    /// A finished connection reads no more commands.
    SkipCmds,
    /// Read the next command.
    TakeCmd,
}

/// The order of a connection's loop: queued output goes first; a command
/// that is being passed on is awaited before the next one is read; and a
/// finished connection reads no commands.
pub fn conn_intake(out_buf_len: usize, forwarding: bool, p: ConnPhase) -> (r: ConnIntake)
    ensures
        out_buf_len > 0 ==> r == ConnIntake::EmitOutput,
        out_buf_len == 0 && forwarding ==> r == ConnIntake::AwaitCmdForward,
        out_buf_len == 0 && !forwarding && p is Done ==> r == ConnIntake::SkipCmds,
        out_buf_len == 0 && !forwarding && !(p is Done) ==> r == ConnIntake::TakeCmd,
{
    if out_buf_len != 0 {
        ConnIntake::EmitOutput
    } else if forwarding {
        ConnIntake::AwaitCmdForward
    } else if let ConnPhase::Done = p {
        ConnIntake::SkipCmds
    } else {
        ConnIntake::TakeCmd
    }
}

/// The end of the session ends the connection, whatever phase of it was
/// reached; an ended connection stays ended; and the session's end is the
/// only way out of a connected phase other than the handshake's completion.
pub proof fn lemma_session_end_ends_conn(c: ConnectedPhase, ev: ConnEvent)
    ensures
        conn_phase_spec(ConnPhase::Connected(c), ConnEvent::SessionEnded) == ConnPhase::Done,
        conn_phase_spec(ConnPhase::Done, ev) == ConnPhase::Done,
        conn_phase_spec(ConnPhase::Connected(c), ev) is Done <==> ev is SessionEnded,
{
}

/// A connection goes from connecting through the handshake to its active
/// session: a connected socket starts the connected phases, a failed one
/// ends the connection, and the handshake's completion starts the session.
pub proof fn lemma_conn_phases_forward()
    ensures
        conn_phase_spec(ConnPhase::Connecting, ConnEvent::TcpConnected) == ConnPhase::Connected(ConnectedPhase::Init),
        conn_phase_spec(ConnPhase::Connecting, ConnEvent::TcpFailed) == ConnPhase::Done,
        conn_phase_spec(ConnPhase::Connected(ConnectedPhase::Handshake), ConnEvent::HandshakeDone) == ConnPhase::Connected(
            ConnectedPhase::ActiveCa,
        ),
        conn_phase_spec(ConnPhase::Connecting, ConnEvent::SessionEnded) == ConnPhase::Connecting,
{
}

} // verus!
