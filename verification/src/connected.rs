use vstd::prelude::*;
use crate::activeca;
use crate::activeca::{ActiveCa, CaCommand, CaMsg, InpItem};
use crate::caconn::{ConnectedPhase, CONNECTED_INP_BUF_CAP};

verus! {

/// The state of a connection whose socket is up.
#[derive(Debug)]
pub enum StatusInfoState {
    Init,
    Handshake,
    ActiveCa(activeca::StatusInfo),
    Done,
}

/// A connected connection: its state and the state of its socket, as JSON
/// text.
#[derive(Debug)]
pub struct StatusInfo {
    pub state: StatusInfoState,
    pub socket_state: String,
}


/// A connection whose socket is up: the received messages and the commands
/// that wait, the handshake, then the protocol session. Every received
/// message goes, in the order it came, first to the handshake and then to the
/// session.
pub struct Connected {
    phase: ConnectedPhase,
    inp_buf: Vec<CaMsg>,
    inp_cmd_buf: Vec<CaCommand>,
    session: Option<ActiveCa>,
    rx: Ghost<Seq<CaMsg>>,
    handshake_rx: Ghost<Seq<CaMsg>>,
}

/// The messages that a session took in, if there is one.
pub open spec fn session_msgs(s: Option<ActiveCa>) -> Seq<CaMsg> {
    match s {
        Some(a) => a.msgs_in(),
        None => Seq::empty(),
    }
}

impl Connected {
    pub closed spec fn phase_spec(&self) -> ConnectedPhase {
        self.phase
    }

    pub closed spec fn inp_seq(&self) -> Seq<CaMsg> {
        self.inp_buf@
    }

    pub closed spec fn cmd_seq(&self) -> Seq<CaCommand> {
        self.inp_cmd_buf@
    }

    pub closed spec fn session_spec(&self) -> Option<ActiveCa> {
        self.session
    }

    /// Every message received.
    pub closed spec fn rx(&self) -> Seq<CaMsg> {
        self.rx@
    }

    /// The messages the handshake took.
    pub closed spec fn handshake_rx(&self) -> Seq<CaMsg> {
        self.handshake_rx@
    }

    /// The buffers keep their bounds, a well formed session exists from the
    /// end of the handshake on, and the received messages are, in order,
    /// those of the handshake, those of the session and those that wait.
    pub open spec fn wf(&self) -> bool {
        &&& self.inp_seq().len() <= CONNECTED_INP_BUF_CAP
        &&& self.cmd_seq().len() <= CONNECTED_INP_BUF_CAP
        &&& (self.phase_spec() is ActiveCa ==> self.session_spec() is Some)
        &&& (self.phase_spec() is Init || self.phase_spec() is Handshake ==> self.session_spec() is None)
        &&& (self.session_spec() matches Some(s) ==> s.wf())
        &&& self.rx() == self.handshake_rx() + session_msgs(self.session_spec()) + self.inp_seq()
    }

    pub fn new() -> (r: Self)
        ensures
            r.wf(),
            r.phase_spec() is Init,
            r.inp_seq().len() == 0,
            r.cmd_seq().len() == 0,
            r.session_spec() is None,
            r.rx().len() == 0,
            r.handshake_rx().len() == 0,
    {
        let r = Connected {
            phase: ConnectedPhase::Init,
            inp_buf: Vec::new(),
            inp_cmd_buf: Vec::new(),
            session: None,
            rx: Ghost(Seq::empty()),
            handshake_rx: Ghost(Seq::empty()),
        };
        proof {
            assert(r.rx@ =~= r.handshake_rx@ + session_msgs(r.session) + r.inp_buf@);
        }
        r
    }

    pub fn phase(&self) -> (r: ConnectedPhase)
        ensures
            r == self.phase_spec(),
    {
        self.phase
    }

    pub fn inp_is_space(&self) -> (r: bool)
        ensures
            r == (self.inp_seq().len() < CONNECTED_INP_BUF_CAP),
    {
        self.inp_buf.len() < CONNECTED_INP_BUF_CAP
    }

    pub fn inp_len(&self) -> (r: usize)
        ensures
            r == self.inp_seq().len(),
    {
        self.inp_buf.len()
    }

    pub fn cmd_len(&self) -> (r: usize)
        ensures
            r == self.cmd_seq().len(),
    {
        self.inp_cmd_buf.len()
    }

    /// Takes a received message where the buffer has room, else hands it
    /// back; the socket is read only while there is room.
    pub fn proto_rx(&mut self, msg: CaMsg) -> (r: Option<CaMsg>)
        requires
            old(self).wf(),
        ensures
            final(self).wf(),
            old(self).inp_seq().len() < CONNECTED_INP_BUF_CAP ==> r is None && final(self).inp_seq() == old(
                self,
            ).inp_seq().push(msg) && final(self).rx() == old(self).rx().push(msg),
            old(self).inp_seq().len() >= CONNECTED_INP_BUF_CAP ==> r == Some(msg) && final(self).inp_seq()
                == old(self).inp_seq() && final(self).rx() == old(self).rx(),
            final(self).phase_spec() == old(self).phase_spec(),
            final(self).cmd_seq() == old(self).cmd_seq(),
            final(self).session_spec() == old(self).session_spec(),
            final(self).handshake_rx() == old(self).handshake_rx(),
    {
        if self.inp_buf.len() < CONNECTED_INP_BUF_CAP {
            self.inp_buf.push(msg);
            proof {
                self.rx = Ghost(self.rx@.push(msg));
                assert(self.rx@ =~= self.handshake_rx@ + session_msgs(self.session) + self.inp_buf@);
            }
            None
        } else {
            Some(msg)
        }
    }

    /// Takes a command for the session where the buffer has room, else hands
    /// it back.
    pub fn cmd_push_try(&mut self, cmd: CaCommand) -> (r: Option<CaCommand>)
        requires
            old(self).wf(),
        ensures
            final(self).wf(),
            old(self).cmd_seq().len() < CONNECTED_INP_BUF_CAP ==> r is None && final(self).cmd_seq() == old(
                self,
            ).cmd_seq().push(cmd),
            old(self).cmd_seq().len() >= CONNECTED_INP_BUF_CAP ==> r == Some(cmd) && final(self).cmd_seq()
                == old(self).cmd_seq(),
            final(self).phase_spec() == old(self).phase_spec(),
            final(self).inp_seq() == old(self).inp_seq(),
            final(self).session_spec() == old(self).session_spec(),
            final(self).rx() == old(self).rx(),
            final(self).handshake_rx() == old(self).handshake_rx(),
    {
        if self.inp_cmd_buf.len() < CONNECTED_INP_BUF_CAP {
            self.inp_cmd_buf.push(cmd);
            None
        } else {
            Some(cmd)
        }
    }

    /// The first poll starts the handshake.
    pub fn start_handshake(&mut self) -> (started: bool)
        requires
            old(self).wf(),
        ensures
            final(self).wf(),
            started == (old(self).phase_spec() is Init),
            final(self).phase_spec() == (if started {
                ConnectedPhase::Handshake
            } else {
                old(self).phase_spec()
            }),
            final(self).inp_seq() == old(self).inp_seq(),
            final(self).cmd_seq() == old(self).cmd_seq(),
            final(self).session_spec() == old(self).session_spec(),
            final(self).rx() == old(self).rx(),
            final(self).handshake_rx() == old(self).handshake_rx(),
    {
        if let ConnectedPhase::Init = self.phase {
            self.phase = ConnectedPhase::Handshake;
            true
        } else {
            false
        }
    }

    /// During the handshake, hands it the first received message.
    pub fn handshake_take(&mut self) -> (r: Option<CaMsg>)
        requires
            old(self).wf(),
        ensures
            final(self).wf(),
            r is Some == (old(self).phase_spec() is Handshake && old(self).inp_seq().len() > 0),
            r matches Some(m) ==> m == old(self).inp_seq()[0] && final(self).inp_seq() == old(
                self,
            ).inp_seq().drop_first() && final(self).handshake_rx() == old(self).handshake_rx().push(m),
            r is None ==> final(self).inp_seq() == old(self).inp_seq() && final(self).handshake_rx() == old(
                self,
            ).handshake_rx(),
            final(self).phase_spec() == old(self).phase_spec(),
            final(self).cmd_seq() == old(self).cmd_seq(),
            final(self).session_spec() == old(self).session_spec(),
            final(self).rx() == old(self).rx(),
    {
        if let ConnectedPhase::Handshake = self.phase {
            if self.inp_buf.len() > 0 {
                let ghost before = self.inp_buf@;
                let m = self.inp_buf.remove(0);
                proof {
                    assert(before =~= seq![m] + self.inp_buf@);
                    self.handshake_rx = Ghost(self.handshake_rx@.push(m));
                    assert(session_msgs(self.session) =~= Seq::<CaMsg>::empty());
                    assert(self.rx@ =~= self.handshake_rx@ + session_msgs(self.session) + self.inp_buf@);
                    assert(self.inp_buf@ =~= before.drop_first());
                }
                return Some(m);
            }
        }
        None
    }

    /// The handshake is done: the protocol session starts at `now_ms`.
    pub fn handshake_done(&mut self, now_ms: u64) -> (started: bool)
        requires
            old(self).wf(),
        ensures
            final(self).wf(),
            started == (old(self).phase_spec() is Handshake),
            started ==> final(self).phase_spec() is ActiveCa && final(self).session_spec() is Some
                && final(self).session_spec()->0.is_fresh(now_ms),
            !started ==> final(self).phase_spec() == old(self).phase_spec() && final(self).session_spec() == old(
                self,
            ).session_spec(),
            final(self).inp_seq() == old(self).inp_seq(),
            final(self).cmd_seq() == old(self).cmd_seq(),
            final(self).rx() == old(self).rx(),
            final(self).handshake_rx() == old(self).handshake_rx(),
    {
        if let ConnectedPhase::Handshake = self.phase {
            let s = ActiveCa::new(now_ms);
            self.session = Some(s);
            self.phase = ConnectedPhase::ActiveCa;
            proof {
                assert(session_msgs(self.session) =~= Seq::<CaMsg>::empty());
                assert(self.rx@ =~= self.handshake_rx@ + session_msgs(self.session) + self.inp_buf@);
            }
            true
        } else {
            false
        }
    }

    /// Passes the first waiting command to the session where it has room.
    pub fn pass_cmd(&mut self) -> (passed: bool)
        requires
            old(self).wf(),
        ensures
            final(self).wf(),
            passed == (old(self).phase_spec() is ActiveCa && old(self).cmd_seq().len() > 0 && old(
                self,
            ).session_spec()->0.inp_seq().len() < activeca::ACTIVE_INP_BUF_CAP),
            passed ==> {
                let s = final(self).session_spec()->0;
                let s0 = old(self).session_spec()->0;
                &&& final(self).session_spec() is Some
                &&& final(self).cmd_seq() == old(self).cmd_seq().drop_first()
                &&& s.inp_seq() == s0.inp_seq().push(InpItem::Cmd(old(self).cmd_seq()[0]))
                &&& s.cmds_in() == s0.cmds_in().push(old(self).cmd_seq()[0])
                &&& s.msgs_in() == s0.msgs_in()
                &&& s.state_spec() == s0.state_spec()
            },
            !passed ==> final(self).cmd_seq() == old(self).cmd_seq() && final(self).session_spec() == old(
                self,
            ).session_spec(),
            final(self).phase_spec() == old(self).phase_spec(),
            final(self).inp_seq() == old(self).inp_seq(),
            final(self).rx() == old(self).rx(),
            final(self).handshake_rx() == old(self).handshake_rx(),
    {
        let active = match self.phase {
            ConnectedPhase::ActiveCa => true,
            _ => false,
        };
        if !active || self.inp_cmd_buf.len() == 0 {
            return false;
        }
        let mut s = self.session.take().unwrap();
        if !s.inp_is_space() {
            self.session = Some(s);
            return false;
        }
        let ghost before = self.inp_cmd_buf@;
        let c = self.inp_cmd_buf.remove(0);
        let ghost item = InpItem::Cmd(c);
        let _pushed = s.inp_push_try(InpItem::Cmd(c));
        proof {
            activeca::lemma_one_item(item);
            assert(s.msgs_in() =~= old(self).session->0.msgs_in() + Seq::<CaMsg>::empty());
            assert(self.inp_cmd_buf@ =~= before.drop_first());
        }
        self.session = Some(s);
        proof {
            assert(self.rx@ =~= self.handshake_rx@ + session_msgs(self.session) + self.inp_buf@);
        }
        true
    }

    /// Passes the first received message to the session where it has room.
    pub fn pass_msg(&mut self) -> (passed: bool)
        requires
            old(self).wf(),
        ensures
            final(self).wf(),
            passed == (old(self).phase_spec() is ActiveCa && old(self).inp_seq().len() > 0 && old(
                self,
            ).session_spec()->0.inp_seq().len() < activeca::ACTIVE_INP_BUF_CAP),
            passed ==> {
                let s = final(self).session_spec()->0;
                let s0 = old(self).session_spec()->0;
                &&& final(self).session_spec() is Some
                &&& final(self).inp_seq() == old(self).inp_seq().drop_first()
                &&& s.inp_seq() == s0.inp_seq().push(InpItem::CaMsg(old(self).inp_seq()[0]))
                &&& s.msgs_in() == s0.msgs_in().push(old(self).inp_seq()[0])
                &&& s.cmds_in() == s0.cmds_in()
                &&& s.state_spec() == s0.state_spec()
            },
            !passed ==> final(self).inp_seq() == old(self).inp_seq() && final(self).session_spec() == old(
                self,
            ).session_spec(),
            final(self).phase_spec() == old(self).phase_spec(),
            final(self).cmd_seq() == old(self).cmd_seq(),
            final(self).rx() == old(self).rx(),
            final(self).handshake_rx() == old(self).handshake_rx(),
    {
        let active = match self.phase {
            ConnectedPhase::ActiveCa => true,
            _ => false,
        };
        if !active || self.inp_buf.len() == 0 {
            return false;
        }
        let mut s = self.session.take().unwrap();
        if !s.inp_is_space() {
            self.session = Some(s);
            return false;
        }
        let ghost before = self.inp_buf@;
        let m = self.inp_buf.remove(0);
        let ghost item = InpItem::CaMsg(m);
        let _pushed = s.inp_push_try(InpItem::CaMsg(m));
        proof {
            activeca::lemma_one_item(item);
            assert(s.cmds_in() =~= old(self).session->0.cmds_in() + Seq::<CaCommand>::empty());
            assert(s.msgs_in() =~= old(self).session->0.msgs_in().push(m));
            assert(before =~= seq![m] + self.inp_buf@);
            assert(self.inp_buf@ =~= before.drop_first());
        }
        self.session = Some(s);
        proof {
            assert(self.rx@ =~= self.handshake_rx@ + session_msgs(self.session) + self.inp_buf@);
        }
        true
    }

    /// The session, once the handshake is done, for its own steps.
    pub fn session_mut(&mut self) -> (r: &mut ActiveCa)
        requires
            old(self).wf(),
            old(self).session_spec() is Some,
        ensures
            *r == old(self).session_spec()->0,
            final(self).session_spec() == Some(*final(r)),
            final(self).phase_spec() == old(self).phase_spec(),
            final(self).inp_seq() == old(self).inp_seq(),
            final(self).cmd_seq() == old(self).cmd_seq(),
            final(self).rx() == old(self).rx(),
            final(self).handshake_rx() == old(self).handshake_rx(),
    {
        self.session.as_mut().unwrap()
    }

    /// The socket or the session failed or ended: the connection is done.
    pub fn goto_state_done(&mut self)
        requires
            old(self).wf(),
        ensures
            final(self).wf(),
            final(self).phase_spec() is Done,
            final(self).inp_seq() == old(self).inp_seq(),
            final(self).cmd_seq() == old(self).cmd_seq(),
            final(self).session_spec() == old(self).session_spec(),
            final(self).rx() == old(self).rx(),
            final(self).handshake_rx() == old(self).handshake_rx(),
    {
        self.phase = ConnectedPhase::Done;
    }

    /// Whether the connection is healthy, given the length of its outgoing
    /// protocol queue.
    pub fn health_check(&self, proto_out_len: usize) -> (r: bool)
        ensures
            r == (proto_out_len <= crate::caconn::PROTO_OUT_LEN_HEALTHY_MAX && self.inp_seq().len() <= 10
                * CONNECTED_INP_BUF_CAP && self.cmd_seq().len() <= 10 * CONNECTED_INP_BUF_CAP),
    {
        crate::caconn::connected_health_check(proto_out_len, self.inp_buf.len(), self.inp_cmd_buf.len())
    }

    /// Why a dynamic command cannot be served in the current phase; `None`
    /// where the session serves it.
    pub fn dyn_cmd_refusal(&self) -> (r: Option<&'static str>)
        ensures
            match self.phase_spec() {
                ConnectedPhase::Init => r matches Some(t) && t@ == "CaConn  Connected  State::Init"@,
                ConnectedPhase::Handshake => r matches Some(t) && t@ == "CaConn  Connected  State::Handshake"@,
                ConnectedPhase::ActiveCa => r is None,
                ConnectedPhase::Done => r matches Some(t) && t@ == "CaConn  Connected  State::Done"@,
            },
    {
        match self.phase {
            ConnectedPhase::Init => Some("CaConn  Connected  State::Init"),
            ConnectedPhase::Handshake => Some("CaConn  Connected  State::Handshake"),
            ConnectedPhase::ActiveCa => None,
            ConnectedPhase::Done => Some("CaConn  Connected  State::Done"),
        }
    }

    /// The status of the connection, with the state of its socket and, while
    /// the session runs, that of its channel heap.
    pub fn status_info(&self, socket_state: String, heap: crate::channelheap::StatusInfo) -> (r: StatusInfo)
        requires
            self.wf(),
        ensures
            r.socket_state == socket_state,
            match self.phase_spec() {
                ConnectedPhase::Init => r.state is Init,
                ConnectedPhase::Handshake => r.state is Handshake,
                ConnectedPhase::ActiveCa => r.state matches StatusInfoState::ActiveCa(st) && match self.session_spec()->0.state_spec() {
                    activeca::SessionState::Running(p) => st.state matches activeca::StatusInfoState::Running(ri, h)
                        && h == heap && ri.pingpong == (match p.phase {
                        activeca::PingPhase::Idle => activeca::PingPongInfo::Idle(p.until_ms),
                        activeca::PingPhase::Send { .. } => activeca::PingPongInfo::Send(p.until_ms),
                        activeca::PingPhase::Wait => activeca::PingPongInfo::Wait(p.until_ms),
                    }),
                    activeca::SessionState::Done => st.state is Done,
                },
                ConnectedPhase::Done => r.state is Done,
            },
    {
        match self.phase {
            ConnectedPhase::Init => StatusInfo { state: StatusInfoState::Init, socket_state },
            ConnectedPhase::Handshake => StatusInfo { state: StatusInfoState::Handshake, socket_state },
            ConnectedPhase::ActiveCa => {
                let st = match &self.session {
                    Some(s) => s.status_info(heap),
                    None => activeca::StatusInfo { state: activeca::StatusInfoState::Done },
                };
                StatusInfo { state: StatusInfoState::ActiveCa(st), socket_state }
            },
            ConnectedPhase::Done => StatusInfo { state: StatusInfoState::Done, socket_state },
        }
    }
}

/// A connection hands every received message, in order, first to its
/// handshake and then to its session: what the session took in follows what
/// the handshake took, in the order received.
pub proof fn lemma_received_order(c: Connected)
    requires
        c.wf(),
    ensures
        c.handshake_rx() == c.rx().take(c.handshake_rx().len() as int),
        session_msgs(c.session_spec()) == c.rx().subrange(
            c.handshake_rx().len() as int,
            (c.handshake_rx().len() + session_msgs(c.session_spec()).len()) as int,
        ),
{
    let h = c.handshake_rx();
    let m = session_msgs(c.session_spec());
    let w = c.inp_seq();
    assert(c.rx() =~= h + m + w);
    assert((h + m + w).take(h.len() as int) =~= h);
    assert((h + m + w).subrange(h.len() as int, (h.len() + m.len()) as int) =~= m);
}

/// What the active session hands out: a message for the peer, or an item
/// for the connection's caller.
#[derive(Debug)]
pub enum SessionItem<T> {
    ProtoOut(CaMsg),
    Up(T),
}

/// The messages for the peer among `s`, in order.
pub open spec fn wire_of<T>(s: Seq<SessionItem<T>>) -> Seq<CaMsg>
    decreases s.len(),
{
    if s.len() == 0 {
        Seq::empty()
    } else {
        match s.last() {
            SessionItem::ProtoOut(m) => wire_of(s.drop_last()).push(m),
            SessionItem::Up(_) => wire_of(s.drop_last()),
        }
    }
}

/// The items for the caller among `s`, in order.
pub open spec fn up_of<T>(s: Seq<SessionItem<T>>) -> Seq<T>
    decreases s.len(),
{
    if s.len() == 0 {
        Seq::empty()
    } else {
        match s.last() {
            SessionItem::ProtoOut(_) => up_of(s.drop_last()),
            SessionItem::Up(x) => up_of(s.drop_last()).push(x),
        }
    }
}

/// Routes a batch of the active session's output: messages for the peer go
/// to the wire, everything else to the connection's caller, each in its
/// order.
pub fn split_session_items<T>(items: Vec<SessionItem<T>>) -> (r: (Vec<CaMsg>, Vec<T>))
    ensures
        r.0@ == wire_of(items@),
        r.1@ == up_of(items@),
{
    let ghost orig = items@;
    let mut rest = items;
    let mut wire: Vec<CaMsg> = Vec::new();
    let mut up: Vec<T> = Vec::new();
    let ghost mut k: int = 0;
    proof {
        assert(orig.subrange(0, 0) =~= Seq::<SessionItem<T>>::empty());
        assert(orig.subrange(0, orig.len() as int) =~= orig);
    }
    while rest.len() > 0
        invariant
            0 <= k <= orig.len(),
            rest@ == orig.subrange(k, orig.len() as int),
            wire@ == wire_of(orig.subrange(0, k)),
            up@ == up_of(orig.subrange(0, k)),
        decreases rest@.len(),
    {
        let x = rest.remove(0);
        proof {
            assert(x == orig[k]);
            assert(orig.subrange(0, k + 1).drop_last() =~= orig.subrange(0, k));
            assert(orig.subrange(0, k + 1).last() == x);
        }
        match x {
            SessionItem::ProtoOut(m) => wire.push(m),
            SessionItem::Up(u) => up.push(u),
        }
        proof {
            k = k + 1;
            assert(rest@ =~= orig.subrange(k, orig.len() as int));
        }
    }
    proof {
        assert(orig.subrange(0, k) =~= orig);
    }
    (wire, up)
}

} // verus!
