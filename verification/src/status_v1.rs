use vstd::prelude::*;
use crate::activeca;
use crate::addr::AddrV4;
use crate::channel::ChannelInfo;
use crate::channel::ChannelStatusLight;
use crate::channelhandler::Counters;
use crate::channelheap;
use crate::conn;
use crate::conn::StatusDetail;
use crate::connected;
use crate::connset::ConnsetChannels;
use crate::connset::StatusV1Res;
use crate::gather::GatherError;
use crate::regexsel::opt_duplicate;
use crate::regexsel::opt_pattern;
use crate::regexsel::opt_selects;
use crate::regexsel::regex_compile_error;
use crate::regexsel::selects;
use crate::regexsel::CompiledRegex;

verus! {

/// The query of the status endpoints.
#[derive(Debug, Clone, PartialEq, Eq)]
pub struct StatusQuery {
    /// Regex matched against the channel name. Unanchored: it matches anywhere
    /// in the name. Absent matches every channel.
    pub channel_regex: Option<String>,
    /// Regex matched against the `ip:port` of the connection. Unanchored.
    /// Absent matches every connection.
    pub addr_regex: Option<String>,
}

pub open spec fn opt_view(o: Option<String>) -> Option<Seq<char>> {
    match o {
        None => None,
        Some(s) => Some(s@),
    }
}

/// The failures of the status endpoints.
#[derive(Debug, Clone, PartialEq, Eq)]
pub enum StatusApiError {
    BadChannelRegex(String),
    BadAddrRegex(String),
    Conn2NotActive,
    ConnSet(String),
}

impl StatusApiError {
    pub open spec fn kind_spec(&self) -> Seq<char> {
        match self {
            StatusApiError::BadChannelRegex(..) | StatusApiError::BadAddrRegex(..) => "bad-regex"@,
            StatusApiError::Conn2NotActive => "conn2-not-active"@,
            StatusApiError::ConnSet(..) => "connset-unavailable"@,
        }
    }

    /// The stable machine-readable name of the failure.
    pub fn kind(&self) -> (r: &'static str)
        ensures
            r@ == self.kind_spec(),
    {
        match self {
            StatusApiError::BadChannelRegex(..) | StatusApiError::BadAddrRegex(..) => "bad-regex",
            StatusApiError::Conn2NotActive => "conn2-not-active",
            StatusApiError::ConnSet(..) => "connset-unavailable",
        }
    }

    /// The HTTP status of the failure: a bad regex is the caller's fault, a
    /// missing ingest path makes the service unavailable, and a connection
    /// set that does not answer is a gateway timeout.
    pub fn status_code(&self) -> (r: u16)
        ensures
            r == (match self {
                StatusApiError::BadChannelRegex(..) | StatusApiError::BadAddrRegex(..) => 400u16,
                StatusApiError::Conn2NotActive => 503u16,
                StatusApiError::ConnSet(..) => 504u16,
            }),
    {
        match self {
            StatusApiError::BadChannelRegex(..) | StatusApiError::BadAddrRegex(..) => 400,
            StatusApiError::Conn2NotActive => 503,
            StatusApiError::ConnSet(..) => 504,
        }
    }
}

/// The body of a failed status request.
#[derive(Debug, Clone, PartialEq, Eq)]
pub struct StatusErrorBody {
    /// Stable machine-readable discriminator: `bad-regex`, `conn2-not-active`,
    /// `connset-unavailable`.
    pub kind: String,
    pub error: String,
}

/// The selection of a status request: which connections by address and
/// which channels by name.
pub struct ChannelSelector {
    addr: Option<CompiledRegex>,
    channel: Option<CompiledRegex>,
}

/// The part of a status request that a connection applies to its channels.
pub struct StatusSel {
    pub channel_regex: Option<CompiledRegex>,
    pub detail: StatusDetail,
}

impl StatusSel {
    /// Whether a channel of this name is selected.
    pub fn matches(&self, name: &str) -> (r: bool)
        ensures
            r == selects(opt_pattern(self.channel_regex), name@),
    {
        opt_selects(&self.channel_regex, name)
    }
}

/// Whether a compiled optional pattern is what the query asked for.
pub open spec fn compiled_from(c: Option<CompiledRegex>, q: Option<String>) -> bool {
    opt_pattern(c) == opt_view(q)
}

/// Whether an optional pattern of a query compiles.
pub open spec fn query_pattern_ok(q: Option<String>) -> bool {
    match q {
        None => true,
        Some(p) => regex_compile_error(p@) is None,
    }
}

fn compile_opt(q: &Option<String>) -> (r: Result<Option<CompiledRegex>, String>)
    ensures
        r is Ok <==> query_pattern_ok(*q),
        r matches Ok(c) ==> compiled_from(c, *q),
        r matches Err(e) ==> q is Some && regex_compile_error(q.unwrap()@) == Some(e@),
{
    match q {
        None => Ok(None),
        Some(p) => match CompiledRegex::compile(p.as_str()) {
            Ok(c) => Ok(Some(c)),
            Err(e) => Err(e),
        },
    }
}

impl ChannelSelector {
    pub closed spec fn addr_pat(&self) -> Option<Seq<char>> {
        opt_pattern(self.addr)
    }

    pub closed spec fn channel_pat(&self) -> Option<Seq<char>> {
        opt_pattern(self.channel)
    }

    /// The selection that a query asks for. The channel regex is compiled
    /// first: where both fail, the channel's failure is reported.
    pub fn from_query(q: &StatusQuery) -> (r: Result<Self, StatusApiError>)
        ensures
            r is Ok <==> query_pattern_ok(q.channel_regex) && query_pattern_ok(q.addr_regex),
            r matches Ok(s) ==> s.channel_pat() == opt_view(q.channel_regex) && s.addr_pat()
                == opt_view(q.addr_regex),
            r matches Err(e) ==> (if !query_pattern_ok(q.channel_regex) {
                e matches StatusApiError::BadChannelRegex(m) && Some(m@) == regex_compile_error(
                    q.channel_regex.unwrap()@,
                )
            } else {
                e matches StatusApiError::BadAddrRegex(m) && Some(m@) == regex_compile_error(
                    q.addr_regex.unwrap()@,
                )
            }),
    {
        let channel = match compile_opt(&q.channel_regex) {
            Ok(c) => c,
            Err(e) => {
                return Err(StatusApiError::BadChannelRegex(e));
            },
        };
        let addr = match compile_opt(&q.addr_regex) {
            Ok(c) => c,
            Err(e) => {
                return Err(StatusApiError::BadAddrRegex(e));
            },
        };
        Ok(ChannelSelector { addr, channel })
    }

    /// The address pattern; empty where none was given.
    pub fn addr_pattern(&self) -> (r: &str)
        ensures
            r@ == (match self.addr_pat() {
                None => Seq::<char>::empty(),
                Some(p) => p,
            }),
    {
        proof {
            reveal_strlit("");
        }
        match &self.addr {
            None => "",
            Some(x) => x.as_str(),
        }
    }

    /// The channel pattern; empty where none was given.
    pub fn channel_pattern(&self) -> (r: &str)
        ensures
            r@ == (match self.channel_pat() {
                None => Seq::<char>::empty(),
                Some(p) => p,
            }),
    {
        proof {
            reveal_strlit("");
        }
        match &self.channel {
            None => "",
            Some(x) => x.as_str(),
        }
    }

    /// Whether the connection to this address is selected, by its text
    /// `ip:port`.
    pub fn matches_addr(&self, addr: &AddrV4) -> (r: bool)
        ensures
            r == selects(self.addr_pat(), addr.text()),
    {
        let t = addr.to_text();
        opt_selects(&self.addr, t.as_str())
    }

    /// Whether a channel of this name is selected.
    pub fn matches_channel(&self, name: &str) -> (r: bool)
        ensures
            r == selects(self.channel_pat(), name@),
    {
        opt_selects(&self.channel, name)
    }

    /// The channel part of the selection, with the detail asked for.
    pub fn status_sel(&self, detail: StatusDetail) -> (r: StatusSel)
        ensures
            opt_pattern(r.channel_regex) == self.channel_pat(),
            r.detail == detail,
    {
        StatusSel { channel_regex: opt_duplicate(&self.channel), detail }
    }
}

/// The overview of the status endpoints.
#[derive(Debug)]
pub struct StatusLight {
    /// RFC3339.
    pub ts: String,
    pub ingest_name: String,
    pub conn_count_total: u32,
    pub conn_count_matched: u32,
    pub connset_channel_count_total: u32,
    pub connset_channels: Vec<ChannelStatusLight>,
    pub conns: Vec<StatusLightConn>,
}

/// One connection in the overview.
#[derive(Debug)]
pub struct StatusLightConn {
    pub addr: String,
    /// `Connecting`, `Connected` or `Done`.
    pub state: String,
    /// `Init`, `Handshake`, `ActiveCa` or `Done`, once the connection is up.
    pub connected_state: Option<String>,
    /// `Running` or `Done`, once the CA session is active.
    pub activeca_state: Option<String>,
    pub channel_count_total: u32,
    pub channels: Vec<StatusLightChannel>,
    /// Set when this connection did not answer. The connection is still
    /// listed, so a wedged connection is visible rather than silently missing.
    pub error: Option<String>,
}

/// One channel of a connection in the overview.
#[derive(Debug, Clone, PartialEq, Eq)]
pub struct StatusLightChannel {
    pub name: String,
    pub cid: u32,
    pub state: String,
    pub state_elapsed_ms: u64,
    pub proto_inp_buf_len: u32,
    pub outbuf_len: u32,
    pub enum_variants_len: Option<u32>,
    pub event_add_res_cnt: u64,
}

/// One channel of a connection in the full status.
#[derive(Debug, Clone, PartialEq, Eq)]
pub struct StatusFullChannel {
    pub name: String,
    pub cid: u32,
    pub state: String,
    pub state_elapsed_ms: u64,
    pub counters: Counters,
}

/// A channel of the connection set in the full status.
#[derive(Debug)]
pub struct StatusFullConnsetChannel {
    pub name: String,
    pub info: ChannelInfo,
}

/// One connection in the full status.
#[derive(Debug)]
pub struct StatusFullConn {
    pub addr: String,
    pub state: String,
    pub connected_state: Option<String>,
    pub activeca_state: Option<String>,
    /// The state of the socket, as JSON text, once connected.
    pub socket_state: Option<String>,
    pub channel_count_total: u32,
    pub channels: Vec<StatusFullChannel>,
    pub error: Option<String>,
}

/// The full status document.
#[derive(Debug)]
pub struct StatusFull {
    pub ts: String,
    pub ingest_name: String,
    pub conn_count_total: u32,
    pub conn_count_matched: u32,
    pub connset_channel_count_total: u32,
    pub connset_channels: Vec<StatusFullConnsetChannel>,
    pub conns: Vec<StatusFullConn>,
}

/// The names of the states of one connection: of the connection, of its
/// socket session once connected, and of its protocol session once active.
pub open spec fn state_names_spec(st: conn::StatusState) -> (Seq<char>, Option<Seq<char>>, Option<
    Seq<char>,
>) {
    match st {
        conn::StatusState::Connecting => ("Connecting"@, None, None),
        conn::StatusState::Done => ("Done"@, None, None),
        conn::StatusState::Connected(c) => match c.state {
            connected::StatusInfoState::Init => ("Connected"@, Some("Init"@), None),
            connected::StatusInfoState::Handshake => ("Connected"@, Some("Handshake"@), None),
            connected::StatusInfoState::Done => ("Connected"@, Some("Done"@), None),
            connected::StatusInfoState::ActiveCa(a) => (
                "Connected"@,
                Some("ActiveCa"@),
                Some(
                    match a.state {
                        activeca::StatusInfoState::Running(..) => "Running"@,
                        activeca::StatusInfoState::Done => "Done"@,
                    },
                ),
            ),
        },
    }
}

fn some_string(s: &str) -> (r: Option<String>)
    ensures
        opt_view(r) == Some(s@),
{
    Some(String::from_str(s))
}

/// The state names of one connection, as the flat triple the wire types use.
pub fn state_names(st: &conn::StatusState) -> (r: (String, Option<String>, Option<String>))
    ensures
        r.0@ == state_names_spec(*st).0,
        opt_view(r.1) == state_names_spec(*st).1,
        opt_view(r.2) == state_names_spec(*st).2,
{
    match st {
        conn::StatusState::Connecting => (String::from_str("Connecting"), None, None),
        conn::StatusState::Done => (String::from_str("Done"), None, None),
        conn::StatusState::Connected(c) => match &c.state {
            connected::StatusInfoState::Init => (String::from_str("Connected"), some_string("Init"), None),
            connected::StatusInfoState::Handshake => (
                String::from_str("Connected"),
                some_string("Handshake"),
                None,
            ),
            connected::StatusInfoState::Done => (String::from_str("Connected"), some_string("Done"), None),
            connected::StatusInfoState::ActiveCa(a) => {
                let inner = match &a.state {
                    activeca::StatusInfoState::Running(..) => some_string("Running"),
                    activeca::StatusInfoState::Done => some_string("Done"),
                };
                (String::from_str("Connected"), some_string("ActiveCa"), inner)
            },
        },
    }
}

/// The channel heap of a connection, present where its protocol session runs.
pub open spec fn chanheap_spec(st: conn::StatusState) -> Option<channelheap::StatusInfo> {
    match st {
        conn::StatusState::Connected(c) => match c.state {
            connected::StatusInfoState::ActiveCa(a) => match a.state {
                activeca::StatusInfoState::Running(_, heap) => Some(heap),
                activeca::StatusInfoState::Done => None,
            },
            _ => None,
        },
        _ => None,
    }
}

/// The channel heap of a connection, if it got far enough to have one.
pub fn chanheap_of(st: &conn::StatusState) -> (r: Option<&channelheap::StatusInfo>)
    ensures
        match chanheap_spec(*st) {
            Some(h) => r is Some && *r.unwrap() == h,
            None => r is None,
        },
{
    match st {
        conn::StatusState::Connected(c) => match &c.state {
            connected::StatusInfoState::ActiveCa(a) => match &a.state {
                activeca::StatusInfoState::Running(_, heap) => Some(heap),
                activeca::StatusInfoState::Done => None,
            },
            _ => None,
        },
        _ => None,
    }
}

/// Whether an overview channel shows a channel handler: a running handler
/// with its snapshot, a finished one with zeros.
pub open spec fn light_channel_ok(c: StatusLightChannel, h: channelheap::StatusChannelHandler) -> bool {
    &&& c.name@ == h.name@
    &&& c.cid == h.cid
    &&& match h.state {
        channelheap::StatusChannelHandlerState::Active(hi) => {
            &&& c.state@ == hi.state_short@
            &&& c.state_elapsed_ms == hi.state_elapsed_ms
            &&& c.proto_inp_buf_len == hi.proto_inp_buf.len as u32
            &&& c.outbuf_len == hi.outbuf.len as u32
            &&& c.enum_variants_len == hi.enum_variants_len
            &&& c.event_add_res_cnt == hi.counters.event_add_res_cnt
        },
        channelheap::StatusChannelHandlerState::Done => {
            &&& c.state@ == "Done"@
            &&& c.state_elapsed_ms == 0
            &&& c.proto_inp_buf_len == 0
            &&& c.outbuf_len == 0
            &&& c.enum_variants_len is None
            &&& c.event_add_res_cnt == 0
        },
    }
}

/// Whether an overview connection shows the status a connection gave, or
/// the reason it gave none.
pub open spec fn flatten_light_ok(
    c: StatusLightConn,
    addr: AddrV4,
    res: Result<conn::StatusInfo, GatherError>,
) -> bool {
    &&& c.addr@ == addr.text()
    &&& match res {
        Err(e) => {
            &&& c.state@ == "Unknown"@
            &&& c.connected_state is None
            &&& c.activeca_state is None
            &&& c.channel_count_total == 0
            &&& c.channels@.len() == 0
            &&& opt_view(c.error) == Some(e.text())
        },
        Ok(st) => {
            &&& c.state@ == state_names_spec(st.state).0
            &&& opt_view(c.connected_state) == state_names_spec(st.state).1
            &&& opt_view(c.activeca_state) == state_names_spec(st.state).2
            &&& c.error is None
            &&& match chanheap_spec(st.state) {
                None => c.channel_count_total == 0 && c.channels@.len() == 0,
                Some(heap) => {
                    &&& c.channel_count_total == heap.channel_count_total
                    &&& c.channels@.len() == heap.handlers@.len()
                    &&& forall|i: int|
                        0 <= i < c.channels@.len() ==> #[trigger] light_channel_ok(
                            c.channels@[i],
                            heap.handlers@[i],
                        )
                },
            }
        },
    }
}

fn light_channel(h: &channelheap::StatusChannelHandler) -> (c: StatusLightChannel)
    ensures
        light_channel_ok(c, *h),
{
    match &h.state {
        channelheap::StatusChannelHandlerState::Active(hi) => StatusLightChannel {
            name: h.name.clone(),
            cid: h.cid,
            state: hi.state_short.clone(),
            state_elapsed_ms: hi.state_elapsed_ms,
            proto_inp_buf_len: hi.proto_inp_buf.len as u32,
            outbuf_len: hi.outbuf.len as u32,
            enum_variants_len: hi.enum_variants_len,
            event_add_res_cnt: hi.counters.event_add_res_cnt,
        },
        channelheap::StatusChannelHandlerState::Done => StatusLightChannel {
            name: h.name.clone(),
            cid: h.cid,
            state: String::from_str("Done"),
            state_elapsed_ms: 0,
            proto_inp_buf_len: 0,
            outbuf_len: 0,
            enum_variants_len: None,
            event_add_res_cnt: 0,
        },
    }
}

/// One connection of the overview, from the status it gave or the reason it
/// gave none: a connection that did not answer is still listed, with the
/// reason, and only a running protocol session has channels.
pub fn flatten_light(addr: AddrV4, res: Result<conn::StatusInfo, GatherError>) -> (r: StatusLightConn)
    ensures
        flatten_light_ok(r, addr, res),
{
    let st = match &res {
        Err(e) => {
            proof {
                reveal_strlit("Unknown");
            }
            return StatusLightConn {
                addr: addr.to_text(),
                state: String::from_str("Unknown"),
                connected_state: None,
                activeca_state: None,
                channel_count_total: 0,
                channels: Vec::new(),
                error: Some(e.to_text()),
            };
        },
        Ok(x) => x,
    };
    let (state, connected_state, activeca_state) = state_names(&st.state);
    let heap = chanheap_of(&st.state);
    let mut channels: Vec<StatusLightChannel> = Vec::new();
    let mut channel_count_total: u32 = 0;
    match heap {
        Some(heap) => {
            channel_count_total = heap.channel_count_total;
            let n = heap.handlers.len();
            let mut i: usize = 0;
            while i < n
                invariant
                    0 <= i <= n,
                    n == heap.handlers@.len(),
                    channels@.len() == i,
                    forall|j: int| 0 <= j < i ==> #[trigger] light_channel_ok(channels@[j], heap.handlers@[j]),
                decreases n - i,
            {
                let c = light_channel(&heap.handlers[i]);
                channels.push(c);
                i = i + 1;
            }
        },
        None => {},
    }
    StatusLightConn {
        addr: addr.to_text(),
        state,
        connected_state,
        activeca_state,
        channel_count_total,
        channels,
        error: None,
    }
}

/// Whether a full channel entry shows a channel handler: a running handler
/// with its snapshot and counters, a finished one with zero counters.
pub open spec fn full_channel_ok(c: StatusFullChannel, h: channelheap::StatusChannelHandler) -> bool {
    &&& c.name@ == h.name@
    &&& c.cid == h.cid
    &&& match h.state {
        channelheap::StatusChannelHandlerState::Active(hi) => {
            &&& c.state@ == hi.state_short@
            &&& c.state_elapsed_ms == hi.state_elapsed_ms
            &&& c.counters == hi.counters
        },
        channelheap::StatusChannelHandlerState::Done => {
            &&& c.state@ == "Done"@
            &&& c.state_elapsed_ms == 0
            &&& c.counters.event_add_res_cnt == 0
        },
    }
}

/// The socket state of a connection, once connected.
pub open spec fn socket_state_spec(st: conn::StatusState) -> Option<Seq<char>> {
    match st {
        conn::StatusState::Connected(c) => Some(c.socket_state@),
        _ => None,
    }
}

/// Whether a full connection entry shows the status a connection gave, or
/// the reason it gave none.
pub open spec fn flatten_full_ok(
    c: StatusFullConn,
    addr: AddrV4,
    res: Result<conn::StatusInfo, GatherError>,
) -> bool {
    &&& c.addr@ == addr.text()
    &&& match res {
        Err(e) => {
            &&& c.state@ == "Unknown"@
            &&& c.connected_state is None
            &&& c.activeca_state is None
            &&& c.socket_state is None
            &&& c.channel_count_total == 0
            &&& c.channels@.len() == 0
            &&& opt_view(c.error) == Some(e.text())
        },
        Ok(st) => {
            &&& c.state@ == state_names_spec(st.state).0
            &&& opt_view(c.connected_state) == state_names_spec(st.state).1
            &&& opt_view(c.activeca_state) == state_names_spec(st.state).2
            &&& opt_view(c.socket_state) == socket_state_spec(st.state)
            &&& c.error is None
            &&& match chanheap_spec(st.state) {
                None => c.channel_count_total == 0 && c.channels@.len() == 0,
                Some(heap) => {
                    &&& c.channel_count_total == heap.channel_count_total
                    &&& c.channels@.len() == heap.handlers@.len()
                    &&& forall|i: int|
                        0 <= i < c.channels@.len() ==> #[trigger] full_channel_ok(
                            c.channels@[i],
                            heap.handlers@[i],
                        )
                },
            }
        },
    }
}

fn full_channel(h: &channelheap::StatusChannelHandler) -> (c: StatusFullChannel)
    ensures
        full_channel_ok(c, *h),
{
    match &h.state {
        channelheap::StatusChannelHandlerState::Active(hi) => StatusFullChannel {
            name: h.name.clone(),
            cid: h.cid,
            state: hi.state_short.clone(),
            state_elapsed_ms: hi.state_elapsed_ms,
            counters: hi.counters,
        },
        channelheap::StatusChannelHandlerState::Done => StatusFullChannel {
            name: h.name.clone(),
            cid: h.cid,
            state: String::from_str("Done"),
            state_elapsed_ms: 0,
            counters: Counters::zero(),
        },
    }
}

/// One connection of the full status, as `flatten_light` but with the state
/// of the socket and the counters of each channel.
pub fn flatten_full(addr: AddrV4, res: Result<conn::StatusInfo, GatherError>) -> (r: StatusFullConn)
    ensures
        flatten_full_ok(r, addr, res),
{
    let st = match &res {
        Err(e) => {
            proof {
                reveal_strlit("Unknown");
            }
            return StatusFullConn {
                addr: addr.to_text(),
                state: String::from_str("Unknown"),
                connected_state: None,
                activeca_state: None,
                socket_state: None,
                channel_count_total: 0,
                channels: Vec::new(),
                error: Some(e.to_text()),
            };
        },
        Ok(x) => x,
    };
    let (state, connected_state, activeca_state) = state_names(&st.state);
    let socket_state = match &st.state {
        conn::StatusState::Connected(c) => Some(c.socket_state.clone()),
        _ => None,
    };
    let heap = chanheap_of(&st.state);
    let mut channels: Vec<StatusFullChannel> = Vec::new();
    let mut channel_count_total: u32 = 0;
    match heap {
        Some(heap) => {
            channel_count_total = heap.channel_count_total;
            let n = heap.handlers.len();
            let mut i: usize = 0;
            while i < n
                invariant
                    0 <= i <= n,
                    n == heap.handlers@.len(),
                    channels@.len() == i,
                    forall|j: int| 0 <= j < i ==> #[trigger] full_channel_ok(channels@[j], heap.handlers@[j]),
                decreases n - i,
            {
                let c = full_channel(&heap.handlers[i]);
                channels.push(c);
                i = i + 1;
            }
        },
        None => {},
    }
    StatusFullConn {
        addr: addr.to_text(),
        state,
        connected_state,
        activeca_state,
        socket_state,
        channel_count_total,
        channels,
        error: None,
    }
}

/// The full status document from the answer of the connection set: every
/// connection of the answer, in order, flattened with `flatten_full`; the
/// connection set's channels where it gave them in full.
pub fn assemble_full(res: StatusV1Res) -> (r: StatusFull)
    ensures
        r.ts == res.ts,
        r.ingest_name == res.ingest_name,
        r.conn_count_total == res.conn_count_total,
        r.conn_count_matched == res.conn_count_matched,
        r.connset_channel_count_total == res.connset_channel_count_total,
        r.connset_channels@.len() == (match res.connset_channels {
            ConnsetChannels::Full(x) => x@.len(),
            ConnsetChannels::Light(..) => 0,
        }),
        res.connset_channels matches ConnsetChannels::Full(x) ==> forall|i: int|
            0 <= i < x@.len() ==> (#[trigger] r.connset_channels@[i]).name == x@[i].0 && r.connset_channels@[i].info
                == x@[i].1,
        r.conns@.len() == res.conns@.len(),
        forall|i: int|
            0 <= i < r.conns@.len() ==> flatten_full_ok(#[trigger] r.conns@[i], res.conns@[i].0, res.conns@[i].1),
{
    let mut connset_channels: Vec<StatusFullConnsetChannel> = Vec::new();
    match res.connset_channels {
        ConnsetChannels::Full(x) => {
            let ghost xs = x@;
            let mut rest = x;
            while rest.len() > 0
                invariant
                    connset_channels@.len() + rest@.len() == xs.len(),
                    rest@ == xs.subrange(connset_channels@.len() as int, xs.len() as int),
                    forall|i: int|
                        0 <= i < connset_channels@.len() ==> (#[trigger] connset_channels@[i]).name == xs[i].0
                            && connset_channels@[i].info == xs[i].1,
                decreases rest@.len(),
            {
                let ghost k = connset_channels@.len();
                let (name, info) = rest.remove(0);
                assert(xs[k as int] == (name, info));
                connset_channels.push(StatusFullConnsetChannel { name, info });
                assert(rest@ =~= xs.subrange(connset_channels@.len() as int, xs.len() as int));
            }
        },
        ConnsetChannels::Light(..) => {},
    }
    let ghost orig = res.conns@;
    let mut inp = res.conns;
    let mut conns: Vec<StatusFullConn> = Vec::new();
    let n = inp.len();
    while inp.len() > 0
        invariant
            n == orig.len(),
            conns@.len() + inp@.len() == n,
            inp@ == orig.subrange(conns@.len() as int, n as int),
            forall|j: int| 0 <= j < conns@.len() ==> flatten_full_ok(#[trigger] conns@[j], orig[j].0, orig[j].1),
        decreases inp@.len(),
    {
        let ghost k = conns@.len();
        let (a, r) = inp.remove(0);
        assert(orig[k as int] == (a, r));
        let c = flatten_full(a, r);
        conns.push(c);
        assert(inp@ =~= orig.subrange(conns@.len() as int, n as int));
    }
    StatusFull {
        ts: res.ts,
        ingest_name: res.ingest_name,
        conn_count_total: res.conn_count_total,
        conn_count_matched: res.conn_count_matched,
        connset_channel_count_total: res.connset_channel_count_total,
        connset_channels,
        conns,
    }
}

/// The connection set's channels of a status answer, where it gave them in
/// the overview's form.
pub open spec fn light_channels_of(c: ConnsetChannels) -> Seq<ChannelStatusLight> {
    match c {
        ConnsetChannels::Light(x) => x@,
        ConnsetChannels::Full(..) => Seq::empty(),
    }
}

/// The overview document from the answer of the connection set: every
/// connection of the answer, in order, flattened.
pub fn assemble_light(res: StatusV1Res) -> (r: StatusLight)
    ensures
        r.ts == res.ts,
        r.ingest_name == res.ingest_name,
        r.conn_count_total == res.conn_count_total,
        r.conn_count_matched == res.conn_count_matched,
        r.connset_channel_count_total == res.connset_channel_count_total,
        r.connset_channels@ == light_channels_of(res.connset_channels),
        r.conns@.len() == res.conns@.len(),
        forall|i: int|
            0 <= i < r.conns@.len() ==> flatten_light_ok(
                #[trigger] r.conns@[i],
                res.conns@[i].0,
                res.conns@[i].1,
            ),
{
    let connset_channels = match res.connset_channels {
        ConnsetChannels::Light(x) => x,
        ConnsetChannels::Full(..) => Vec::new(),
    };
    let ghost orig = res.conns@;
    let mut inp = res.conns;
    let mut conns: Vec<StatusLightConn> = Vec::new();
    let n = inp.len();
    while inp.len() > 0
        invariant
            n == orig.len(),
            conns@.len() + inp@.len() == n,
            inp@ == orig.subrange(conns@.len() as int, n as int),
            forall|j: int|
                0 <= j < conns@.len() ==> flatten_light_ok(
                    #[trigger] conns@[j],
                    orig[j].0,
                    orig[j].1,
                ),
        decreases inp@.len(),
    {
        let ghost k = conns@.len();
        let (a, r) = inp.remove(0);
        assert(orig[k as int] == (a, r));
        let c = flatten_light(a, r);
        conns.push(c);
        assert(inp@ =~= orig.subrange(conns@.len() as int, n as int));
    }
    StatusLight {
        ts: res.ts,
        ingest_name: res.ingest_name,
        conn_count_total: res.conn_count_total,
        conn_count_matched: res.conn_count_matched,
        connset_channel_count_total: res.connset_channel_count_total,
        connset_channels,
        conns,
    }
}

} // verus!
