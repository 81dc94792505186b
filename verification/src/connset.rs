use vstd::prelude::*;
use crate::addr::AddrV4;
use crate::channel::Channel;
use crate::conf::ChannelConfig;
use crate::locallog::{push_spec, stamp_text, Entry, LocalLog, LOCAL_LOG_TRUNCATE_AT};
use crate::channel::ChannelInfo;
use crate::channel::ChannelStatusLight;
use crate::conn;
use crate::conn::StatusDetail;
use crate::gather::GatherError;
use crate::channel::ChannelState;
use crate::channel::RemovingCommon;
use crate::channel::in_teardown;
use crate::channel::removing_spec;
use crate::regexsel::selects;
use crate::regexsel::opt_pattern;
use crate::status_v1::ChannelSelector;
use crate::status_v1::StatusSel;
use crate::strorder::lemma_str_lt_asymmetric;
use crate::strorder::lemma_str_lt_irreflexive;
use crate::strorder::lemma_str_lt_total;
use crate::strorder::lemma_str_lt_transitive;
use crate::strorder::str_eq;
use crate::strorder::str_less;
use crate::strorder::str_lt;

verus! {

/// A request to add a channel, by its configuration, to the connection set.
#[derive(Debug)]
pub struct ChannelAdd {
    ch_cfg: ChannelConfig,
}

impl ChannelAdd {
    pub closed spec fn conf_spec(&self) -> ChannelConfig {
        self.ch_cfg
    }

    pub open spec fn name_spec(&self) -> Seq<char> {
        self.conf_spec().name_spec()
    }

    pub fn new(ch_cfg: ChannelConfig) -> (r: Self)
        ensures
            r.conf_spec() == ch_cfg,
    {
        ChannelAdd { ch_cfg }
    }

    pub fn name(&self) -> (r: &str)
        ensures
            r@ == self.name_spec(),
    {
        self.ch_cfg.name()
    }

    /// The configuration of the channel to add.
    pub fn into_config(self) -> (r: ChannelConfig)
        ensures
            r == self.conf_spec(),
    {
        self.ch_cfg
    }
}

/// A request to remove a channel from the connection set.
#[derive(Debug, Clone, PartialEq, Eq)]
pub struct ChannelRemove {
    name: String,
}

impl ChannelRemove {
    pub closed spec fn name_spec(&self) -> Seq<char> {
        self.name@
    }

    pub fn new(name: String) -> (r: Self)
        ensures
            r.name_spec() == name@,
    {
        ChannelRemove { name }
    }

    pub fn name(&self) -> (r: &str)
        ensures
            r@ == self.name_spec(),
    {
        self.name.as_str()
    }
}

/// A status request to the connection set.
pub struct StatusV1Req {
    pub sel: ChannelSelector,
    pub detail: StatusDetail,
}

/// The connection set's own channels in a status answer, in the form the
/// request asked for.
#[derive(Debug)]
pub enum ConnsetChannels {
    Light(Vec<ChannelStatusLight>),
    Full(Vec<(String, ChannelInfo)>),
}

/// The answer of the connection set to a status request.
#[derive(Debug)]
pub struct StatusV1Res {
    pub ts: String,
    pub ingest_name: String,
    pub conn_count_total: u32,
    pub conn_count_matched: u32,
    pub connset_channel_count_total: u32,
    pub connset_channels: ConnsetChannels,
    pub conns: Vec<(AddrV4, Result<conn::StatusInfo, GatherError>)>,
}

/// A channel of the connection set, with whether its removal on shutdown
/// was already asked for.
#[derive(Debug)]
pub struct ChannelCat {
    pub channel: Channel,
    pub remove_on_shutdown_sent: bool,
}

/// The state of the connection set.
#[derive(Debug, Clone, Copy, PartialEq, Eq, Structural)]
pub enum ConnSetState {
    Running,
    Shutdown,
    Shutdown2,
    Done,
}

impl ConnSetState {
    pub open spec fn name_spec(&self) -> Seq<char> {
        match self {
            ConnSetState::Running => "Running"@,
            ConnSetState::Shutdown => "Shutdown"@,
            ConnSetState::Shutdown2 => "Shutdown2"@,
            ConnSetState::Done => "Done"@,
        }
    }

    pub fn name(&self) -> (r: &'static str)
        ensures
            r@ == self.name_spec(),
    {
        match self {
            ConnSetState::Running => "Running",
            ConnSetState::Shutdown => "Shutdown",
            ConnSetState::Shutdown2 => "Shutdown2",
            ConnSetState::Done => "Done",
        }
    }
}

/// A connection of the registry, with whether it was asked to disconnect
/// because no channel uses it.
#[derive(Debug, Clone, Copy, PartialEq, Eq, Structural)]
pub struct ConnReg {
    pub addr: AddrV4,
    pub shutting_down: bool,
}

/// The order of socket addresses: by address, then by port.
pub open spec fn addr_lt(a: AddrV4, b: AddrV4) -> bool {
    a.ip < b.ip || (a.ip == b.ip && a.port < b.port)
}

/// A failure of a command to the connection set.
#[derive(Debug, Clone, PartialEq, Eq)]
pub enum ConnSetError {
    Command(String),
}

/// The names of the channels, in their order.
pub open spec fn cat_names(s: Seq<ChannelCat>) -> Seq<Seq<char>> {
    s.map_values(|c: ChannelCat| c.channel.name_spec())
}

/// Whether a channel fresh from `Channel::new` with this configuration is
/// what the connection set holds.
pub open spec fn fresh_cat(c: ChannelCat, conf: ChannelConfig) -> bool {
    &&& c.channel.wf()
    &&& c.channel.conf_spec() == conf
    &&& c.channel.name_spec() == conf.name_spec()
    &&& c.channel.state_spec() == ChannelState::Init
    &&& !c.channel.removing_flag()
    &&& c.channel.found_addr() is None
    &&& c.channel.backoff_index() == 0
    &&& !c.remove_on_shutdown_sent
}

/// Whether a channel is what `Channel::signal_ca_conn_down` makes of another.
pub open spec fn signaled(old: Channel, new: Channel) -> bool {
    &&& new.wf()
    &&& new.state_spec() == (if in_teardown(old.state_spec()) {
        old.state_spec()
    } else {
        ChannelState::Init
    })
    &&& new.name_spec() == old.name_spec()
    &&& new.removing_flag() == old.removing_flag()
    &&& new.found_addr() == old.found_addr()
    &&& new.backoff_index() == old.backoff_index()
}

/// Whether a channel is what a removal command makes of another.
pub open spec fn remove_taken(old: Channel, new: Channel) -> bool {
    &&& new.wf()
    &&& new.name_spec() == old.name_spec()
    &&& new.found_addr() == old.found_addr()
    &&& new.backoff_index() == old.backoff_index()
    &&& if old.state_spec() is Done {
        new == old
    } else {
        new.state_spec() == removing_spec(old.state_spec()) && new.removing_flag()
    }
}

/// Whether no channel is on the connection to this address.
pub open spec fn unused_addr(chs: Seq<ChannelCat>, addr: AddrV4) -> bool {
    forall|k: int| 0 <= k < chs.len() ==> chs[k].channel.addr_spec() != Some(addr)
}

/// Whether a connection may be disconnected as idle: no channel uses it
/// and it was not asked yet.
pub open spec fn idle_candidate(chs: Seq<ChannelCat>, c: ConnReg) -> bool {
    !c.shutting_down && unused_addr(chs, c.addr)
}

/// The channels that are not done, in their order.
pub open spec fn keep_live(s: Seq<ChannelCat>) -> Seq<ChannelCat>
    decreases s.len(),
{
    if s.len() == 0 {
        s
    } else if s.last().channel.state_spec() is Done {
        keep_live(s.drop_last())
    } else {
        keep_live(s.drop_last()).push(s.last())
    }
}

/// The addresses of the connections that a pattern selects, in order.
pub open spec fn selected_addrs(conns: Seq<ConnReg>, pat: Option<Seq<char>>) -> Seq<AddrV4>
    decreases conns.len(),
{
    if conns.len() == 0 {
        Seq::empty()
    } else if selects(pat, conns.last().addr.text()) {
        selected_addrs(conns.drop_last(), pat).push(conns.last().addr)
    } else {
        selected_addrs(conns.drop_last(), pat)
    }
}

/// The channels whose names a pattern selects, in order.
pub open spec fn selected_cats(chs: Seq<ChannelCat>, pat: Option<Seq<char>>) -> Seq<ChannelCat>
    decreases chs.len(),
{
    if chs.len() == 0 {
        Seq::empty()
    } else if selects(pat, chs.last().channel.name_spec()) {
        selected_cats(chs.drop_last(), pat).push(chs.last())
    } else {
        selected_cats(chs.drop_last(), pat)
    }
}

/// Whether an overview entry shows a channel at a time.
pub open spec fn light_of(l: ChannelStatusLight, c: Channel, now_ms: u64) -> bool {
    &&& l.name@ == c.name_spec()
    &&& l.state@ == crate::channel::state_name(c.state_spec())
    &&& l.backoff_i == c.backoff_index()
    &&& l.backoff_remaining_ms == (match c.state_spec() {
        ChannelState::Backoff { until_ms, .. } => Some(
            if until_ms > now_ms { (until_ms - now_ms) as u64 } else { 0 },
        ),
        _ => None,
    })
    &&& l.addr.is_some() == c.found_addr().is_some()
    &&& (l.addr.is_some() ==> l.addr.unwrap()@ == c.found_addr().unwrap().text())
}

/// Whether a full entry shows a channel at a time.
pub open spec fn full_of(e: (String, ChannelInfo), c: Channel, now_ms: u64) -> bool {
    &&& e.0@ == c.name_spec()
    &&& e.1.state == c.state_spec()
    &&& e.1.backoff_i == c.backoff_index()
    &&& e.1.backoff == (match c.state_spec() {
        ChannelState::Backoff { until_ms, .. } => Some(
            crate::channel::BackoffInfo {
                until: if until_ms > now_ms { (until_ms - now_ms) as u64 } else { 0 },
            },
        ),
        _ => None,
    })
}

/// What the connection set itself contributes to a status answer; the
/// status of each selected connection is then gathered from it.
#[derive(Debug)]
pub struct StatusPlan {
    pub conn_count_total: u32,
    pub conn_count_matched: u32,
    pub connset_channel_count_total: u32,
    pub matched: Vec<AddrV4>,
    pub connset_channels: ConnsetChannels,
}

/// The kinds of dynamic commands, by their type tag.
#[derive(Debug, Clone, Copy, PartialEq, Eq, Structural)]
pub enum DynCmdKind {
    ChannelsByRegexV1,
    DynCmdV03,
    ConnSetLlogV1,
    Unknown,
}

pub open spec fn dyn_cmd_kind_spec(ty: Seq<char>) -> DynCmdKind {
    if ty == "ChannelsByRegexV1"@ {
        DynCmdKind::ChannelsByRegexV1
    } else if ty == "dyn_cmd_v03"@ {
        DynCmdKind::DynCmdV03
    } else if ty == "ConnSetLlogV1"@ {
        DynCmdKind::ConnSetLlogV1
    } else {
        DynCmdKind::Unknown
    }
}

/// The kind of a dynamic command by its type tag.
pub fn dyn_cmd_kind(ty: &str) -> (r: DynCmdKind)
    ensures
        r == dyn_cmd_kind_spec(ty@),
{
    if str_eq(ty, "ChannelsByRegexV1") {
        DynCmdKind::ChannelsByRegexV1
    } else if str_eq(ty, "dyn_cmd_v03") {
        DynCmdKind::DynCmdV03
    } else if str_eq(ty, "ConnSetLlogV1") {
        DynCmdKind::ConnSetLlogV1
    } else {
        DynCmdKind::Unknown
    }
}

/// A command of the dynamic interface of the connection set itself.
#[derive(Debug, Clone, Copy, PartialEq, Eq, Structural)]
pub enum ConnsetCmd {
    /// Relays the command to the connections whose address a regex selects.
    Test01,
    StateChannelFull,
    StateChannelAll,
    CaConnStateProto,
    ChannelDetailsV00,
    Unknown,
    /// The command does not name a connection set command.
    NotBase,
}

/// The connection set command that a dynamic command names, if it names one.
pub open spec fn connset_cmd_spec(name: Option<Seq<char>>) -> ConnsetCmd {
    match name {
        None => ConnsetCmd::NotBase,
        Some(n) => if n == "test01"@ {
            ConnsetCmd::Test01
        } else if n == "connset_state_channel_full"@ {
            ConnsetCmd::StateChannelFull
        } else if n == "connset_state_channel_all"@ {
            ConnsetCmd::StateChannelAll
        } else if n == "ca_conn_state_proto"@ {
            ConnsetCmd::CaConnStateProto
        } else if n == "channel_details_v00"@ {
            ConnsetCmd::ChannelDetailsV00
        } else {
            ConnsetCmd::Unknown
        },
    }
}

pub fn connset_cmd(name: Option<&str>) -> (r: ConnsetCmd)
    ensures
        r == connset_cmd_spec(match name {
            None => None,
            Some(n) => Some(n@),
        }),
{
    match name {
        None => ConnsetCmd::NotBase,
        Some(n) => {
            if str_eq(n, "test01") {
                ConnsetCmd::Test01
            } else if str_eq(n, "connset_state_channel_full") {
                ConnsetCmd::StateChannelFull
            } else if str_eq(n, "connset_state_channel_all") {
                ConnsetCmd::StateChannelAll
            } else if str_eq(n, "ca_conn_state_proto") {
                ConnsetCmd::CaConnStateProto
            } else if str_eq(n, "channel_details_v00") {
                ConnsetCmd::ChannelDetailsV00
            } else {
                ConnsetCmd::Unknown
            }
        },
    }
}

impl ConnsetCmd {
    /// The message of the error answer, for a command that gets one at once.
    pub fn error_msg(&self) -> (r: Option<&'static str>)
        ensures
            *self is NotBase ==> (r matches Some(t) && t@ == "not a DynCmdV03Base"@),
            *self is Unknown ==> (r matches Some(t) && t@ == "command unknown"@),
            !(*self is NotBase) && !(*self is Unknown) ==> r is None,
    {
        match self {
            ConnsetCmd::NotBase => Some("not a DynCmdV03Base"),
            ConnsetCmd::Unknown => Some("command unknown"),
            _ => None,
        }
    }
}

/// The message of the answer to a dynamic command of unknown type.
pub fn unknown_cmd_msg(ty: &str) -> (r: String)
    ensures
        r@ == "unknown: "@ + ty@,
{
    let mut s = String::from_str("unknown: ");
    s.append(ty);
    s
}

/// Whether a channel listing by regex asks for the channels of the
/// connections rather than those of the connection set.
pub fn lists_conn_channels(cmd: &crate::metrics::CmdChannelsByRegex) -> (r: bool)
    ensures
        r == (cmd.src@ == "CaConn"@),
{
    str_eq(cmd.src.as_str(), "CaConn")
}

/// Whether the channels are ordered strictly by name.
pub open spec fn names_sorted(s: Seq<ChannelCat>) -> bool {
    forall|i: int, j: int|
        0 <= i < j < s.len() ==> str_lt(#[trigger] s[i].channel.name_spec(), #[trigger] s[j].channel.name_spec())
}

pub open spec fn cats_wf(s: Seq<ChannelCat>) -> bool {
    forall|i: int| 0 <= i < s.len() ==> (#[trigger] s[i]).channel.wf()
}

/// Whether the connections are ordered strictly by address.
pub open spec fn regs_sorted(s: Seq<ConnReg>) -> bool {
    forall|i: int, j: int| 0 <= i < j < s.len() ==> addr_lt(#[trigger] s[i].addr, #[trigger] s[j].addr)
}

/// The decisions of the connection set: its channels, ordered by name, and
/// the registry of its connections, ordered by address.
#[derive(Debug)]
pub struct ConnSetCore {
    state: ConnSetState,
    channels: Vec<ChannelCat>,
    conns: Vec<ConnReg>,
    llog: LocalLog,
}

impl ConnSetCore {
    pub closed spec fn state_spec(&self) -> ConnSetState {
        self.state
    }

    pub closed spec fn cats(&self) -> Seq<ChannelCat> {
        self.channels@
    }

    pub closed spec fn regs(&self) -> Seq<ConnReg> {
        self.conns@
    }

    pub open spec fn wf(&self) -> bool {
        &&& names_sorted(self.cats())
        &&& cats_wf(self.cats())
        &&& regs_sorted(self.regs())
        &&& self.log_entries().len() <= LOCAL_LOG_TRUNCATE_AT
    }

    /// The entries of the connection set's local log, gathered from its
    /// channels and connections.
    pub closed spec fn log_entries(&self) -> Seq<Entry> {
        self.llog.entries()
    }

    /// Takes over a local log entry of a channel or a connection.
    pub fn push_log_entry(&mut self, e: Entry)
        requires
            old(self).wf(),
        ensures
            final(self).wf(),
            final(self).log_entries() == push_spec(old(self).log_entries(), e),
            final(self).cats() == old(self).cats(),
            final(self).regs() == old(self).regs(),
            final(self).state_spec() == old(self).state_spec(),
    {
        self.llog.push_entry(e);
    }

    /// The local log, oldest first, with times written as RFC 3339 text:
    /// the answer to the `ConnSetLlogV1` command.
    pub fn local_log_reply(&self) -> (r: Vec<(u32, String, String)>)
        ensures
            r@.len() == self.log_entries().len(),
            forall|i: int|
                0 <= i < r@.len() ==> (#[trigger] r@[i]).0 == self.log_entries()[i].0 && r@[i].1@ == stamp_text(
                    self.log_entries()[i].1,
                ) && r@[i].2@ == self.log_entries()[i].2@,
    {
        self.llog.to_text_entries()
    }

    /// The local log, oldest first.
    pub fn local_log(&self) -> (r: Vec<Entry>)
        ensures
            r@.len() == self.log_entries().len(),
            forall|i: int|
                0 <= i < r@.len() ==> (#[trigger] r@[i]).0 == self.log_entries()[i].0 && r@[i].1
                    == self.log_entries()[i].1 && r@[i].2@ == self.log_entries()[i].2@,
    {
        self.llog.to_vec_string()
    }

    pub open spec fn has_name(&self, name: Seq<char>) -> bool {
        exists|i: int| 0 <= i < self.cats().len() && (#[trigger] self.cats()[i]).channel.name_spec() == name
    }

    pub open spec fn registered(&self, addr: AddrV4) -> bool {
        exists|i: int| 0 <= i < self.regs().len() && (#[trigger] self.regs()[i]).addr == addr
    }

    pub open spec fn shutting_down_at(&self, addr: AddrV4) -> bool {
        exists|i: int|
            0 <= i < self.regs().len() && (#[trigger] self.regs()[i]).addr == addr
                && self.regs()[i].shutting_down
    }

    pub fn new() -> (r: Self)
        ensures
            r.wf(),
            r.state_spec() == ConnSetState::Running,
            r.cats().len() == 0,
            r.regs().len() == 0,
            r.log_entries().len() == 0,
    {
        ConnSetCore { state: ConnSetState::Running, channels: Vec::new(), conns: Vec::new(), llog: LocalLog::new() }
    }

    pub fn state(&self) -> (r: ConnSetState)
        ensures
            r == self.state_spec(),
    {
        self.state
    }

    pub fn channel_count(&self) -> (r: usize)
        ensures
            r == self.cats().len(),
    {
        self.channels.len()
    }

    pub fn conn_count(&self) -> (r: usize)
        ensures
            r == self.regs().len(),
    {
        self.conns.len()
    }

    pub fn channel_at(&self, i: usize) -> (r: &ChannelCat)
        requires
            i < self.cats().len(),
        ensures
            *r == self.cats()[i as int],
    {
        &self.channels[i]
    }

    pub fn conn_at(&self, i: usize) -> (r: ConnReg)
        requires
            i < self.regs().len(),
        ensures
            r == self.regs()[i as int],
    {
        self.conns[i]
    }

    /// The connections in the registry, in address order, with a placeholder
    /// name until the host lookup names them.
    pub fn connection_list(&self, ingest_name: String) -> (r: crate::metrics::ConnectionListV1)
        ensures
            r.ingest_name == ingest_name,
            r.list@.len() == self.regs().len(),
            forall|k: int|
                0 <= k < r.list@.len() ==> {
                    let c = #[trigger] r.list@[k];
                    &&& c.ip == self.regs()[k].addr.ip
                    &&& c.port == self.regs()[k].addr.port
                    &&& c.name@ == "todo-resolve"@
                },
    {
        let mut list: Vec<crate::metrics::ConnectionListV1Conn1> = Vec::new();
        let n = self.conns.len();
        let mut k: usize = 0;
        while k < n
            invariant
                0 <= k <= n,
                n == self.regs().len(),
                list@.len() == k,
                forall|j: int|
                    0 <= j < k ==> {
                        let c = #[trigger] list@[j];
                        &&& c.ip == self.regs()[j].addr.ip
                        &&& c.port == self.regs()[j].addr.port
                        &&& c.name@ == "todo-resolve"@
                    },
            decreases n - k,
        {
            let a = self.conns[k].addr;
            list.push(crate::metrics::ConnectionListV1Conn1 {
                ip: a.ip,
                port: a.port,
                name: String::from_str("todo-resolve"),
            });
            k = k + 1;
        }
        crate::metrics::ConnectionListV1 { ingest_name, list }
    }

    /// Commands are taken only while running.
    pub fn is_accept_cmds(&self) -> (r: bool)
        ensures
            r == (self.state_spec() is Running),
    {
        match self.state {
            ConnSetState::Running => true,
            _ => false,
        }
    }

    /// Starts the shutdown of a running connection set; later calls change
    /// nothing.
    pub fn trigger_shutdown(&mut self)
        ensures
            final(self).state_spec() == (if old(self).state_spec() is Running {
                ConnSetState::Shutdown
            } else {
                old(self).state_spec()
            }),
            final(self).cats() == old(self).cats(),
            final(self).regs() == old(self).regs(),
    {
        if let ConnSetState::Running = self.state {
            self.state = ConnSetState::Shutdown;
        }
    }

    /// Adds a channel by its configuration, unless one of that name is there
    /// already.
    pub fn handle_channel_add(&mut self, conf: ChannelConfig) -> (r: Result<(), ConnSetError>)
        requires
            old(self).wf(),
        ensures
            final(self).wf(),
            r is Err <==> old(self).has_name(conf.name_spec()),
            r matches Err(e) ==> e == ConnSetError::Command(e->Command_0) && e->Command_0@
                == "channel already added"@,
            r is Err ==> final(self).cats() == old(self).cats(),
            r is Ok ==> exists|p: int|
                0 <= p <= old(self).cats().len() && final(self).cats() == old(self).cats().insert(
                    p,
                    final(self).cats()[p],
                ) && fresh_cat(#[trigger] final(self).cats()[p], conf),
            final(self).regs() == old(self).regs(),
            final(self).state_spec() == old(self).state_spec(),
    {
        let n = self.channels.len();
        let mut i: usize = 0;
        while i < n && str_less(self.channels[i].channel.name(), conf.name())
            invariant
                0 <= i <= n,
                n == self.channels@.len(),
                self.wf(),
                forall|j: int| 0 <= j < i ==> str_lt(#[trigger] self.cats()[j].channel.name_spec(), conf.name_spec()),
            decreases n - i,
        {
            i = i + 1;
        }
        if i < n && str_eq(self.channels[i].channel.name(), conf.name()) {
            proof {
                assert(self.cats()[i as int].channel.name_spec() == conf.name_spec());
            }
            return Err(ConnSetError::Command(String::from_str("channel already added")));
        }
        proof {
            assert forall|j: int| 0 <= j < n implies (#[trigger] self.cats()[j]).channel.name_spec()
                != conf.name_spec() by {
                if j < i {
                    lemma_str_lt_irreflexive(conf.name_spec());
                } else {
                    let ni = self.cats()[i as int].channel.name_spec();
                    lemma_str_lt_total(ni, conf.name_spec());
                    if j > i {
                        lemma_str_lt_asymmetric(conf.name_spec(), self.cats()[j].channel.name_spec());
                        lemma_str_lt_transitive(conf.name_spec(), ni, self.cats()[j].channel.name_spec());
                    }
                }
            }
        }
        let ghost old_cats = self.cats();
        let ghost conf0 = conf;
        let channel = Channel::new(conf);
        let cat = ChannelCat { channel, remove_on_shutdown_sent: false };
        self.channels.insert(i, cat);
        proof {
            let nm = self.cats()[i as int].channel.name_spec();
            assert forall|a: int, b: int|
                0 <= a < b < self.cats().len() implies str_lt(
                #[trigger] self.cats()[a].channel.name_spec(),
                #[trigger] self.cats()[b].channel.name_spec(),
            ) by {
                if b < i {
                    assert(self.cats()[a] == old_cats[a]);
                    assert(self.cats()[b] == old_cats[b]);
                } else if b == i {
                    assert(self.cats()[a] == old_cats[a]);
                } else if a == i {
                    assert(self.cats()[b] == old_cats[b - 1]);
                    let ni = old_cats[i as int].channel.name_spec();
                    lemma_str_lt_total(ni, nm);
                    if b - 1 > i {
                        lemma_str_lt_transitive(nm, ni, old_cats[b - 1].channel.name_spec());
                    }
                } else if a < i {
                    assert(self.cats()[a] == old_cats[a]);
                    assert(self.cats()[b] == old_cats[b - 1]);
                } else {
                    assert(self.cats()[a] == old_cats[a - 1]);
                    assert(self.cats()[b] == old_cats[b - 1]);
                }
            }
            assert forall|a: int| 0 <= a < self.cats().len() implies (#[trigger] self.cats()[a]).channel.wf() by {
                if a < i {
                    assert(self.cats()[a] == old_cats[a]);
                } else if a > i {
                    assert(self.cats()[a] == old_cats[a - 1]);
                }
            }
            assert(self.cats() == old_cats.insert(i as int, self.cats()[i as int]));
            assert(fresh_cat(self.cats()[i as int], conf0));
        }
        Ok(())
    }

    /// Sends a removal command to the channel of this name, if there is one;
    /// `now_ms` stamps the channel's log line.
    pub fn handle_channel_remove(&mut self, name: &str, now_ms: u64) -> (found: bool)
        requires
            old(self).wf(),
        ensures
            final(self).wf(),
            found == old(self).has_name(name@),
            final(self).cats().len() == old(self).cats().len(),
            forall|i: int|
                0 <= i < old(self).cats().len() ==> if old(self).cats()[i].channel.name_spec() == name@ {
                    remove_taken(old(self).cats()[i].channel, (#[trigger] final(self).cats()[i]).channel)
                        && final(self).cats()[i].remove_on_shutdown_sent
                        == old(self).cats()[i].remove_on_shutdown_sent
                } else {
                    final(self).cats()[i] == old(self).cats()[i]
                },
            final(self).regs() == old(self).regs(),
            final(self).state_spec() == old(self).state_spec(),
    {
        let ghost old_cats = self.cats();
        let n = self.channels.len();
        let mut found = false;
        let mut i: usize = 0;
        while i < n
            invariant
                0 <= i <= n,
                n == self.channels@.len(),
                n == old_cats.len(),
                self.wf(),
                self.regs() == old(self).regs(),
                self.state_spec() == old(self).state_spec(),
                old_cats == old(self).cats(),
                found == exists|j: int| 0 <= j < i && (#[trigger] old_cats[j]).channel.name_spec() == name@,
                forall|j: int| 0 <= j < n ==> (#[trigger] self.cats()[j]).channel.name_spec() == old_cats[j].channel.name_spec(),
                forall|j: int|
                    0 <= j < n ==> if j < i && old_cats[j].channel.name_spec() == name@ {
                        remove_taken(old_cats[j].channel, (#[trigger] self.cats()[j]).channel)
                            && self.cats()[j].remove_on_shutdown_sent == old_cats[j].remove_on_shutdown_sent
                    } else {
                        self.cats()[j] == old_cats[j]
                    },
            decreases n - i,
        {
            if str_eq(self.channels[i].channel.name(), name) {
                let ghost before = self.cats();
                proof {
                    assert(before[i as int].channel.wf());
                }
                self.channels[i].channel.handle_remove(now_ms);
                proof {
                    assert(self.cats() =~= before.update(i as int, self.cats()[i as int]));
                }
                found = true;
                proof {
                    assert forall|a: int, b: int|
                        0 <= a < b < self.cats().len() implies str_lt(
                        #[trigger] self.cats()[a].channel.name_spec(),
                        #[trigger] self.cats()[b].channel.name_spec(),
                    ) by {
                        assert(self.cats()[a].channel.name_spec() == old_cats[a].channel.name_spec());
                        assert(self.cats()[b].channel.name_spec() == old_cats[b].channel.name_spec());
                    }
                }
            }
            i = i + 1;
        }
        found
    }

    /// Where a channel found at an address goes: onto the connection there,
    /// which is registered first where there is none. The connection there
    /// must not be disconnecting.
    pub fn route_add(&mut self, addr: AddrV4) -> (created: bool)
        requires
            old(self).wf(),
            !old(self).shutting_down_at(addr),
        ensures
            final(self).wf(),
            created == !old(self).registered(addr),
            !created ==> final(self).regs() == old(self).regs(),
            created ==> exists|p: int|
                0 <= p <= old(self).regs().len() && final(self).regs() == old(self).regs().insert(
                    p,
                    ConnReg { addr, shutting_down: false },
                ),
            final(self).registered(addr),
            final(self).cats() == old(self).cats(),
            final(self).state_spec() == old(self).state_spec(),
    {
        let n = self.conns.len();
        let mut i: usize = 0;
        while i < n && (self.conns[i].addr.ip < addr.ip || (self.conns[i].addr.ip == addr.ip
            && self.conns[i].addr.port < addr.port))
            invariant
                0 <= i <= n,
                n == self.conns@.len(),
                self.wf(),
                forall|j: int| 0 <= j < i ==> addr_lt(#[trigger] self.regs()[j].addr, addr),
            decreases n - i,
        {
            i = i + 1;
        }
        if i < n && self.conns[i].addr.ip == addr.ip && self.conns[i].addr.port == addr.port {
            proof {
                assert(self.regs()[i as int].addr == addr);
            }
            return false;
        }
        let ghost old_regs = self.regs();
        proof {
            assert forall|j: int| 0 <= j < n implies (#[trigger] self.regs()[j]).addr != addr by {
                if j > i {
                    assert(addr_lt(self.regs()[i as int].addr, self.regs()[j].addr));
                }
            }
        }
        self.conns.insert(i, ConnReg { addr, shutting_down: false });
        proof {
            assert forall|a: int, b: int|
                0 <= a < b < self.regs().len() implies addr_lt(
                #[trigger] self.regs()[a].addr,
                #[trigger] self.regs()[b].addr,
            ) by {
                if b < i {
                    assert(self.regs()[a] == old_regs[a]);
                    assert(self.regs()[b] == old_regs[b]);
                } else if b == i {
                    assert(self.regs()[a] == old_regs[a]);
                } else if a == i {
                    assert(self.regs()[b] == old_regs[b - 1]);
                    if b - 1 > i {
                        assert(addr_lt(old_regs[i as int].addr, old_regs[b - 1].addr));
                    }
                } else if a < i {
                    assert(self.regs()[a] == old_regs[a]);
                    assert(self.regs()[b] == old_regs[b - 1]);
                } else {
                    assert(self.regs()[a] == old_regs[a - 1]);
                    assert(self.regs()[b] == old_regs[b - 1]);
                }
            }
            assert(self.regs()[i as int].addr == addr);
        }
        true
    }

    /// The connection that a removal is sent to: the one the channel was
    /// observed on, where it is still registered; none otherwise.
    pub fn route_remove(&self, reminfo: &RemovingCommon) -> (r: Option<AddrV4>)
        ensures
            r == (match reminfo.addr {
                Some(a) => if self.registered(a) {
                    Some(a)
                } else {
                    None
                },
                None => None,
            }),
    {
        match reminfo.addr {
            Some(a) => {
                let n = self.conns.len();
                let mut i: usize = 0;
                while i < n
                    invariant
                        0 <= i <= n,
                        n == self.conns@.len(),
                        reminfo.addr == Some(a),
                        forall|j: int| 0 <= j < i ==> (#[trigger] self.regs()[j]).addr != a,
                    decreases n - i,
                {
                    if self.conns[i].addr.ip == a.ip && self.conns[i].addr.port == a.port {
                        proof {
                            assert(self.regs()[i as int].addr == a);
                        }
                        return Some(a);
                    }
                    i = i + 1;
                }
                None
            },
            None => None,
        }
    }

    /// A connection ended or failed: it leaves the registry, and every
    /// channel that was on it starts over unless it is tearing down.
    pub fn conn_down(&mut self, addr: AddrV4) -> (was_registered: bool)
        requires
            old(self).wf(),
        ensures
            final(self).wf(),
            was_registered == old(self).registered(addr),
            !final(self).registered(addr),
            was_registered ==> exists|p: int|
                0 <= p < old(self).regs().len() && old(self).regs()[p].addr == addr
                    && final(self).regs() == old(self).regs().remove(p),
            !was_registered ==> final(self).regs() == old(self).regs(),
            final(self).cats().len() == old(self).cats().len(),
            forall|i: int|
                0 <= i < old(self).cats().len() ==> if old(self).cats()[i].channel.addr_spec() == Some(
                    addr,
                ) {
                    signaled(old(self).cats()[i].channel, (#[trigger] final(self).cats()[i]).channel)
                        && final(self).cats()[i].remove_on_shutdown_sent
                        == old(self).cats()[i].remove_on_shutdown_sent
                } else {
                    final(self).cats()[i] == old(self).cats()[i]
                },
            final(self).state_spec() == old(self).state_spec(),
    {
        let ghost old_regs = self.regs();
        let ghost old_cats = self.cats();
        let n = self.conns.len();
        let mut i: usize = 0;
        let mut was_registered = false;
        while i < n && !(self.conns[i].addr.ip == addr.ip && self.conns[i].addr.port == addr.port)
            invariant
                0 <= i <= n,
                n == self.conns@.len(),
                self.conns@ == old_regs,
                forall|j: int| 0 <= j < i ==> (#[trigger] self.regs()[j]).addr != addr,
            decreases n - i,
        {
            i = i + 1;
        }
        if i < n {
            was_registered = true;
            proof {
                assert(self.regs()[i as int].addr == addr);
                assert forall|j: int| 0 <= j < n && j != i implies (#[trigger] old_regs[j]).addr != addr by {
                    if j > i {
                        assert(addr_lt(old_regs[i as int].addr, old_regs[j].addr));
                    }
                }
            }
            self.conns.remove(i);
            proof {
                assert forall|a: int, b: int|
                    0 <= a < b < self.regs().len() implies addr_lt(
                    #[trigger] self.regs()[a].addr,
                    #[trigger] self.regs()[b].addr,
                ) by {
                    let oa = if a < i { a } else { a + 1 };
                    let ob = if b < i { b } else { b + 1 };
                    assert(self.regs()[a] == old_regs[oa]);
                    assert(self.regs()[b] == old_regs[ob]);
                }
                assert forall|j: int| 0 <= j < self.regs().len() implies (#[trigger] self.regs()[j]).addr != addr by {
                    let oj = if j < i { j } else { j + 1 };
                    assert(self.regs()[j] == old_regs[oj]);
                }
            }
        }
        let ghost regs_after = self.regs();
        let m = self.channels.len();
        let mut k: usize = 0;
        while k < m
            invariant
                0 <= k <= m,
                m == self.channels@.len(),
                m == old_cats.len(),
                old_cats == old(self).cats(),
                self.regs() == regs_after,
                self.state_spec() == old(self).state_spec(),
                self.log_entries() == old(self).log_entries(),
                forall|j: int| 0 <= j < m ==> (#[trigger] self.cats()[j]).channel.name_spec() == old_cats[j].channel.name_spec(),
                forall|j: int| 0 <= j < m ==> (#[trigger] old_cats[j]).channel.wf(),
                forall|j: int|
                    0 <= j < m ==> if j < k && old_cats[j].channel.addr_spec() == Some(addr) {
                        signaled(old_cats[j].channel, (#[trigger] self.cats()[j]).channel)
                            && self.cats()[j].remove_on_shutdown_sent == old_cats[j].remove_on_shutdown_sent
                    } else {
                        self.cats()[j] == old_cats[j]
                    },
            decreases m - k,
        {
            let here = self.channels[k].channel.addr();
            let hit = match here {
                Some(a) => a.ip == addr.ip && a.port == addr.port,
                None => false,
            };
            if hit {
                let ghost before = self.cats();
                proof {
                    assert(before[k as int] == old_cats[k as int]);
                }
                self.channels[k].channel.signal_ca_conn_down();
                proof {
                    assert(self.cats() =~= before.update(k as int, self.cats()[k as int]));
                }
            }
            k = k + 1;
        }
        proof {
            assert forall|a: int, b: int|
                0 <= a < b < self.cats().len() implies str_lt(
                #[trigger] self.cats()[a].channel.name_spec(),
                #[trigger] self.cats()[b].channel.name_spec(),
            ) by {
                assert(self.cats()[a].channel.name_spec() == old_cats[a].channel.name_spec());
                assert(self.cats()[b].channel.name_spec() == old_cats[b].channel.name_spec());
            }
            assert forall|j: int| 0 <= j < self.cats().len() implies (#[trigger] self.cats()[j]).channel.wf() by {
                if old_cats[j].channel.addr_spec() == Some(addr) {
                } else {
                    assert(self.cats()[j] == old_cats[j]);
                }
            }
        }
        was_registered
    }

    /// Whether the connection set still takes commands and input: while
    /// running and during the first phase of its shutdown.
    pub fn poll_input(&self) -> (r: bool)
        ensures
            r == (self.state_spec() is Running || self.state_spec() is Shutdown),
    {
        match self.state {
            ConnSetState::Running => true,
            ConnSetState::Shutdown => true,
            _ => false,
        }
    }

    /// During shutdown, asks the first channel, in name order, that was not
    /// asked yet to remove itself. Returns its index; `None` once every
    /// channel was asked.
    pub fn issue_shutdown_remove(&mut self, now_ms: u64) -> (r: Option<usize>)
        requires
            old(self).wf(),
        ensures
            final(self).wf(),
            final(self).cats().len() == old(self).cats().len(),
            final(self).regs() == old(self).regs(),
            final(self).state_spec() == old(self).state_spec(),
            r is None ==> final(self).cats() == old(self).cats() && forall|i: int|
                0 <= i < old(self).cats().len() ==> (#[trigger] old(self).cats()[i]).remove_on_shutdown_sent,
            r matches Some(k) ==> {
                &&& k < old(self).cats().len()
                &&& !old(self).cats()[k as int].remove_on_shutdown_sent
                &&& forall|j: int| 0 <= j < k ==> (#[trigger] old(self).cats()[j]).remove_on_shutdown_sent
                &&& final(self).cats()[k as int].remove_on_shutdown_sent
                &&& remove_taken(old(self).cats()[k as int].channel, final(self).cats()[k as int].channel)
                &&& forall|j: int|
                    0 <= j < old(self).cats().len() && j != k ==> (#[trigger] final(self).cats()[j])
                        == old(self).cats()[j]
            },
    {
        let n = self.channels.len();
        let mut i: usize = 0;
        while i < n && self.channels[i].remove_on_shutdown_sent
            invariant
                0 <= i <= n,
                n == self.channels@.len(),
                forall|j: int| 0 <= j < i ==> (#[trigger] self.cats()[j]).remove_on_shutdown_sent,
            decreases n - i,
        {
            i = i + 1;
        }
        if i == n {
            return None;
        }
        let ghost before = self.cats();
        proof {
            assert(before[i as int].channel.wf());
        }
        self.channels[i].remove_on_shutdown_sent = true;
        self.channels[i].channel.handle_remove(now_ms);
        proof {
            assert(self.cats() =~= before.update(i as int, self.cats()[i as int]));
            assert forall|a: int, b: int|
                0 <= a < b < self.cats().len() implies str_lt(
                #[trigger] self.cats()[a].channel.name_spec(),
                #[trigger] self.cats()[b].channel.name_spec(),
            ) by {
                assert(self.cats()[a].channel.name_spec() == before[a].channel.name_spec());
                assert(self.cats()[b].channel.name_spec() == before[b].channel.name_spec());
            }
        }
        Some(i)
    }

    /// The first phase of the shutdown ended: every channel was asked to
    /// remove itself.
    pub fn enter_shutdown2(&mut self)
        ensures
            final(self).state_spec() == (if old(self).state_spec() is Shutdown {
                ConnSetState::Shutdown2
            } else {
                old(self).state_spec()
            }),
            final(self).cats() == old(self).cats(),
            final(self).regs() == old(self).regs(),
    {
        if let ConnSetState::Shutdown = self.state {
            self.state = ConnSetState::Shutdown2;
        }
    }

    /// The second phase of the shutdown has nothing left to do.
    pub fn enter_done(&mut self)
        ensures
            final(self).state_spec() == (if old(self).state_spec() is Shutdown2 {
                ConnSetState::Done
            } else {
                old(self).state_spec()
            }),
            final(self).cats() == old(self).cats(),
            final(self).regs() == old(self).regs(),
    {
        if let ConnSetState::Shutdown2 = self.state {
            self.state = ConnSetState::Done;
        }
    }

    /// Picks the first connection, in address order, that no channel uses
    /// and that was not asked to disconnect yet, and marks it as asked;
    /// nothing while an earlier idle disconnect is still pending.
    pub fn check_idle_caconn(&mut self, pending: usize) -> (r: Option<AddrV4>)
        requires
            old(self).wf(),
        ensures
            final(self).wf(),
            final(self).cats() == old(self).cats(),
            final(self).state_spec() == old(self).state_spec(),
            r is None ==> final(self).regs() == old(self).regs() && (pending >= 1 || forall|i: int|
                0 <= i < old(self).regs().len() ==> !idle_candidate(
                    old(self).cats(),
                    #[trigger] old(self).regs()[i],
                )),
            r matches Some(a) ==> pending == 0 && exists|i: int|
                0 <= i < old(self).regs().len() && (#[trigger] old(self).regs()[i]).addr == a
                    && idle_candidate(old(self).cats(), old(self).regs()[i]) && (forall|j: int|
                    0 <= j < i ==> !idle_candidate(old(self).cats(), #[trigger] old(self).regs()[j]))
                    && final(self).regs() == old(self).regs().update(
                    i,
                    ConnReg { addr: a, shutting_down: true },
                ),
    {
        if pending >= 1 {
            return None;
        }
        let n = self.conns.len();
        let m = self.channels.len();
        let mut i: usize = 0;
        while i < n
            invariant
                0 <= i <= n,
                n == self.conns@.len(),
                m == self.channels@.len(),
                self.wf(),
                self.cats() == old(self).cats(),
                self.regs() == old(self).regs(),
                self.state_spec() == old(self).state_spec(),
                pending == 0,
                forall|j: int| 0 <= j < i ==> !idle_candidate(self.cats(), #[trigger] self.regs()[j]),
            decreases n - i,
        {
            let c = self.conns[i];
            if !c.shutting_down {
                let mut used = false;
                let mut k: usize = 0;
                while k < m
                    invariant
                        0 <= k <= m,
                        m == self.channels@.len(),
                        used == exists|j: int|
                            0 <= j < k && (#[trigger] self.cats()[j]).channel.addr_spec() == Some(c.addr),
                    decreases m - k,
                {
                    let here = self.channels[k].channel.addr();
                    match here {
                        Some(a) => {
                            if a.ip == c.addr.ip && a.port == c.addr.port {
                                used = true;
                            }
                        },
                        None => {},
                    }
                    k = k + 1;
                }
                if !used {
                    self.conns.set(i, ConnReg { addr: c.addr, shutting_down: true });
                    proof {
                        assert(idle_candidate(old(self).cats(), old(self).regs()[i as int]));
                        assert forall|a: int, b: int|
                            0 <= a < b < self.regs().len() implies addr_lt(
                            #[trigger] self.regs()[a].addr,
                            #[trigger] self.regs()[b].addr,
                        ) by {
                            assert(self.regs()[a].addr == old(self).regs()[a].addr);
                            assert(self.regs()[b].addr == old(self).regs()[b].addr);
                        }
                    }
                    return Some(c.addr);
                }
            }
            i = i + 1;
        }
        None
    }

    /// Drops the channels that are done, keeping the order of the others.
    pub fn remove_done_channels(&mut self)
        requires
            old(self).wf(),
        ensures
            final(self).wf(),
            final(self).cats() == keep_live(old(self).cats()),
            final(self).regs() == old(self).regs(),
            final(self).state_spec() == old(self).state_spec(),
    {
        let ghost old_cats = self.cats();
        let mut kept: Vec<ChannelCat> = Vec::new();
        let mut rest: Vec<ChannelCat> = Vec::new();
        std::mem::swap(&mut rest, &mut self.channels);
        let n = rest.len();
        let mut taken: usize = 0;
        let ghost mut idx: Seq<int> = Seq::empty();
        while rest.len() > 0
            invariant
                n == old_cats.len(),
                taken + rest@.len() == n,
                rest@ == old_cats.subrange(taken as int, n as int),
                kept@ == keep_live(old_cats.subrange(0, taken as int)),
                idx.len() == kept@.len(),
                forall|a: int| 0 <= a < idx.len() ==> 0 <= #[trigger] idx[a] < taken,
                forall|a: int, b: int| 0 <= a < b < idx.len() ==> #[trigger] idx[a] < #[trigger] idx[b],
                forall|a: int| 0 <= a < idx.len() ==> kept@[a] == old_cats[#[trigger] idx[a]],
            decreases rest@.len(),
        {
            let c = rest.remove(0);
            proof {
                assert(c == old_cats[taken as int]);
                assert(old_cats.subrange(0, taken + 1).drop_last() =~= old_cats.subrange(0, taken as int));
            }
            if let ChannelState::Done = c.channel.state() {
            } else {
                proof {
                    idx = idx.push(taken as int);
                }
                kept.push(c);
            }
            taken = taken + 1;
            proof {
                assert(rest@ =~= old_cats.subrange(taken as int, n as int));
            }
        }
        proof {
            assert(old_cats.subrange(0, n as int) =~= old_cats);
            assert forall|a: int, b: int|
                0 <= a < b < kept@.len() implies str_lt(
                #[trigger] kept@[a].channel.name_spec(),
                #[trigger] kept@[b].channel.name_spec(),
            ) by {
                assert(idx[a] < idx[b]);
            }
            assert forall|a: int| 0 <= a < kept@.len() implies (#[trigger] kept@[a]).channel.wf() by {
                assert(kept@[a] == old_cats[idx[a]]);
            }
        }
        self.channels = kept;
    }

    /// The addresses of the connections whose text the regex `pattern`
    /// matches, in address order; the message of the regex error where the
    /// pattern does not compile.
    pub fn conns_by_addr_regex(&self, pattern: &str) -> (r: Result<Vec<AddrV4>, String>)
        ensures
            r is Err <==> crate::regexsel::regex_compile_error(pattern@) is Some,
            r matches Err(e) ==> crate::regexsel::regex_compile_error(pattern@) == Some(e@),
            r matches Ok(v) ==> v@ == selected_addrs(self.regs(), Some(pattern@)),
    {
        match crate::regexsel::CompiledRegex::compile(pattern) {
            Err(e) => Err(e),
            Ok(re) => {
                let n = self.conns.len();
                let mut matched: Vec<AddrV4> = Vec::new();
                let mut i: usize = 0;
                while i < n
                    invariant
                        0 <= i <= n,
                        n == self.regs().len(),
                        re.pattern_spec() == pattern@,
                        matched@ == selected_addrs(self.regs().subrange(0, i as int), Some(pattern@)),
                    decreases n - i,
                {
                    proof {
                        assert(self.regs().subrange(0, i + 1).drop_last() =~= self.regs().subrange(0, i as int));
                    }
                    let a = self.conns[i].addr;
                    let t = a.to_text();
                    if re.is_match(t.as_str()) {
                        matched.push(a);
                    }
                    i = i + 1;
                }
                proof {
                    assert(self.regs().subrange(0, n as int) =~= self.regs());
                }
                Ok(matched)
            },
        }
    }

    /// The addresses of the connections whose text a pattern selects, in
    /// address order.
    pub fn selected_conns(&self, sel: &ChannelSelector) -> (r: Vec<AddrV4>)
        ensures
            r@ == selected_addrs(self.regs(), sel.addr_pat()),
    {
        let n = self.conns.len();
        let mut matched: Vec<AddrV4> = Vec::new();
        let mut i: usize = 0;
        while i < n
            invariant
                0 <= i <= n,
                n == self.regs().len(),
                matched@ == selected_addrs(self.regs().subrange(0, i as int), sel.addr_pat()),
            decreases n - i,
        {
            proof {
                assert(self.regs().subrange(0, i + 1).drop_last() =~= self.regs().subrange(0, i as int));
            }
            let a = self.conns[i].addr;
            if sel.matches_addr(&a) {
                matched.push(a);
            }
            i = i + 1;
        }
        proof {
            assert(self.regs().subrange(0, n as int) =~= self.regs());
        }
        matched
    }

    /// The overview of the channels whose names the selection selects, in
    /// name order, at `now_ms`.
    pub fn light_channels(&self, sel: &StatusSel, now_ms: u64) -> (r: Vec<ChannelStatusLight>)
        ensures
            r@.len() == selected_cats(self.cats(), opt_pattern(sel.channel_regex)).len(),
            forall|k: int|
                0 <= k < r@.len() ==> light_of(
                    #[trigger] r@[k],
                    selected_cats(self.cats(), opt_pattern(sel.channel_regex))[k].channel,
                    now_ms,
                ),
    {
        let m = self.channels.len();
        let mut v: Vec<ChannelStatusLight> = Vec::new();
        let ghost pat = opt_pattern(sel.channel_regex);
        let ghost mut sc: Seq<ChannelCat> = Seq::empty();
        let mut k: usize = 0;
        while k < m
            invariant
                0 <= k <= m,
                m == self.cats().len(),
                pat == opt_pattern(sel.channel_regex),
                sc == selected_cats(self.cats().subrange(0, k as int), pat),
                v@.len() == sc.len(),
                forall|j: int| 0 <= j < v@.len() ==> light_of(#[trigger] v@[j], sc[j].channel, now_ms),
            decreases m - k,
        {
            proof {
                assert(self.cats().subrange(0, k + 1).drop_last() =~= self.cats().subrange(0, k as int));
            }
            let c = &self.channels[k];
            if sel.matches(c.channel.name()) {
                let l = c.channel.status_light(now_ms);
                v.push(l);
                proof {
                    sc = sc.push(self.cats()[k as int]);
                }
            }
            k = k + 1;
        }
        proof {
            assert(self.cats().subrange(0, m as int) =~= self.cats());
        }
        v
    }

    /// The full status of the channels whose names the selection selects, in
    /// name order, at `now_ms`.
    pub fn full_channels(&self, sel: &StatusSel, now_ms: u64) -> (r: Vec<(String, ChannelInfo)>)
        ensures
            r@.len() == selected_cats(self.cats(), opt_pattern(sel.channel_regex)).len(),
            forall|k: int|
                0 <= k < r@.len() ==> full_of(
                    #[trigger] r@[k],
                    selected_cats(self.cats(), opt_pattern(sel.channel_regex))[k].channel,
                    now_ms,
                ),
    {
        let m = self.channels.len();
        let mut v: Vec<(String, ChannelInfo)> = Vec::new();
        let ghost pat = opt_pattern(sel.channel_regex);
        let ghost mut sc: Seq<ChannelCat> = Seq::empty();
        let mut k: usize = 0;
        while k < m
            invariant
                0 <= k <= m,
                m == self.cats().len(),
                pat == opt_pattern(sel.channel_regex),
                sc == selected_cats(self.cats().subrange(0, k as int), pat),
                v@.len() == sc.len(),
                forall|j: int| 0 <= j < v@.len() ==> full_of(#[trigger] v@[j], sc[j].channel, now_ms),
            decreases m - k,
        {
            proof {
                assert(self.cats().subrange(0, k + 1).drop_last() =~= self.cats().subrange(0, k as int));
            }
            let c = &self.channels[k];
            if sel.matches(c.channel.name()) {
                let nm = String::from_str(c.channel.name());
                let info = c.channel.channel_info(now_ms);
                v.push((nm, info));
                proof {
                    sc = sc.push(self.cats()[k as int]);
                }
            }
            k = k + 1;
        }
        proof {
            assert(self.cats().subrange(0, m as int) =~= self.cats());
        }
        v
    }

    /// What the connection set contributes to a status answer at `now_ms`:
    /// the counts, the selected connections in address order, and its
    /// selected channels in name order, in the form asked for.
    pub fn status_plan(&self, req: &StatusV1Req, now_ms: u64) -> (r: StatusPlan)
        ensures
            r.conn_count_total == self.regs().len() as u32,
            r.matched@ == selected_addrs(self.regs(), req.sel.addr_pat()),
            r.conn_count_matched == r.matched@.len() as u32,
            r.connset_channel_count_total == self.cats().len() as u32,
            match r.connset_channels {
                ConnsetChannels::Light(v) => {
                    &&& req.detail is Light
                    &&& v@.len() == selected_cats(self.cats(), req.sel.channel_pat()).len()
                    &&& forall|k: int|
                        0 <= k < v@.len() ==> light_of(
                            #[trigger] v@[k],
                            selected_cats(self.cats(), req.sel.channel_pat())[k].channel,
                            now_ms,
                        )
                },
                ConnsetChannels::Full(v) => {
                    &&& req.detail is Full
                    &&& v@.len() == selected_cats(self.cats(), req.sel.channel_pat()).len()
                    &&& forall|k: int|
                        0 <= k < v@.len() ==> full_of(
                            #[trigger] v@[k],
                            selected_cats(self.cats(), req.sel.channel_pat())[k].channel,
                            now_ms,
                        )
                },
            },
    {
        let matched = self.selected_conns(&req.sel);
        let sel = req.sel.status_sel(req.detail);
        let connset_channels = match req.detail {
            StatusDetail::Light => ConnsetChannels::Light(self.light_channels(&sel, now_ms)),
            StatusDetail::Full => ConnsetChannels::Full(self.full_channels(&sel, now_ms)),
        };
        let conn_count_matched = matched.len() as u32;
        StatusPlan {
            conn_count_total: self.conns.len() as u32,
            conn_count_matched,
            connset_channel_count_total: self.channels.len() as u32,
            matched,
            connset_channels,
        }
    }
}


/// What one poll of the write path of the connection set did.
#[derive(Debug, Clone, PartialEq, Eq)]
pub struct WritePoll<W> {
    /// The batch handed to the sender, if one was.
    pub batch: Option<Vec<W>>,
    pub progress: bool,
    /// Whether a batch is still being sent.
    pub pending: bool,
}

/// The write items of the connections, staged until the sender is idle and
/// then handed over as one batch. Every staged item is, in order, either in
/// a batch handed over or still staged.
pub struct WriteStaging<W> {
    staging: Vec<W>,
    sending: bool,
    staged: Ghost<Seq<W>>,
    handed: Ghost<Seq<W>>,
}

impl<W> WriteStaging<W> {
    pub closed spec fn staging_seq(&self) -> Seq<W> {
        self.staging@
    }

    pub closed spec fn sending_spec(&self) -> bool {
        self.sending
    }

    /// Every item staged so far.
    pub closed spec fn staged(&self) -> Seq<W> {
        self.staged@
    }

    /// The items of the batches handed to the sender so far.
    pub closed spec fn handed(&self) -> Seq<W> {
        self.handed@
    }

    pub open spec fn wf(&self) -> bool {
        self.handed() + self.staging_seq() == self.staged()
    }

    pub fn new() -> (r: Self)
        ensures
            r.wf(),
            r.staging_seq().len() == 0,
            !r.sending_spec(),
            r.staged().len() == 0,
            r.handed().len() == 0,
    {
        let r = WriteStaging { staging: Vec::new(), sending: false, staged: Ghost(Seq::empty()), handed: Ghost(Seq::empty()) };
        proof {
            assert(r.handed@ + r.staging@ =~= r.staged@);
        }
        r
    }

    /// Stages the write items of a connection.
    pub fn stage(&mut self, items: Vec<W>)
        requires
            old(self).wf(),
        ensures
            final(self).wf(),
            final(self).staging_seq() == old(self).staging_seq() + items@,
            final(self).staged() == old(self).staged() + items@,
            final(self).handed() == old(self).handed(),
            final(self).sending_spec() == old(self).sending_spec(),
    {
        let mut items = items;
        let ghost iv = items@;
        self.staging.append(&mut items);
        proof {
            self.staged = Ghost(self.staged@ + iv);
            assert(self.handed@ + self.staging@ =~= self.staged@);
        }
    }

    /// One poll: a send in progress may report that it is over (`sent`,
    /// whether it went through or the sender is gone); an idle sender gets
    /// everything staged as one batch.
    pub fn poll(&mut self, sent: bool) -> (r: WritePoll<W>)
        requires
            old(self).wf(),
        ensures
            final(self).wf(),
            final(self).staged() == old(self).staged(),
            ({
                let idle = !old(self).sending_spec() || sent;
                let hand = idle && old(self).staging_seq().len() > 0;
                &&& hand ==> (r.batch matches Some(b) && b@ == old(self).staging_seq())
                &&& !hand ==> r.batch is None
                &&& hand ==> final(self).staging_seq().len() == 0 && final(self).handed() == old(self).handed()
                    + old(self).staging_seq()
                &&& !hand ==> final(self).staging_seq() == old(self).staging_seq() && final(self).handed() == old(
                    self,
                ).handed()
                &&& final(self).sending_spec() == (hand || (old(self).sending_spec() && !sent))
                &&& r.progress == ((old(self).sending_spec() && sent) || hand)
                &&& r.pending == final(self).sending_spec()
            }),
    {
        let mut progress = false;
        if self.sending && sent {
            self.sending = false;
            progress = true;
        }
        let mut batch: Option<Vec<W>> = None;
        if !self.sending && self.staging.len() > 0 {
            let mut b: Vec<W> = Vec::new();
            std::mem::swap(&mut b, &mut self.staging);
            proof {
                self.handed = Ghost(self.handed@ + b@);
                assert(self.handed@ + self.staging@ =~= self.staged@);
            }
            batch = Some(b);
            self.sending = true;
            progress = true;
        }
        WritePoll { batch, progress, pending: self.sending }
    }
}

/// A connection that a tearing-down channel still carries is not idle: it
/// is not disconnected before the channel is taken off it.
pub proof fn lemma_teardown_conn_not_idle(chs: Seq<ChannelCat>, c: ConnReg, k: int, rc: RemovingCommon)
    requires
        0 <= k < chs.len(),
        chs[k].channel.state_spec() == ChannelState::Removing0(rc) || chs[k].channel.state_spec()
            == ChannelState::Removing1(rc) || chs[k].channel.state_spec() == ChannelState::Removing2(rc),
        rc.addr == Some(c.addr),
    ensures
        !idle_candidate(chs, c),
{
    crate::channel::lemma_teardown_keeps_addr(chs[k].channel, 0, c.addr);
    assert(chs[k].channel.addr_spec() == Some(c.addr));
}

/// A connection that an observing channel is on is not idle.
pub proof fn lemma_observed_conn_not_idle(chs: Seq<ChannelCat>, c: ConnReg, k: int, cssid: u64)
    requires
        0 <= k < chs.len(),
        chs[k].channel.state_spec() == (ChannelState::Observing { cssid, addr: c.addr }),
    ensures
        !idle_candidate(chs, c),
{
    assert(chs[k].channel.addr_spec() == Some(c.addr));
}

} // verus!
