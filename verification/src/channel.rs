use vstd::prelude::*;
use crate::addr::AddrV4;
use crate::conf::ChannelConfig;
use crate::locallog::{push_text, Entry, LocalLog, LOCAL_LOG_TRUNCATE_AT};

verus! {

/// The largest backoff index: each failed attempt raises it by one up to here.
pub const BACKOFF_I_MAX: u32 = 999;

/// What a channel learned before it started to tear down: the status
/// series id and the address it was observed at.
#[derive(Debug, Clone, Copy, PartialEq, Eq, Structural)]
pub struct RemovingCommon {
    pub cssid: Option<u64>,
    pub addr: Option<AddrV4>,
}

/// The state that a backoff leads back to once it has elapsed.
#[derive(Debug, Clone, Copy, PartialEq, Eq, Structural)]
pub enum BackoffNext {
    CssidReq,
    AddrSearch { cssid: u64 },
}

/// The lifecycle of a channel in the connection set: it asks for its status
/// series id, searches its address, is observed on a connection, and is torn
/// down in three steps when removed.
#[derive(Debug, Clone, Copy, PartialEq, Eq, Structural)]
pub enum ChannelState {
    Init,
    Backoff { until_ms: u64, next: BackoffNext },
    CssidReq,
    AddrSearch { cssid: u64 },
    Observing { cssid: u64, addr: AddrV4 },
    Removing0(RemovingCommon),
    Removing1(RemovingCommon),
    Removing2(RemovingCommon),
    Removed,
    Done,
}

/// What the outside work that a state started reported back.
#[derive(Debug, Clone, Copy, PartialEq, Eq, Structural)]
pub enum ChannelEvent {
    /// The status series id lookup answered.
    CssidFound(u64),
    /// The status series id lookup failed.
    CssidFailed,
    CssidTimeout,
    AddrFound(AddrV4),
    AddrNotFound,
    /// The address search failed for another reason than not finding it.
    AddrFailed,
    AddrTimeout,
    BackoffElapsed,
    /// The connection confirmed that the channel was taken off it.
    RemovedFromConn,
}

/// The outside work that a transition asks for.
#[derive(Debug, Clone, Copy, PartialEq, Eq, Structural)]
pub enum ChannelAction {
    Nothing,
    /// Look up the status series id, with its timeout.
    QueryCssid,
    /// Search the address of the channel, with its timeout.
    SearchAddr { cssid: u64 },
    /// Wait until the given time, then report `BackoffElapsed`.
    WaitBackoff { until_ms: u64 },
    /// Add the channel to the connection to this address.
    AddToCaConn(AddrV4),
    /// Take the channel off its connection, then report `RemovedFromConn`.
    RemoveFromCaConn(RemovingCommon),
}

/// What a channel hands to the connection set: an addition to or a removal
/// from a connection, with the channel's configuration.
#[derive(Debug)]
pub enum ChannelActionItem {
    AddToCaConn(ChannelConfig, AddrV4),
    RemoveFromCaConn(ChannelConfig, RemovingCommon),
    /// An entry of the channel's local log.
    LocalLog(Entry),
}

/// A time in milliseconds as the local log stamps it; a time beyond the
/// stamp's range is stamped with the largest one.
pub open spec fn ms_stamp(ms: u64) -> i64 {
    if ms <= i64::MAX {
        ms as i64
    } else {
        i64::MAX
    }
}

fn ms_i64(ms: u64) -> (r: i64)
    ensures
        r == ms_stamp(ms),
{
    if ms <= i64::MAX as u64 {
        ms as i64
    } else {
        i64::MAX
    }
}

/// The local log line of a change of state.
pub open spec fn transition_line(a: ChannelState, b: ChannelState) -> Seq<char> {
    "transition "@ + state_name(a) + " -> "@ + state_name(b)
}

/// Whether a state belongs to the teardown of the channel.
pub open spec fn in_teardown(st: ChannelState) -> bool {
    st is Removing0 || st is Removing1 || st is Removing2 || st is Removed || st is Done
}

/// The name of a state as the status endpoints report it.
pub open spec fn state_name(st: ChannelState) -> Seq<char> {
    match st {
        ChannelState::Init => "Init"@,
        ChannelState::Backoff { .. } => "Backoff"@,
        ChannelState::CssidReq => "CssidReq"@,
        ChannelState::AddrSearch { .. } => "AddrSearch"@,
        ChannelState::Observing { .. } => "Observing"@,
        ChannelState::Removing0(..) => "Removing0"@,
        ChannelState::Removing1(..) => "Removing1"@,
        ChannelState::Removing2(..) => "Removing2"@,
        ChannelState::Removed => "Removed"@,
        ChannelState::Done => "Done"@,
    }
}

/// The transition that a state takes by itself, without waiting for outside
/// work, with the work it asks for; `None` where the state waits.
pub open spec fn step_spec(st: ChannelState) -> Option<(ChannelState, ChannelAction)> {
    match st {
        ChannelState::Init => Some((ChannelState::CssidReq, ChannelAction::QueryCssid)),
        ChannelState::Removing0(c) => Some((ChannelState::Removing1(c), ChannelAction::Nothing)),
        ChannelState::Removing1(c) => Some((ChannelState::Removing2(c), ChannelAction::RemoveFromCaConn(c))),
        ChannelState::Removed => Some((ChannelState::Done, ChannelAction::Nothing)),
        _ => None,
    }
}

/// The state a backoff resumes in, with the work that state starts.
pub open spec fn resume_spec(next: BackoffNext) -> (ChannelState, ChannelAction) {
    match next {
        BackoffNext::CssidReq => (ChannelState::CssidReq, ChannelAction::QueryCssid),
        BackoffNext::AddrSearch { cssid } => (
            ChannelState::AddrSearch { cssid },
            ChannelAction::SearchAddr { cssid },
        ),
    }
}

/// The transition on a reported event, `until_ms` being the end of a backoff
/// that the event starts; `None` where the state does not wait for the event.
pub open spec fn event_spec(st: ChannelState, ev: ChannelEvent, until_ms: u64) -> Option<
    (ChannelState, ChannelAction),
> {
    match (st, ev) {
        (ChannelState::Backoff { next, .. }, ChannelEvent::BackoffElapsed) => Some(resume_spec(next)),
        (ChannelState::CssidReq, ChannelEvent::CssidFound(cssid)) => Some(
            (ChannelState::AddrSearch { cssid }, ChannelAction::SearchAddr { cssid }),
        ),
        (ChannelState::CssidReq, ChannelEvent::CssidFailed) => Some(
            (ChannelState::Removed, ChannelAction::Nothing),
        ),
        (ChannelState::CssidReq, ChannelEvent::CssidTimeout) => Some(
            (
                ChannelState::Backoff { until_ms, next: BackoffNext::CssidReq },
                ChannelAction::WaitBackoff { until_ms },
            ),
        ),
        (ChannelState::AddrSearch { cssid }, ChannelEvent::AddrFound(addr)) => Some(
            (ChannelState::Observing { cssid, addr }, ChannelAction::AddToCaConn(addr)),
        ),
        (ChannelState::AddrSearch { cssid }, ChannelEvent::AddrNotFound) => Some(
            (
                ChannelState::Backoff { until_ms, next: BackoffNext::AddrSearch { cssid } },
                ChannelAction::WaitBackoff { until_ms },
            ),
        ),
        (ChannelState::AddrSearch { cssid }, ChannelEvent::AddrTimeout) => Some(
            (
                ChannelState::Backoff { until_ms, next: BackoffNext::AddrSearch { cssid } },
                ChannelAction::WaitBackoff { until_ms },
            ),
        ),
        (ChannelState::AddrSearch { .. }, ChannelEvent::AddrFailed) => Some(
            (ChannelState::Done, ChannelAction::Nothing),
        ),
        (ChannelState::Removing2(..), ChannelEvent::RemovedFromConn) => Some(
            (ChannelState::Removed, ChannelAction::Nothing),
        ),
        _ => None,
    }
}

/// Whether the event is a failed attempt that raises the backoff index.
pub open spec fn bumps_backoff(st: ChannelState, ev: ChannelEvent) -> bool {
    ||| (st is CssidReq && ev is CssidTimeout)
    ||| (st is AddrSearch && (ev is AddrNotFound || ev is AddrTimeout))
}

/// Whether the event is a success that resets the backoff index.
pub open spec fn resets_backoff(st: ChannelState, ev: ChannelEvent) -> bool {
    ||| (st is CssidReq && ev is CssidFound)
    ||| (st is AddrSearch && ev is AddrFound)
}

pub open spec fn next_backoff_spec(i: u32) -> u32 {
    if i < BACKOFF_I_MAX {
        (i + 1) as u32
    } else {
        BACKOFF_I_MAX
    }
}

/// The teardown state that a removal request leads to from a state: it keeps
/// the status series id that the state knows, and the address only where the
/// channel is observed.
pub open spec fn removing_spec(st: ChannelState) -> ChannelState {
    let addr = match st {
        ChannelState::Observing { addr, .. } => Some(addr),
        _ => None,
    };
    let cssid = match st {
        ChannelState::AddrSearch { cssid } => Some(cssid),
        ChannelState::Observing { cssid, .. } => Some(cssid),
        ChannelState::Removing0(c) => c.cssid,
        ChannelState::Removing1(c) => c.cssid,
        ChannelState::Removing2(c) => c.cssid,
        _ => None,
    };
    ChannelState::Removing0(RemovingCommon { cssid, addr })
}

/// The time left of a backoff, in milliseconds.
#[derive(Debug, Clone, Copy, PartialEq, Eq, Structural)]
pub struct BackoffInfo {
    pub until: u64,
}

/// A channel of the connection set as the status endpoints show it: one that
/// is still searching for an address or backing off has no connection to be
/// reported under.
#[derive(Debug, Clone, PartialEq, Eq)]
pub struct ChannelStatusLight {
    pub name: String,
    pub state: String,
    pub backoff_i: u32,
    pub backoff_remaining_ms: Option<u64>,
    pub addr: Option<String>,
}

/// The full status of a channel of the connection set: its state, with
/// what the state knows, the time left of a backoff, and the backoff index.
#[derive(Debug, Clone, Copy, PartialEq, Eq, Structural)]
pub struct ChannelInfo {
    pub state: ChannelState,
    pub backoff: Option<BackoffInfo>,
    pub backoff_i: u32,
}

/// The decisions of one channel of the connection set.
#[derive(Debug)]
pub struct Channel {
    conf: ChannelConfig,
    state: ChannelState,
    removing: bool,
    addr: Option<AddrV4>,
    backoff_i: u32,
    llog: LocalLog,
}

impl Channel {
    pub closed spec fn name_spec(self) -> Seq<char> {
        self.conf.name_spec()
    }

    /// The configuration of the channel.
    pub closed spec fn conf_spec(self) -> ChannelConfig {
        self.conf
    }

    pub closed spec fn state_spec(self) -> ChannelState {
        self.state
    }

    pub closed spec fn removing_flag(self) -> bool {
        self.removing
    }

    /// The address the channel was last found at.
    pub closed spec fn found_addr(self) -> Option<AddrV4> {
        self.addr
    }

    pub closed spec fn backoff_index(self) -> u32 {
        self.backoff_i
    }

    /// The entries of the channel's local log, not yet handed out.
    pub closed spec fn log_entries(self) -> Seq<Entry> {
        self.llog.entries()
    }

    /// The texts of the channel's local log, not yet handed out.
    pub closed spec fn log_texts(self) -> Seq<Seq<char>> {
        self.llog.texts()
    }

    pub open spec fn wf(self) -> bool {
        &&& self.backoff_index() <= BACKOFF_I_MAX
        &&& self.log_entries().len() <= LOCAL_LOG_TRUNCATE_AT
    }

    /// Logs a change of state from `a` to `b`.
    fn log_transition(&mut self, a: ChannelState, b: ChannelState, now_ms: u64)
        requires
            old(self).wf(),
        ensures
            final(self).wf(),
            final(self).log_texts() == push_text(old(self).log_texts(), transition_line(a, b)),
            final(self).conf == old(self).conf,
            final(self).state == old(self).state,
            final(self).removing == old(self).removing,
            final(self).addr == old(self).addr,
            final(self).backoff_i == old(self).backoff_i,
    {
        let mut line = String::from_str("transition ");
        line.append(state_name_str(a));
        line.append(" -> ");
        line.append(state_name_str(b));
        self.llog.push(line, ms_i64(now_ms));
    }

    /// Goes to state `n`, logging the change.
    fn goto(&mut self, n: ChannelState, now_ms: u64)
        requires
            old(self).wf(),
        ensures
            final(self).wf(),
            final(self).state == n,
            final(self).log_texts() == push_text(old(self).log_texts(), transition_line(old(self).state, n)),
            final(self).conf == old(self).conf,
            final(self).removing == old(self).removing,
            final(self).addr == old(self).addr,
            final(self).backoff_i == old(self).backoff_i,
    {
        self.log_transition(self.state, n, now_ms);
        self.state = n;
    }

    /// The oldest entry of the local log, taken out to be handed on.
    pub fn pop_log_item(&mut self) -> (r: Option<ChannelActionItem>)
        requires
            old(self).wf(),
        ensures
            final(self).wf(),
            old(self).log_entries().len() > 0 ==> (r matches Some(ChannelActionItem::LocalLog(e)) && e
                == old(self).log_entries()[0] && final(self).log_entries() == old(self).log_entries().drop_first()),
            old(self).log_entries().len() == 0 ==> r is None && final(self).log_entries() == old(self).log_entries(),
            final(self).state_spec() == old(self).state_spec(),
            final(self).conf_spec() == old(self).conf_spec(),
            final(self).removing_flag() == old(self).removing_flag(),
            final(self).found_addr() == old(self).found_addr(),
            final(self).backoff_index() == old(self).backoff_index(),
    {
        match self.llog.pop() {
            Some(e) => Some(ChannelActionItem::LocalLog(e)),
            None => None,
        }
    }

    pub fn new(conf: ChannelConfig) -> (r: Self)
        ensures
            r.wf(),
            r.conf_spec() == conf,
            r.name_spec() == conf.name_spec(),
            r.state_spec() == ChannelState::Init,
            !r.removing_flag(),
            r.found_addr() is None,
            r.backoff_index() == 0,
            r.log_entries().len() == 0,
    {
        Channel { conf, state: ChannelState::Init, removing: false, addr: None, backoff_i: 0, llog: LocalLog::new() }
    }

    pub fn name(&self) -> (r: &str)
        ensures
            r@ == self.name_spec(),
    {
        self.conf.name()
    }

    pub fn config(&self) -> (r: &ChannelConfig)
        ensures
            *r == self.conf_spec(),
    {
        &self.conf
    }

    /// What the connection set is handed for an action: the additions to and
    /// removals from a connection carry the channel's configuration; the
    /// other actions are the channel's own work.
    pub fn action_item(&self, a: ChannelAction) -> (r: Option<ChannelActionItem>)
        ensures
            match a {
                ChannelAction::AddToCaConn(addr) => r matches Some(ChannelActionItem::AddToCaConn(c, x))
                    && x == addr && c.same(&self.conf_spec()),
                ChannelAction::RemoveFromCaConn(rc) => r matches Some(
                    ChannelActionItem::RemoveFromCaConn(c, x),
                ) && x == rc && c.same(&self.conf_spec()),
                _ => r is None,
            },
    {
        match a {
            ChannelAction::AddToCaConn(addr) => Some(ChannelActionItem::AddToCaConn(self.conf.duplicate(), addr)),
            ChannelAction::RemoveFromCaConn(rc) => Some(
                ChannelActionItem::RemoveFromCaConn(self.conf.duplicate(), rc),
            ),
            _ => None,
        }
    }

    pub fn state(&self) -> (r: ChannelState)
        ensures
            r == self.state_spec(),
    {
        self.state
    }

    pub fn backoff_i(&self) -> (r: u32)
        ensures
            r == self.backoff_index(),
    {
        self.backoff_i
    }

    /// The name of the current state.
    pub fn variant_name(&self) -> (r: &'static str)
        ensures
            r@ == state_name(self.state_spec()),
    {
        state_name_str(self.state)
    }
}

fn state_name_str(st: ChannelState) -> (r: &'static str)
    ensures
        r@ == state_name(st),
{
    match st {
        ChannelState::Init => "Init",
        ChannelState::Backoff { .. } => "Backoff",
        ChannelState::CssidReq => "CssidReq",
        ChannelState::AddrSearch { .. } => "AddrSearch",
        ChannelState::Observing { .. } => "Observing",
        ChannelState::Removing0(..) => "Removing0",
        ChannelState::Removing1(..) => "Removing1",
        ChannelState::Removing2(..) => "Removing2",
        ChannelState::Removed => "Removed",
        ChannelState::Done => "Done",
    }
}

impl Channel {
    /// The backoff index that the next failed attempt sets; the caller turns
    /// it into the delay it passes to `on_event`.
    pub fn next_backoff_index(&self) -> (r: u32)
        ensures
            r == next_backoff_spec(self.backoff_index()),
    {
        if self.backoff_i < BACKOFF_I_MAX {
            self.backoff_i + 1
        } else {
            BACKOFF_I_MAX
        }
    }

    /// The transition the current state takes without outside work; `None`
    /// where it waits for an event or is done.
    pub fn step(&mut self, now_ms: u64) -> (r: Option<ChannelAction>)
        requires
            old(self).wf(),
        ensures
            final(self).wf(),
            match step_spec(old(self).state_spec()) {
                Some((st, a)) => final(self).state_spec() == st && r == Some(a),
                None => final(self).state_spec() == old(self).state_spec() && r is None,
            },
            final(self).log_texts() == match step_spec(old(self).state_spec()) {
                Some((st, _)) => push_text(old(self).log_texts(), transition_line(old(self).state_spec(), st)),
                None => old(self).log_texts(),
            },
            final(self).name_spec() == old(self).name_spec(),
            final(self).conf_spec() == old(self).conf_spec(),
            final(self).removing_flag() == old(self).removing_flag(),
            final(self).found_addr() == old(self).found_addr(),
            final(self).backoff_index() == old(self).backoff_index(),
    {
        match self.state {
            ChannelState::Init => {
                self.goto(ChannelState::CssidReq, now_ms);
                Some(ChannelAction::QueryCssid)
            },
            ChannelState::Removing0(c) => {
                self.goto(ChannelState::Removing1(c), now_ms);
                Some(ChannelAction::Nothing)
            },
            ChannelState::Removing1(c) => {
                self.goto(ChannelState::Removing2(c), now_ms);
                Some(ChannelAction::RemoveFromCaConn(c))
            },
            ChannelState::Removed => {
                self.goto(ChannelState::Done, now_ms);
                Some(ChannelAction::Nothing)
            },
            _ => None,
        }
    }

    /// Takes an event that the outside work of the current state reported.
    /// `delay_ms` is the backoff delay for `next_backoff_index()`, used where
    /// the event is a failed attempt; an event that the state does not wait
    /// for changes nothing.
    pub fn on_event(&mut self, ev: ChannelEvent, now_ms: u64, delay_ms: u64) -> (r: ChannelAction)
        requires
            old(self).wf(),
        ensures
            final(self).wf(),
            match event_spec(old(self).state_spec(), ev, now_ms.saturating_add(delay_ms)) {
                Some((st, a)) => final(self).state_spec() == st && r == a,
                None => final(self).state_spec() == old(self).state_spec() && r is Nothing,
            },
            final(self).log_texts() == match event_spec(old(self).state_spec(), ev, now_ms.saturating_add(delay_ms)) {
                Some((st, _)) => push_text(old(self).log_texts(), transition_line(old(self).state_spec(), st)),
                None => old(self).log_texts(),
            },
            final(self).backoff_index() == (if bumps_backoff(old(self).state_spec(), ev) {
                next_backoff_spec(old(self).backoff_index())
            } else if resets_backoff(old(self).state_spec(), ev) {
                0
            } else {
                old(self).backoff_index()
            }),
            final(self).found_addr() == (match (old(self).state_spec(), ev) {
                (ChannelState::AddrSearch { .. }, ChannelEvent::AddrFound(a)) => Some(a),
                _ => old(self).found_addr(),
            }),
            final(self).name_spec() == old(self).name_spec(),
            final(self).conf_spec() == old(self).conf_spec(),
            final(self).removing_flag() == old(self).removing_flag(),
    {
        let until_ms = now_ms.saturating_add(delay_ms);
        match (self.state, ev) {
            (ChannelState::Backoff { next, .. }, ChannelEvent::BackoffElapsed) => {
                match next {
                    BackoffNext::CssidReq => {
                        self.goto(ChannelState::CssidReq, now_ms);
                        ChannelAction::QueryCssid
                    },
                    BackoffNext::AddrSearch { cssid } => {
                        self.goto(ChannelState::AddrSearch { cssid }, now_ms);
                        ChannelAction::SearchAddr { cssid }
                    },
                }
            },
            (ChannelState::CssidReq, ChannelEvent::CssidFound(cssid)) => {
                self.backoff_i = 0;
                self.goto(ChannelState::AddrSearch { cssid }, now_ms);
                ChannelAction::SearchAddr { cssid }
            },
            (ChannelState::CssidReq, ChannelEvent::CssidFailed) => {
                self.goto(ChannelState::Removed, now_ms);
                ChannelAction::Nothing
            },
            (ChannelState::CssidReq, ChannelEvent::CssidTimeout) => {
                self.backoff_i = self.next_backoff_index();
                self.goto(ChannelState::Backoff { until_ms, next: BackoffNext::CssidReq }, now_ms);
                ChannelAction::WaitBackoff { until_ms }
            },
            (ChannelState::AddrSearch { cssid }, ChannelEvent::AddrFound(addr)) => {
                self.backoff_i = 0;
                self.goto(ChannelState::Observing { cssid, addr }, now_ms);
                self.addr = Some(addr);
                ChannelAction::AddToCaConn(addr)
            },
            (ChannelState::AddrSearch { cssid }, ChannelEvent::AddrNotFound) => {
                self.backoff_i = self.next_backoff_index();
                self.goto(ChannelState::Backoff { until_ms, next: BackoffNext::AddrSearch { cssid } }, now_ms);
                ChannelAction::WaitBackoff { until_ms }
            },
            (ChannelState::AddrSearch { cssid }, ChannelEvent::AddrTimeout) => {
                self.backoff_i = self.next_backoff_index();
                self.goto(ChannelState::Backoff { until_ms, next: BackoffNext::AddrSearch { cssid } }, now_ms);
                ChannelAction::WaitBackoff { until_ms }
            },
            (ChannelState::AddrSearch { .. }, ChannelEvent::AddrFailed) => {
                self.goto(ChannelState::Done, now_ms);
                ChannelAction::Nothing
            },
            (ChannelState::Removing2(..), ChannelEvent::RemovedFromConn) => {
                self.goto(ChannelState::Removed, now_ms);
                ChannelAction::Nothing
            },
            _ => ChannelAction::Nothing,
        }
    }

    /// Starts the teardown, from whatever state the channel is in.
    pub fn transition_to_removing(&mut self, now_ms: u64)
        requires
            old(self).wf(),
        ensures
            final(self).wf(),
            final(self).state_spec() == removing_spec(old(self).state_spec()),
            final(self).removing_flag(),
            final(self).log_texts() == push_text(
                old(self).log_texts(),
                transition_line(old(self).state_spec(), removing_spec(old(self).state_spec())),
            ),
            final(self).name_spec() == old(self).name_spec(),
            final(self).conf_spec() == old(self).conf_spec(),
            final(self).found_addr() == old(self).found_addr(),
            final(self).backoff_index() == old(self).backoff_index(),
    {
        self.removing = true;
        let addr = match self.state {
            ChannelState::Observing { addr, .. } => Some(addr),
            _ => None,
        };
        let cssid = match self.state {
            ChannelState::AddrSearch { cssid } => Some(cssid),
            ChannelState::Observing { cssid, .. } => Some(cssid),
            ChannelState::Removing0(c) => c.cssid,
            ChannelState::Removing1(c) => c.cssid,
            ChannelState::Removing2(c) => c.cssid,
            _ => None,
        };
        self.goto(ChannelState::Removing0(RemovingCommon { cssid, addr }), now_ms);
    }

    /// Takes a removal command; a channel that is done no longer reads its
    /// commands, and then nothing changes.
    pub fn handle_remove(&mut self, now_ms: u64) -> (taken: bool)
        requires
            old(self).wf(),
        ensures
            final(self).wf(),
            taken == !(old(self).state_spec() is Done),
            taken ==> final(self).state_spec() == removing_spec(old(self).state_spec())
                && final(self).removing_flag() && final(self).log_texts() == push_text(
                old(self).log_texts(),
                transition_line(old(self).state_spec(), removing_spec(old(self).state_spec())),
            ),
            !taken ==> *final(self) == *old(self),
            final(self).name_spec() == old(self).name_spec(),
            final(self).conf_spec() == old(self).conf_spec(),
            final(self).found_addr() == old(self).found_addr(),
            final(self).backoff_index() == old(self).backoff_index(),
    {
        if let ChannelState::Done = self.state {
            false
        } else {
            self.transition_to_removing(now_ms);
            true
        }
    }

    /// The connection that the channel was on went down: a channel that is
    /// not tearing down starts over; one that is keeps its state.
    pub fn signal_ca_conn_down(&mut self)
        requires
            old(self).wf(),
        ensures
            final(self).wf(),
            final(self).state_spec() == (if in_teardown(old(self).state_spec()) {
                old(self).state_spec()
            } else {
                ChannelState::Init
            }),
            final(self).name_spec() == old(self).name_spec(),
            final(self).conf_spec() == old(self).conf_spec(),
            final(self).removing_flag() == old(self).removing_flag(),
            final(self).found_addr() == old(self).found_addr(),
            final(self).backoff_index() == old(self).backoff_index(),
            final(self).log_entries() == old(self).log_entries(),
    {
        match self.state {
            ChannelState::Removing0(..) | ChannelState::Removing1(..) | ChannelState::Removing2(
                ..,
            ) | ChannelState::Removed | ChannelState::Done => {},
            _ => {
                self.state = ChannelState::Init;
            },
        }
    }

    pub open spec fn addr_spec(self) -> Option<AddrV4> {
        match self.state_spec() {
            ChannelState::Backoff { .. } => self.found_addr(),
            ChannelState::Observing { addr, .. } => Some(addr),
            ChannelState::Removing0(c) => c.addr,
            ChannelState::Removing1(c) => c.addr,
            ChannelState::Removing2(c) => c.addr,
            _ => None,
        }
    }

    /// The address of the connection the channel is on or was last on: known
    /// while observed, backing off or tearing down.
    pub fn addr(&self) -> (r: Option<AddrV4>)
        ensures
            r == self.addr_spec(),
    {
        match self.state {
            ChannelState::Backoff { .. } => self.addr,
            ChannelState::Observing { addr, .. } => Some(addr),
            ChannelState::Removing0(c) => c.addr,
            ChannelState::Removing1(c) => c.addr,
            ChannelState::Removing2(c) => c.addr,
            _ => None,
        }
    }

    /// The time left of the current backoff at `now_ms`.
    pub fn backoff_info(&self, now_ms: u64) -> (r: Option<BackoffInfo>)
        ensures
            r == (match self.state_spec() {
                ChannelState::Backoff { until_ms, .. } => Some(
                    BackoffInfo { until: if until_ms > now_ms { (until_ms - now_ms) as u64 } else { 0 } },
                ),
                _ => None,
            }),
    {
        match self.state {
            ChannelState::Backoff { until_ms, .. } => Some(BackoffInfo { until: until_ms.saturating_sub(now_ms) }),
            _ => None,
        }
    }

    /// The full status of the channel at `now_ms`.
    pub fn channel_info(&self, now_ms: u64) -> (r: ChannelInfo)
        ensures
            r.state == self.state_spec(),
            r.backoff_i == self.backoff_index(),
            r.backoff == (match self.state_spec() {
                ChannelState::Backoff { until_ms, .. } => Some(
                    BackoffInfo { until: if until_ms > now_ms { (until_ms - now_ms) as u64 } else { 0 } },
                ),
                _ => None,
            }),
    {
        ChannelInfo { state: self.state, backoff: self.backoff_info(now_ms), backoff_i: self.backoff_i }
    }

    /// The channel as the status endpoints show it at `now_ms`.
    pub fn status_light(&self, now_ms: u64) -> (r: ChannelStatusLight)
        ensures
            r.name@ == self.name_spec(),
            r.state@ == state_name(self.state_spec()),
            r.backoff_i == self.backoff_index(),
            r.backoff_remaining_ms == (match self.state_spec() {
                ChannelState::Backoff { until_ms, .. } => Some(
                    if until_ms > now_ms { (until_ms - now_ms) as u64 } else { 0 },
                ),
                _ => None,
            }),
            r.addr.is_some() == self.found_addr().is_some(),
            r.addr.is_some() ==> r.addr.unwrap()@ == self.found_addr().unwrap().text(),
    {
        let backoff_remaining_ms = match self.state {
            ChannelState::Backoff { until_ms, .. } => Some(until_ms.saturating_sub(now_ms)),
            _ => None,
        };
        let addr = match &self.addr {
            Some(a) => Some(a.to_text()),
            None => None,
        };
        ChannelStatusLight {
            name: String::from_str(self.conf.name()),
            state: String::from_str(self.variant_name()),
            backoff_i: self.backoff_i,
            backoff_remaining_ms,
            addr,
        }
    }
}

/// Once a channel tears down it stays in teardown: no step, event or lost
/// connection leads it back to an earlier state.
pub proof fn lemma_teardown_absorbing(st: ChannelState, ev: ChannelEvent, until_ms: u64)
    requires
        in_teardown(st),
    ensures
        step_spec(st) matches Some((s, _)) ==> in_teardown(s),
        event_spec(st, ev, until_ms) matches Some((s, _)) ==> in_teardown(s),
        in_teardown(removing_spec(st)),
{
}

/// A removal runs to the end by itself, apart from the one confirmation of
/// the connection: from the first teardown state, two steps ask to take the
/// channel off its connection, keeping what the channel knew, and after the
/// confirmation two more steps end in `Done`.
pub proof fn lemma_removal_completes(c: RemovingCommon, until_ms: u64)
    ensures
        step_spec(ChannelState::Removing0(c)) == Some(
            (ChannelState::Removing1(c), ChannelAction::Nothing),
        ),
        step_spec(ChannelState::Removing1(c)) == Some(
            (ChannelState::Removing2(c), ChannelAction::RemoveFromCaConn(c)),
        ),
        step_spec(ChannelState::Removing2(c)) is None,
        event_spec(ChannelState::Removing2(c), ChannelEvent::RemovedFromConn, until_ms) == Some(
            (ChannelState::Removed, ChannelAction::Nothing),
        ),
        step_spec(ChannelState::Removed) == Some((ChannelState::Done, ChannelAction::Nothing)),
        step_spec(ChannelState::Done) is None,
{
}

/// A failed attempt raises the backoff index by one up to its largest value,
/// and a found id or address sets it back to zero.
pub proof fn lemma_backoff_bounded(i: u32, st: ChannelState, ev: ChannelEvent)
    requires
        i <= BACKOFF_I_MAX,
    ensures
        next_backoff_spec(i) <= BACKOFF_I_MAX,
        i < BACKOFF_I_MAX ==> next_backoff_spec(i) == i + 1,
        i == BACKOFF_I_MAX ==> next_backoff_spec(i) == BACKOFF_I_MAX,
        !(bumps_backoff(st, ev) && resets_backoff(st, ev)),
{
}

/// A fruitless or timed-out address search is retried: the channel backs
/// off until `until_ms` with the same status series id, and the end of the
/// backoff starts the search again. Neither event ends the channel or tears
/// it down.
pub proof fn lemma_addr_search_retries(cssid: u64, ev: ChannelEvent, until_ms: u64)
    requires
        ev is AddrTimeout || ev is AddrNotFound,
    ensures
        event_spec(ChannelState::AddrSearch { cssid }, ev, until_ms) == Some(
            (
                ChannelState::Backoff { until_ms, next: BackoffNext::AddrSearch { cssid } },
                ChannelAction::WaitBackoff { until_ms },
            ),
        ),
        event_spec(
            ChannelState::Backoff { until_ms, next: BackoffNext::AddrSearch { cssid } },
            ChannelEvent::BackoffElapsed,
            0,
        ) == Some((ChannelState::AddrSearch { cssid }, ChannelAction::SearchAddr { cssid })),
        bumps_backoff(ChannelState::AddrSearch { cssid }, ev),
{
}

/// A timeout never ends a channel: whatever the state, a search or lookup
/// timeout either changes nothing or starts a backoff that ends at
/// `until_ms`, and the channel does not tear down.
pub proof fn lemma_timeouts_back_off(st: ChannelState, ev: ChannelEvent, until_ms: u64)
    requires
        ev is AddrTimeout || ev is CssidTimeout,
    ensures
        event_spec(st, ev, until_ms) matches Some((s, a)) ==> (s matches ChannelState::Backoff { until_ms: u, .. } && u
            == until_ms && a == ChannelAction::WaitBackoff { until_ms } && !in_teardown(s)),
        (st is AddrSearch || st is CssidReq) ==> event_spec(st, ev, until_ms) is Some == ((st is AddrSearch
            && ev is AddrTimeout) || (st is CssidReq && ev is CssidTimeout)),
{
}

/// A channel keeps the address of its connection through its teardown:
/// each teardown state reports the address that its teardown carries, so a
/// channel taken off while observed still reports the connection it is on.
pub proof fn lemma_teardown_keeps_addr(ch: Channel, cssid: u64, addr: AddrV4)
    ensures
        ch.state_spec() matches ChannelState::Removing0(c) ==> ch.addr_spec() == c.addr,
        ch.state_spec() matches ChannelState::Removing1(c) ==> ch.addr_spec() == c.addr,
        ch.state_spec() matches ChannelState::Removing2(c) ==> ch.addr_spec() == c.addr,
        ch.state_spec() == removing_spec(ChannelState::Observing { cssid, addr }) ==> ch.addr_spec() == Some(addr),
{
}

/// A channel is observed once both lookups succeed: the status series id
/// found starts the address search with it, and the address found puts the
/// channel on the connection to that address, keeping the id; a lookup
/// timeout is retried after a backoff.
pub proof fn lemma_lookups_lead_to_observing(cssid: u64, addr: AddrV4, until_ms: u64)
    ensures
        event_spec(ChannelState::CssidReq, ChannelEvent::CssidFound(cssid), until_ms) == Some(
            (ChannelState::AddrSearch { cssid }, ChannelAction::SearchAddr { cssid }),
        ),
        event_spec(ChannelState::AddrSearch { cssid }, ChannelEvent::AddrFound(addr), until_ms) == Some(
            (ChannelState::Observing { cssid, addr }, ChannelAction::AddToCaConn(addr)),
        ),
        event_spec(ChannelState::CssidReq, ChannelEvent::CssidTimeout, until_ms) == Some(
            (
                ChannelState::Backoff { until_ms, next: BackoffNext::CssidReq },
                ChannelAction::WaitBackoff { until_ms },
            ),
        ),
        event_spec(
            ChannelState::Backoff { until_ms, next: BackoffNext::CssidReq },
            ChannelEvent::BackoffElapsed,
            0,
        ) == Some((ChannelState::CssidReq, ChannelAction::QueryCssid)),
        resets_backoff(ChannelState::AddrSearch { cssid }, ChannelEvent::AddrFound(addr)),
{
}

} // verus!
