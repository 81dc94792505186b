use vstd::prelude::*;
use crate::strorder::lemma_str_lt_asymmetric;
use crate::strorder::lemma_str_lt_irreflexive;
use crate::strorder::lemma_str_lt_total;
use crate::strorder::lemma_str_lt_transitive;
use crate::strorder::str_eq;
use crate::strorder::str_less;
use crate::strorder::str_lt;

verus! {

/// How long a shutdown may take before the daemon tears down anyway.
pub const SHUTDOWN_DEADLINE_MS: u64 = 30000;

/// The state of the daemon.
#[derive(Debug, Clone, Copy, PartialEq, Eq, Structural)]
pub enum DaemonState {
    Running,
    Stopping { deadline_ms: u64 },
}

impl DaemonState {
    /// Starts the shutdown of a running daemon, with its deadline from
    /// `now_ms`. Returns whether it started now; a second request only
    /// notes that it runs.
    pub fn trigger_shutdown(&mut self, now_ms: u64) -> (started: bool)
        ensures
            started == (*old(self) is Running),
            started ==> *final(self) == (DaemonState::Stopping {
                deadline_ms: if now_ms + SHUTDOWN_DEADLINE_MS > u64::MAX {
                    u64::MAX
                } else {
                    (now_ms + SHUTDOWN_DEADLINE_MS) as u64
                },
            }),
            !started ==> *final(self) == *old(self),
    {
        match *self {
            DaemonState::Running => {
                *self = DaemonState::Stopping { deadline_ms: now_ms.saturating_add(SHUTDOWN_DEADLINE_MS) };
                true
            },
            DaemonState::Stopping { .. } => false,
        }
    }

    /// Whether a shutdown ran past its deadline.
    pub fn deadline_expired(&self, now_ms: u64) -> (r: bool)
        ensures
            r == (match *self {
                DaemonState::Running => false,
                DaemonState::Stopping { deadline_ms } => now_ms >= deadline_ms,
            }),
    {
        match *self {
            DaemonState::Running => false,
            DaemonState::Stopping { deadline_ms } => now_ms >= deadline_ms,
        }
    }
}

/// A command to the daemon, by kind.
#[derive(Debug, Clone, Copy, PartialEq, Eq, Structural)]
pub enum DaemonCmdKind {
    GetMetrics,
    ScyllaStatus,
    ConfigReload,
    Shutdown,
}

impl DaemonCmdKind {
    pub open spec fn name_spec(&self) -> Seq<char> {
        match self {
            DaemonCmdKind::GetMetrics => "GetMetrics"@,
            DaemonCmdKind::ScyllaStatus => "ScyllaStatus"@,
            DaemonCmdKind::ConfigReload => "ConfigReload"@,
            DaemonCmdKind::Shutdown => "Shutdown"@,
        }
    }

    pub fn name(&self) -> (r: &'static str)
        ensures
            r@ == self.name_spec(),
    {
        match self {
            DaemonCmdKind::GetMetrics => "GetMetrics",
            DaemonCmdKind::ScyllaStatus => "ScyllaStatus",
            DaemonCmdKind::ConfigReload => "ConfigReload",
            DaemonCmdKind::Shutdown => "Shutdown",
        }
    }
}

/// What the run loop of the daemon saw.
#[derive(Debug, Clone, Copy, PartialEq, Eq, Structural)]
pub enum DaemonEvent {
    /// A batch of items from the connection set.
    ConnsetBatch,
    ConnsetError,
    /// The stream of the connection set ended.
    ConnsetEnded,
    /// A shutdown signal arrived.
    Signal,
    /// The signal handling ended.
    SignalsEnded,
    Cmd(DaemonCmdKind),
    /// The command channel closed.
    CmdClosed,
    /// Metrics of the insert workers arrived.
    InsertOut,
    /// The output of the insert workers ended.
    InsertOutEnded,
    Tick,
}

/// What the run loop does about an event.
#[derive(Debug, Clone, Copy, PartialEq, Eq, Structural)]
pub struct DaemonStep {
    /// Answer a command of this kind.
    pub reply: Option<DaemonCmdKind>,
    /// Reload the channel configuration and answer with the result.
    pub reload: bool,
    /// Ask the connection set to shut down.
    pub shutdown_connset: bool,
    /// Leave the loop and shut down.
    pub exit: bool,
}

/// The decisions of the run loop of the daemon: its state, and which of its
/// sources it still listens to.
pub struct DaemonLoop {
    state: DaemonState,
    signals_done: bool,
    cmd_done: bool,
    insert_out_done: bool,
    shutdown_requests: Ghost<nat>,
}

impl DaemonLoop {
    pub closed spec fn state_spec(&self) -> DaemonState {
        self.state
    }

    pub closed spec fn signals_done_spec(&self) -> bool {
        self.signals_done
    }

    pub closed spec fn cmd_done_spec(&self) -> bool {
        self.cmd_done
    }

    pub closed spec fn insert_out_done_spec(&self) -> bool {
        self.insert_out_done
    }

    /// How often the connection set was asked to shut down.
    pub closed spec fn shutdown_requests(&self) -> nat {
        self.shutdown_requests@
    }

    /// The connection set is asked to shut down once, when the daemon starts
    /// to stop, and never again.
    pub open spec fn wf(&self) -> bool {
        self.shutdown_requests() == (if self.state_spec() is Running {
            0nat
        } else {
            1nat
        })
    }

    pub fn new() -> (r: Self)
        ensures
            r.wf(),
            r.state_spec() is Running,
            !r.signals_done_spec(),
            !r.cmd_done_spec(),
            !r.insert_out_done_spec(),
    {
        DaemonLoop {
            state: DaemonState::Running,
            signals_done: false,
            cmd_done: false,
            insert_out_done: false,
            shutdown_requests: Ghost(0),
        }
    }

    /// Whether the loop still listens to the signals.
    pub fn listens_signals(&self) -> (r: bool)
        ensures
            r == !self.signals_done_spec(),
    {
        !self.signals_done
    }

    /// Whether the loop still listens to commands.
    pub fn listens_cmds(&self) -> (r: bool)
        ensures
            r == !self.cmd_done_spec(),
    {
        !self.cmd_done
    }

    /// Whether the loop still listens to the insert workers.
    pub fn listens_insert_out(&self) -> (r: bool)
        ensures
            r == !self.insert_out_done_spec(),
    {
        !self.insert_out_done
    }

    fn stop(&mut self, now_ms: u64) -> (sent: bool)
        requires
            old(self).wf(),
        ensures
            final(self).wf(),
            sent == (old(self).state_spec() is Running),
            final(self).state_spec() is Stopping,
            sent ==> final(self).state_spec() == (DaemonState::Stopping {
                deadline_ms: if now_ms + SHUTDOWN_DEADLINE_MS > u64::MAX {
                    u64::MAX
                } else {
                    (now_ms + SHUTDOWN_DEADLINE_MS) as u64
                },
            }),
            !sent ==> final(self).state_spec() == old(self).state_spec(),
            final(self).signals_done == old(self).signals_done,
            final(self).cmd_done == old(self).cmd_done,
            final(self).insert_out_done == old(self).insert_out_done,
    {
        let sent = self.state.trigger_shutdown(now_ms);
        if sent {
            proof {
                self.shutdown_requests = Ghost(self.shutdown_requests@ + 1);
            }
        }
        sent
    }

    /// Decides what an event at `now_ms` leads to. An error of the
    /// connection set, a signal, a closed command channel and the shutdown
    /// command start the shutdown; the loop ends when the connection set's
    /// stream ends, or at a tick once the shutdown ran past its deadline.
    pub fn on_event(&mut self, ev: DaemonEvent, now_ms: u64) -> (r: DaemonStep)
        requires
            old(self).wf(),
        ensures
            final(self).wf(),
            r.exit == (ev is ConnsetEnded || (ev is Tick && match old(self).state_spec() {
                DaemonState::Running => false,
                DaemonState::Stopping { deadline_ms } => now_ms >= deadline_ms,
            })),
            r.reply == (match ev {
                DaemonEvent::Cmd(DaemonCmdKind::GetMetrics) => Some(DaemonCmdKind::GetMetrics),
                DaemonEvent::Cmd(DaemonCmdKind::Shutdown) => Some(DaemonCmdKind::Shutdown),
                _ => None,
            }),
            r.reload == (ev == DaemonEvent::Cmd(DaemonCmdKind::ConfigReload)),
            ({
                let stops = ev is ConnsetError || ev is Signal || ev is CmdClosed || ev == DaemonEvent::Cmd(
                    DaemonCmdKind::Shutdown,
                );
                &&& r.shutdown_connset == (stops && old(self).state_spec() is Running)
                &&& stops ==> final(self).state_spec() is Stopping
                &&& !stops ==> final(self).state_spec() == old(self).state_spec()
                &&& (stops && old(self).state_spec() is Running) ==> final(self).state_spec() == (
                DaemonState::Stopping {
                    deadline_ms: if now_ms + SHUTDOWN_DEADLINE_MS > u64::MAX {
                        u64::MAX
                    } else {
                        (now_ms + SHUTDOWN_DEADLINE_MS) as u64
                    },
                })
            }),
            final(self).signals_done_spec() == (old(self).signals_done_spec() || ev is SignalsEnded),
            final(self).cmd_done_spec() == (old(self).cmd_done_spec() || ev is CmdClosed),
            final(self).insert_out_done_spec() == (old(self).insert_out_done_spec() || ev is InsertOutEnded),
            final(self).shutdown_requests() == old(self).shutdown_requests() + if r.shutdown_connset {
                1nat
            } else {
                0nat
            },
    {
        let mut step = DaemonStep { reply: None, reload: false, shutdown_connset: false, exit: false };
        match ev {
            DaemonEvent::ConnsetBatch => {},
            DaemonEvent::ConnsetError => {
                step.shutdown_connset = self.stop(now_ms);
            },
            DaemonEvent::ConnsetEnded => {
                step.exit = true;
            },
            DaemonEvent::Signal => {
                step.shutdown_connset = self.stop(now_ms);
            },
            DaemonEvent::SignalsEnded => {
                self.signals_done = true;
            },
            DaemonEvent::Cmd(k) => match k {
                DaemonCmdKind::GetMetrics => {
                    step.reply = Some(DaemonCmdKind::GetMetrics);
                },
                DaemonCmdKind::ConfigReload => {
                    step.reload = true;
                },
                DaemonCmdKind::Shutdown => {
                    step.reply = Some(DaemonCmdKind::Shutdown);
                    step.shutdown_connset = self.stop(now_ms);
                },
                DaemonCmdKind::ScyllaStatus => {},
            },
            DaemonEvent::CmdClosed => {
                self.cmd_done = true;
                step.shutdown_connset = self.stop(now_ms);
            },
            DaemonEvent::InsertOut => {},
            DaemonEvent::InsertOutEnded => {
                self.insert_out_done = true;
            },
            DaemonEvent::Tick => {
                step.exit = self.state.deadline_expired(now_ms);
            },
        }
        step
    }
}

/// Whatever the events, the connection set is asked to shut down at most
/// once: never while the daemon runs, once from the moment it stops.
pub proof fn lemma_shutdown_requested_once(d: DaemonLoop)
    requires
        d.wf(),
    ensures
        d.shutdown_requests() <= 1,
        d.shutdown_requests() == 1 <==> d.state_spec() is Stopping,
{
}

/// The lengths of the insert queues of one database cluster.
#[derive(Debug, Clone, Copy, PartialEq, Eq, Structural)]
pub struct QueueLens {
    pub st_rf1: u64,
    pub st_rf3: u64,
    pub mt_rf3: u64,
    pub lt_rf3: u64,
    pub lt_rf3_lat5: u64,
}

/// The sum of the lengths of the clusters, queue by queue.
pub open spec fn queue_sum(s: Seq<QueueLens>) -> (int, int, int, int, int)
    decreases s.len(),
{
    if s.len() == 0 {
        (0, 0, 0, 0, 0)
    } else {
        let r = queue_sum(s.drop_last());
        let x = s.last();
        (r.0 + x.st_rf1, r.1 + x.st_rf3, r.2 + x.mt_rf3, r.3 + x.lt_rf3, r.4 + x.lt_rf3_lat5)
    }
}

pub proof fn lemma_queue_sum_prefix(s: Seq<QueueLens>, i: int)
    requires
        0 <= i <= s.len(),
    ensures
        queue_sum(s.subrange(0, i)).0 <= queue_sum(s).0,
        queue_sum(s.subrange(0, i)).1 <= queue_sum(s).1,
        queue_sum(s.subrange(0, i)).2 <= queue_sum(s).2,
        queue_sum(s.subrange(0, i)).3 <= queue_sum(s).3,
        queue_sum(s.subrange(0, i)).4 <= queue_sum(s).4,
    decreases s.len() - i,
{
    if i < s.len() {
        lemma_queue_sum_prefix(s, i + 1);
        assert(s.subrange(0, i + 1).drop_last() =~= s.subrange(0, i));
    } else {
        assert(s.subrange(0, i) =~= s);
    }
}

/// The total length of each insert queue over all clusters, as the tick
/// reports it.
pub fn queue_totals(clusters: &Vec<QueueLens>) -> (r: QueueLens)
    requires
        queue_sum(clusters@).0 <= u64::MAX,
        queue_sum(clusters@).1 <= u64::MAX,
        queue_sum(clusters@).2 <= u64::MAX,
        queue_sum(clusters@).3 <= u64::MAX,
        queue_sum(clusters@).4 <= u64::MAX,
    ensures
        (r.st_rf1 as int, r.st_rf3 as int, r.mt_rf3 as int, r.lt_rf3 as int, r.lt_rf3_lat5 as int) == queue_sum(
            clusters@,
        ),
{
    let mut t = QueueLens { st_rf1: 0, st_rf3: 0, mt_rf3: 0, lt_rf3: 0, lt_rf3_lat5: 0 };
    let n = clusters.len();
    let mut i: usize = 0;
    proof {
        assert(clusters@.subrange(0, 0) =~= Seq::<QueueLens>::empty());
    }
    while i < n
        invariant
            0 <= i <= n,
            n == clusters@.len(),
            queue_sum(clusters@).0 <= u64::MAX,
            queue_sum(clusters@).1 <= u64::MAX,
            queue_sum(clusters@).2 <= u64::MAX,
            queue_sum(clusters@).3 <= u64::MAX,
            queue_sum(clusters@).4 <= u64::MAX,
            (t.st_rf1 as int, t.st_rf3 as int, t.mt_rf3 as int, t.lt_rf3 as int, t.lt_rf3_lat5 as int) == queue_sum(
                clusters@.subrange(0, i as int),
            ),
        decreases n - i,
    {
        let x = clusters[i];
        proof {
            assert(clusters@.subrange(0, i + 1).drop_last() =~= clusters@.subrange(0, i as int));
            lemma_queue_sum_prefix(clusters@, i + 1);
        }
        t.st_rf1 = t.st_rf1 + x.st_rf1;
        t.st_rf3 = t.st_rf3 + x.st_rf3;
        t.mt_rf3 = t.mt_rf3 + x.mt_rf3;
        t.lt_rf3 = t.lt_rf3 + x.lt_rf3;
        t.lt_rf3_lat5 = t.lt_rf3_lat5 + x.lt_rf3_lat5;
        i = i + 1;
    }
    proof {
        assert(clusters@.subrange(0, n as int) =~= clusters@);
    }
    t
}

pub open spec fn views(s: Seq<String>) -> Seq<Seq<char>> {
    s.map_values(|x: String| x@)
}

/// Whether the names are ordered strictly.
pub open spec fn sorted_names(s: Seq<Seq<char>>) -> bool {
    forall|i: int, j: int| 0 <= i < j < s.len() ==> str_lt(#[trigger] s[i], #[trigger] s[j])
}

/// The names of `s` that are not in `other`, in their order.
pub open spec fn keep_absent(s: Seq<Seq<char>>, other: Set<Seq<char>>) -> Seq<Seq<char>>
    decreases s.len(),
{
    if s.len() == 0 {
        s
    } else if other.contains(s.last()) {
        keep_absent(s.drop_last(), other)
    } else {
        keep_absent(s.drop_last(), other).push(s.last())
    }
}

/// The set of configured channel names, kept in order like a sorted set.
#[derive(Debug)]
pub struct ChannelNameSet {
    names: Vec<String>,
}

impl ChannelNameSet {
    pub closed spec fn names_view(&self) -> Seq<Seq<char>> {
        views(self.names@)
    }

    pub open spec fn wf(&self) -> bool {
        sorted_names(self.names_view())
    }

    pub fn new() -> (r: Self)
        ensures
            r.wf(),
            r.names_view().len() == 0,
    {
        let r = ChannelNameSet { names: Vec::new() };
        proof {
            assert(views(r.names@) =~= Seq::<Seq<char>>::empty());
        }
        r
    }

    pub fn len(&self) -> (r: usize)
        ensures
            r == self.names_view().len(),
    {
        self.names.len()
    }

    pub fn get(&self, i: usize) -> (r: &String)
        requires
            i < self.names_view().len(),
        ensures
            r@ == self.names_view()[i as int],
    {
        &self.names[i]
    }

    pub fn contains(&self, name: &str) -> (r: bool)
        ensures
            r == self.names_view().contains(name@),
    {
        let n = self.names.len();
        let mut i: usize = 0;
        while i < n
            invariant
                0 <= i <= n,
                n == self.names@.len(),
                forall|j: int| 0 <= j < i ==> self.names_view()[j] != name@,
            decreases n - i,
        {
            if str_eq(self.names[i].as_str(), name) {
                proof {
                    assert(self.names_view()[i as int] == name@);
                }
                return true;
            }
            i = i + 1;
        }
        false
    }

    /// Adds a name, keeping the order. Returns whether it was new.
    pub fn insert(&mut self, name: String) -> (inserted: bool)
        requires
            old(self).wf(),
        ensures
            final(self).wf(),
            inserted == !old(self).names_view().contains(name@),
            final(self).names_view().to_set() == old(self).names_view().to_set().insert(name@),
            !inserted ==> final(self).names_view() == old(self).names_view(),
    {
        let n = self.names.len();
        let mut i: usize = 0;
        while i < n && str_less(self.names[i].as_str(), name.as_str())
            invariant
                0 <= i <= n,
                n == self.names@.len(),
                self.wf(),
                forall|j: int| 0 <= j < i ==> str_lt(#[trigger] self.names_view()[j], name@),
            decreases n - i,
        {
            i = i + 1;
        }
        if i < n && str_eq(self.names[i].as_str(), name.as_str()) {
            proof {
                assert(self.names_view()[i as int] == name@);
                assert(self.names_view().to_set().insert(name@) =~= self.names_view().to_set());
            }
            return false;
        }
        let ghost old_v = self.names_view();
        proof {
            assert forall|j: int| 0 <= j < n implies old_v[j] != name@ by {
                if j < i {
                    lemma_str_lt_irreflexive(name@);
                } else {
                    let ni = old_v[i as int];
                    lemma_str_lt_total(ni, name@);
                    if j > i {
                        lemma_str_lt_asymmetric(name@, old_v[j]);
                        lemma_str_lt_transitive(name@, ni, old_v[j]);
                    }
                }
            }
        }
        let ghost nm = name@;
        self.names.insert(i, name);
        proof {
            let v = self.names_view();
            assert(v =~= old_v.insert(i as int, nm));
            assert forall|a: int, b: int| 0 <= a < b < v.len() implies str_lt(#[trigger] v[a], #[trigger] v[b]) by {
                if b < i {
                } else if b == i {
                } else if a == i {
                    let ni = old_v[i as int];
                    lemma_str_lt_total(ni, nm);
                    if b - 1 > i {
                        lemma_str_lt_transitive(nm, ni, old_v[b - 1]);
                    }
                } else if a < i {
                } else {
                }
            }
            assert(v.to_set() =~= old_v.to_set().insert(nm)) by {
                assert forall|x: Seq<char>| v.to_set().contains(x) implies old_v.to_set().insert(nm).contains(x) by {
                    let k = choose|k: int| 0 <= k < v.len() && v[k] == x;
                    if k < i {
                        assert(old_v[k] == x);
                    } else if k > i {
                        assert(old_v[k - 1] == x);
                    }
                }
                assert forall|x: Seq<char>| old_v.to_set().insert(nm).contains(x) implies v.to_set().contains(x) by {
                    if x == nm {
                        assert(v[i as int] == nm);
                    } else {
                        let k = choose|k: int| 0 <= k < old_v.len() && old_v[k] == x;
                        if k < i {
                            assert(v[k] == x);
                        } else {
                            assert(v[k + 1] == x);
                        }
                    }
                }
            }
        }
        true
    }

    /// The set of the names of a channel configuration.
    pub fn from_names(names: &Vec<String>) -> (r: Self)
        ensures
            r.wf(),
            r.names_view().to_set() == views(names@).to_set(),
    {
        let mut r = ChannelNameSet::new();
        let mut i: usize = 0;
        proof {
            assert(views(names@.subrange(0, 0)).to_set() =~= Set::<Seq<char>>::empty());
            assert(r.names_view().to_set() =~= Set::<Seq<char>>::empty());
        }
        while i < names.len()
            invariant
                0 <= i <= names@.len(),
                r.wf(),
                r.names_view().to_set() == views(names@.subrange(0, i as int)).to_set(),
            decreases names@.len() - i,
        {
            let ghost before = r.names_view().to_set();
            r.insert(names[i].clone());
            proof {
                let a = views(names@.subrange(0, i as int));
                let b = views(names@.subrange(0, i + 1));
                assert(b =~= a.push(names@[i as int]@));
                a.lemma_push_to_set_commute(names@[i as int]@);
            }
            i = i + 1;
        }
        proof {
            assert(names@.subrange(0, names@.len() as int) =~= names@);
        }
        r
    }

    /// What a reload of the channel configuration changes: the configured
    /// channels that are new, in the order of the configuration, and the
    /// known channels that are no longer configured, in order.
    pub fn diff(&self, config: &Vec<String>) -> (r: (Vec<String>, Vec<String>))
        ensures
            views(r.0@) == keep_absent(views(config@), self.names_view().to_set()),
            views(r.1@) == keep_absent(self.names_view(), views(config@).to_set()),
    {
        let mut add: Vec<String> = Vec::new();
        let mut i: usize = 0;
        while i < config.len()
            invariant
                0 <= i <= config@.len(),
                views(add@) == keep_absent(views(config@.subrange(0, i as int)), self.names_view().to_set()),
            decreases config@.len() - i,
        {
            let c = &config[i];
            proof {
                assert(views(config@.subrange(0, i + 1)).drop_last() =~= views(config@.subrange(0, i as int)));
                assert(views(config@.subrange(0, i + 1)).last() == c@);
            }
            if !self.contains(c.as_str()) {
                let x = c.clone();
                proof {
                    assert(views(add@.push(x)) =~= views(add@).push(x@));
                }
                add.push(x);
            }
            i = i + 1;
        }
        proof {
            assert(config@.subrange(0, config@.len() as int) =~= config@);
        }
        let cfg = ChannelNameSet::from_names(config);
        let mut remove: Vec<String> = Vec::new();
        let n = self.names.len();
        let mut k: usize = 0;
        while k < n
            invariant
                0 <= k <= n,
                n == self.names@.len(),
                cfg.names_view().to_set() == views(config@).to_set(),
                views(remove@) == keep_absent(self.names_view().subrange(0, k as int), views(config@).to_set()),
            decreases n - k,
        {
            let s = &self.names[k];
            proof {
                assert(self.names_view().subrange(0, k + 1).drop_last() =~= self.names_view().subrange(0, k as int));
                assert(self.names_view().subrange(0, k + 1).last() == s@);
                assert(cfg.names_view().contains(s@) == cfg.names_view().to_set().contains(s@));
            }
            if !cfg.contains(s.as_str()) {
                let x = s.clone();
                proof {
                    assert(views(remove@.push(x)) =~= views(remove@).push(x@));
                }
                remove.push(x);
            }
            k = k + 1;
        }
        proof {
            assert(self.names_view().subrange(0, n as int) =~= self.names_view());
        }
        (add, remove)
    }
}

} // verus!
