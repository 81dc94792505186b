use vstd::prelude::*;
use crate::addr::AddrV4;
use std::collections::VecDeque;

verus! {

/// The longest one-line text of a trace item, in characters.
pub const ONELINE_MAX: usize = 50;

/// How many items a trace queue holds at most.
pub const TRACE_CAP: usize = 100;

/// Where a full trace queue is cut: the items before this index leave.
pub const TRACE_KEEP_FROM: usize = 66;

/// An event of a connection, as the connection trace records it. Durations
/// are in nanoseconds.
#[derive(Debug, Clone, PartialEq, Eq)]
pub enum ConnectionTraceL1ItemInner {
    Ping,
    Pong(u64),
    TcpConnectAttempt,
    TcpConnected(u64),
    TcpConnectError(String),
    ConnectionError(String),
    EndOfStream,
}

/// A failure recorded in a channel trace, by its message.
#[derive(Debug, Clone, PartialEq, Eq)]
pub enum ChannelTraceErrorInner {
    String(String),
}

#[derive(Debug, Clone, PartialEq, Eq)]
pub struct ChannelTraceError {
    pub err: ChannelTraceErrorInner,
}

impl ChannelTraceError {
    pub fn new(msg: String) -> (r: Self)
        ensures
            r.err == ChannelTraceErrorInner::String(msg),
    {
        ChannelTraceError { err: ChannelTraceErrorInner::String(msg) }
    }
}

/// The latency of a channel creation, in nanoseconds.
#[derive(Debug, Clone, Copy, PartialEq, Eq, Structural)]
pub struct Created {
    pub latency: u64,
}

impl Created {
    pub fn new(latency: u64) -> (r: Self)
        ensures
            r.latency == latency,
    {
        Created { latency }
    }
}

/// The latency of a read-notify answer, in nanoseconds.
#[derive(Debug, Clone, Copy, PartialEq, Eq, Structural)]
pub struct ReadNotifyRes {
    pub latency: u64,
}

impl ReadNotifyRes {
    pub fn new(latency: u64) -> (r: Self)
        ensures
            r.latency == latency,
    {
        ReadNotifyRes { latency }
    }
}

/// A protocol step of a channel.
#[derive(Debug, Clone, Copy, PartialEq, Eq, Structural)]
pub enum CaProto {
    Created(Created),
    ReadNotify,
    ReadNotifyRes(ReadNotifyRes),
    ReadNotifyTimeout,
}

/// An event of a channel, as the channel trace records it.
#[derive(Debug, Clone, PartialEq, Eq)]
pub enum ChannelTraceItemInner {
    Error(ChannelTraceError),
    CaProto(CaProto),
    TcpConnectAttempt,
    TcpConnected(u64),
    TcpConnectError(String),
    ConnectionError(String),
    EndOfStream,
}

impl ConnectionTraceL1ItemInner {
    /// The channel event that a connection event means for each channel of
    /// the connection: none for the echo exchange, the same event otherwise.
    pub open spec fn channel_trace_spec(&self) -> Option<ChannelTraceItemInner> {
        match self {
            ConnectionTraceL1ItemInner::Ping => None,
            ConnectionTraceL1ItemInner::Pong(_) => None,
            ConnectionTraceL1ItemInner::TcpConnectAttempt => Some(ChannelTraceItemInner::TcpConnectAttempt),
            ConnectionTraceL1ItemInner::TcpConnected(dt) => Some(ChannelTraceItemInner::TcpConnected(*dt)),
            ConnectionTraceL1ItemInner::TcpConnectError(e) => Some(ChannelTraceItemInner::TcpConnectError(*e)),
            ConnectionTraceL1ItemInner::ConnectionError(e) => Some(ChannelTraceItemInner::ConnectionError(*e)),
            ConnectionTraceL1ItemInner::EndOfStream => Some(ChannelTraceItemInner::EndOfStream),
        }
    }

    pub fn to_channel_trace_inner(&self) -> (r: Option<ChannelTraceItemInner>)
        ensures
            r == self.channel_trace_spec(),
    {
        match self {
            ConnectionTraceL1ItemInner::Ping => None,
            ConnectionTraceL1ItemInner::Pong(_) => None,
            ConnectionTraceL1ItemInner::TcpConnectAttempt => Some(ChannelTraceItemInner::TcpConnectAttempt),
            ConnectionTraceL1ItemInner::TcpConnected(dt) => Some(ChannelTraceItemInner::TcpConnected(*dt)),
            ConnectionTraceL1ItemInner::TcpConnectError(e) => Some(
                ChannelTraceItemInner::TcpConnectError(e.clone()),
            ),
            ConnectionTraceL1ItemInner::ConnectionError(e) => Some(
                ChannelTraceItemInner::ConnectionError(e.clone()),
            ),
            ConnectionTraceL1ItemInner::EndOfStream => Some(ChannelTraceItemInner::EndOfStream),
        }
    }
}

/// A connection event with its time in milliseconds and the connection.
#[derive(Debug, Clone, PartialEq, Eq)]
pub struct ConnectionTraceL1Item {
    pub ts: u64,
    pub addr: AddrV4,
    pub inner: ConnectionTraceL1ItemInner,
}

/// A connection event as the trace endpoint exports it.
#[derive(Debug, Clone, PartialEq, Eq)]
pub struct ConnectionTraceExportItem {
    pub ts1: u64,
    pub oneline: String,
    pub inner: ConnectionTraceL1ItemInner,
}

/// A channel event with its time in milliseconds.
#[derive(Debug, Clone, PartialEq, Eq)]
pub struct ChannelTraceItem {
    pub ts: u64,
    pub inner: ChannelTraceItemInner,
}

impl ChannelTraceItem {
    pub fn new(inner: ChannelTraceItemInner, ts: u64) -> (r: Self)
        ensures
            r.inner == inner,
            r.ts == ts,
    {
        ChannelTraceItem { ts, inner }
    }
}

/// A channel event with the name of the channel.
#[derive(Debug, Clone, PartialEq, Eq)]
pub struct ChannelTraceL1Item {
    pub ts: u64,
    pub chname: String,
    pub inner: ChannelTraceItem,
}

impl ChannelTraceL1Item {
    pub fn new(chname: String, inner: ChannelTraceItem, ts: u64) -> (r: Self)
        ensures
            r.chname == chname,
            r.inner == inner,
            r.ts == ts,
    {
        ChannelTraceL1Item { ts, chname, inner }
    }
}

/// A channel event with the connection it happened on.
#[derive(Debug, Clone, PartialEq, Eq)]
pub struct ChannelTraceL2Item {
    pub ts: u64,
    pub conn: AddrV4,
    pub inner: ChannelTraceL1Item,
}

impl ChannelTraceL2Item {
    pub fn new(conn: AddrV4, inner: ChannelTraceL1Item, ts: u64) -> (r: Self)
        ensures
            r.conn == conn,
            r.inner == inner,
            r.ts == ts,
    {
        ChannelTraceL2Item { ts, conn, inner }
    }
}

impl ChannelTraceError {
    /// The message of the error, as its text shows it.
    pub open spec fn text_spec(&self) -> Seq<char> {
        match self.err {
            ChannelTraceErrorInner::String(x) => x@,
        }
    }

    pub fn to_text(&self) -> (r: String)
        ensures
            r@ == self.text_spec(),
    {
        match &self.err {
            ChannelTraceErrorInner::String(x) => x.clone(),
        }
    }
}

impl ConnectionTraceL1ItemInner {
    /// The duration that the one-line text of the event prints, if any.
    pub open spec fn duration_spec(&self) -> Option<u64> {
        match self {
            ConnectionTraceL1ItemInner::Pong(lat) => Some(*lat),
            ConnectionTraceL1ItemInner::TcpConnected(dt) => Some(*dt),
            _ => None,
        }
    }

    pub fn duration_ns(&self) -> (r: Option<u64>)
        ensures
            r == self.duration_spec(),
    {
        match self {
            ConnectionTraceL1ItemInner::Pong(lat) => Some(*lat),
            ConnectionTraceL1ItemInner::TcpConnected(dt) => Some(*dt),
            _ => None,
        }
    }

    /// The one-line text of the event, with `ms` the printed milliseconds of
    /// its duration.
    pub open spec fn oneline_spec(&self, ms: Seq<char>) -> Seq<char> {
        match self {
            ConnectionTraceL1ItemInner::Ping => "ping"@,
            ConnectionTraceL1ItemInner::Pong(_) => "pong "@ + ms + " ms"@,
            ConnectionTraceL1ItemInner::TcpConnectAttempt => "tcp connect"@,
            ConnectionTraceL1ItemInner::TcpConnected(_) => "tcp connected "@ + ms + " ms"@,
            ConnectionTraceL1ItemInner::TcpConnectError(e) => "tcp connect error "@ + e@,
            ConnectionTraceL1ItemInner::ConnectionError(e) => "connection error "@ + e@,
            ConnectionTraceL1ItemInner::EndOfStream => "end of stream"@,
        }
    }

    pub fn oneline(&self, ms: &str) -> (r: String)
        ensures
            r@ == self.oneline_spec(ms@),
    {
        match self {
            ConnectionTraceL1ItemInner::Ping => String::from_str("ping"),
            ConnectionTraceL1ItemInner::Pong(_) => concat3("pong ", ms, " ms"),
            ConnectionTraceL1ItemInner::TcpConnectAttempt => String::from_str("tcp connect"),
            ConnectionTraceL1ItemInner::TcpConnected(_) => concat3("tcp connected ", ms, " ms"),
            ConnectionTraceL1ItemInner::TcpConnectError(e) => concat2("tcp connect error ", e.as_str()),
            ConnectionTraceL1ItemInner::ConnectionError(e) => concat2("connection error ", e.as_str()),
            ConnectionTraceL1ItemInner::EndOfStream => String::from_str("end of stream"),
        }
    }
}

impl CaProto {
    /// The duration that the one-line text of the step prints, if any.
    pub open spec fn duration_spec(&self) -> Option<u64> {
        match self {
            CaProto::Created(x) => Some(x.latency),
            CaProto::ReadNotifyRes(x) => Some(x.latency),
            _ => None,
        }
    }

    /// The one-line text of the step, with `ms` the printed milliseconds of
    /// its duration.
    pub open spec fn oneline_spec(&self, ms: Seq<char>) -> Seq<char> {
        match self {
            CaProto::Created(_) => "created "@ + ms + " ms"@,
            CaProto::ReadNotify => "read-notify"@,
            CaProto::ReadNotifyRes(_) => "read-notify-res "@ + ms + " ms"@,
            CaProto::ReadNotifyTimeout => "read-notify-timeout"@,
        }
    }

    pub fn oneline(&self, ms: &str) -> (r: String)
        ensures
            r@ == self.oneline_spec(ms@),
    {
        match self {
            CaProto::Created(_) => concat3("created ", ms, " ms"),
            CaProto::ReadNotify => String::from_str("read-notify"),
            CaProto::ReadNotifyRes(_) => concat3("read-notify-res ", ms, " ms"),
            CaProto::ReadNotifyTimeout => String::from_str("read-notify-timeout"),
        }
    }
}

impl ChannelTraceItemInner {
    /// The duration that the one-line text of the event prints, if any.
    pub open spec fn duration_spec(&self) -> Option<u64> {
        match self {
            ChannelTraceItemInner::CaProto(x) => x.duration_spec(),
            ChannelTraceItemInner::TcpConnected(dt) => Some(*dt),
            _ => None,
        }
    }

    pub fn duration_ns(&self) -> (r: Option<u64>)
        ensures
            r == self.duration_spec(),
    {
        match self {
            ChannelTraceItemInner::CaProto(x) => match x {
                CaProto::Created(c) => Some(c.latency),
                CaProto::ReadNotifyRes(c) => Some(c.latency),
                _ => None,
            },
            ChannelTraceItemInner::TcpConnected(dt) => Some(*dt),
            _ => None,
        }
    }

    /// The one-line text of the event, with `ms` the printed milliseconds of
    /// its duration.
    pub open spec fn oneline_spec(&self, ms: Seq<char>) -> Seq<char> {
        match self {
            ChannelTraceItemInner::Error(e) => "error: "@ + e.text_spec(),
            ChannelTraceItemInner::CaProto(x) => x.oneline_spec(ms),
            ChannelTraceItemInner::TcpConnectAttempt => "tcp connect"@,
            ChannelTraceItemInner::TcpConnected(_) => "tcp connected "@ + ms + " ms"@,
            ChannelTraceItemInner::TcpConnectError(e) => "tcp connect error "@ + e@,
            ChannelTraceItemInner::ConnectionError(e) => "connection error "@ + e@,
            ChannelTraceItemInner::EndOfStream => "end of stream"@,
        }
    }

    pub fn oneline(&self, ms: &str) -> (r: String)
        ensures
            r@ == self.oneline_spec(ms@),
    {
        match self {
            ChannelTraceItemInner::Error(e) => {
                let t = e.to_text();
                concat2("error: ", t.as_str())
            },
            ChannelTraceItemInner::CaProto(x) => x.oneline(ms),
            ChannelTraceItemInner::TcpConnectAttempt => String::from_str("tcp connect"),
            ChannelTraceItemInner::TcpConnected(_) => concat3("tcp connected ", ms, " ms"),
            ChannelTraceItemInner::TcpConnectError(e) => concat2("tcp connect error ", e.as_str()),
            ChannelTraceItemInner::ConnectionError(e) => concat2("connection error ", e.as_str()),
            ChannelTraceItemInner::EndOfStream => String::from_str("end of stream"),
        }
    }
}

impl ChannelTraceItem {
    /// The shown one-line text of the item, cut to its limit, with `ms` the
    /// printed milliseconds of its duration.
    pub fn oneline(&self, ms: &str) -> (r: String)
        ensures
            r@ == fit_oneline_spec(self.inner.oneline_spec(ms@)),
    {
        fit_oneline(self.inner.oneline(ms))
    }
}

impl ConnectionTraceL1Item {
    /// The shown one-line text of the item, cut to its limit, with `ms` the
    /// printed milliseconds of its duration.
    pub fn oneline(&self, ms: &str) -> (r: String)
        ensures
            r@ == fit_oneline_spec(self.inner.oneline_spec(ms@)),
    {
        fit_oneline(self.inner.oneline(ms))
    }
}

fn concat2(a: &str, b: &str) -> (r: String)
    ensures
        r@ == a@ + b@,
{
    let mut r = String::from_str(a);
    r.append(b);
    r
}

fn concat3(a: &str, b: &str, c: &str) -> (r: String)
    ensures
        r@ == a@ + b@ + c@,
{
    let mut r = String::from_str(a);
    r.append(b);
    r.append(c);
    r
}

/// The one-line text of a trace item as shown: a text of more than fifty
/// characters is cut to its first forty-nine and an ellipsis.
pub open spec fn fit_oneline_spec(s: Seq<char>) -> Seq<char> {
    if s.len() > ONELINE_MAX {
        s.subrange(0, ONELINE_MAX - 1) + seq!['\u{2026}']
    } else {
        s
    }
}

pub fn fit_oneline(s: String) -> (r: String)
    ensures
        r@ == fit_oneline_spec(s@),
{
    if s.as_str().unicode_len() > ONELINE_MAX {
        let head = s.as_str().substring_char(0, ONELINE_MAX - 1);
        let mut r = String::from_str(head);
        proof {
            reveal_strlit("\u{2026}");
        }
        r.append("\u{2026}");
        r
    } else {
        s
    }
}

/// The queue after a push: the item is added at the end and, where that
/// makes it longer than its capacity, its oldest items up to the cut leave.
pub open spec fn push_capped<T>(q: Seq<T>, item: T) -> Seq<T> {
    let q2 = q.push(item);
    if q2.len() > TRACE_CAP {
        q2.subrange(TRACE_KEEP_FROM as int, q2.len() as int)
    } else {
        q2
    }
}

/// A bounded queue of trace items, newest last.
#[derive(Debug)]
pub struct TraceQueue<T> {
    items: VecDeque<T>,
}

impl<T> TraceQueue<T> {
    pub closed spec fn items_spec(&self) -> Seq<T> {
        self.items@
    }

    pub fn new() -> (r: Self)
        ensures
            r.items_spec().len() == 0,
    {
        TraceQueue { items: VecDeque::new() }
    }

    pub fn len(&self) -> (r: usize)
        ensures
            r == self.items_spec().len(),
    {
        self.items.len()
    }

    pub fn get(&self, i: usize) -> (r: &T)
        requires
            i < self.items_spec().len(),
        ensures
            *r == self.items_spec()[i as int],
    {
        &self.items[i]
    }

    /// Adds an item, dropping the oldest ones where the queue overflows.
    pub fn push(&mut self, item: T)
        requires
            old(self).items_spec().len() <= TRACE_CAP,
        ensures
            final(self).items_spec() == push_capped(old(self).items_spec(), item),
            final(self).items_spec().len() <= TRACE_CAP,
    {
        self.items.push_back(item);
        if self.items.len() > TRACE_CAP {
            let rest = self.items.split_off(TRACE_KEEP_FROM);
            self.items = rest;
        }
    }
}

/// A full queue keeps its newest items: after a push it still ends with the
/// pushed item, never holds more than its capacity, and what remains of the
/// earlier items is a suffix of them in order.
pub proof fn lemma_push_capped<T>(q: Seq<T>, item: T)
    requires
        q.len() <= TRACE_CAP,
    ensures
        push_capped(q, item).len() <= TRACE_CAP,
        push_capped(q, item).last() == item,
        push_capped(q, item).drop_last() == q.subrange(
            q.len() - (push_capped(q, item).len() - 1),
            q.len() as int,
        ),
{
    let r = push_capped(q, item);
    if q.len() + 1 > TRACE_CAP {
        assert(r.drop_last() =~= q.subrange(q.len() - (r.len() - 1), q.len() as int));
    } else {
        assert(r.drop_last() =~= q);
        assert(q.subrange(0, q.len() as int) =~= q);
    }
}

/// The trace of each channel and of each connection, by channel name and by
/// connection address, each bounded as a trace queue.
pub struct ChannelTraceStash {
    by_chname: Vec<(String, TraceQueue<ChannelTraceL2Item>)>,
    by_connaddr: Vec<(AddrV4, TraceQueue<ConnectionTraceL1Item>)>,
}

/// Whether the keys of a list of named traces are distinct.
pub open spec fn names_unique(s: Seq<(String, TraceQueue<ChannelTraceL2Item>)>) -> bool {
    forall|i: int, j: int| 0 <= i < j < s.len() ==> (#[trigger] s[i]).0@ != (#[trigger] s[j]).0@
}

pub open spec fn addrs_unique(s: Seq<(AddrV4, TraceQueue<ConnectionTraceL1Item>)>) -> bool {
    forall|i: int, j: int| 0 <= i < j < s.len() ==> (#[trigger] s[i]).0 != (#[trigger] s[j]).0
}

/// The trace of a channel: empty where the channel has none.
pub open spec fn channel_items(s: Seq<(String, TraceQueue<ChannelTraceL2Item>)>, name: Seq<char>) -> Seq<
    ChannelTraceL2Item,
> {
    if exists|i: int| 0 <= i < s.len() && (#[trigger] s[i]).0@ == name {
        s[choose|i: int| 0 <= i < s.len() && (#[trigger] s[i]).0@ == name].1.items_spec()
    } else {
        Seq::empty()
    }
}

/// The trace of a connection: empty where the connection has none.
pub open spec fn connection_items(s: Seq<(AddrV4, TraceQueue<ConnectionTraceL1Item>)>, addr: AddrV4) -> Seq<
    ConnectionTraceL1Item,
> {
    if exists|i: int| 0 <= i < s.len() && (#[trigger] s[i]).0 == addr {
        s[choose|i: int| 0 <= i < s.len() && (#[trigger] s[i]).0 == addr].1.items_spec()
    } else {
        Seq::empty()
    }
}

proof fn lemma_channel_items_at(s: Seq<(String, TraceQueue<ChannelTraceL2Item>)>, i: int)
    requires
        names_unique(s),
        0 <= i < s.len(),
    ensures
        channel_items(s, s[i].0@) == s[i].1.items_spec(),
{
    let name = s[i].0@;
    let j = choose|j: int| 0 <= j < s.len() && (#[trigger] s[j]).0@ == name;
    if j != i {
        if j < i {
            assert(s[j].0@ != s[i].0@);
        } else {
            assert(s[i].0@ != s[j].0@);
        }
    }
}

proof fn lemma_connection_items_at(s: Seq<(AddrV4, TraceQueue<ConnectionTraceL1Item>)>, i: int)
    requires
        addrs_unique(s),
        0 <= i < s.len(),
    ensures
        connection_items(s, s[i].0) == s[i].1.items_spec(),
{
    let a = s[i].0;
    let j = choose|j: int| 0 <= j < s.len() && (#[trigger] s[j]).0 == a;
    if j != i {
        if j < i {
            assert(s[j].0 != s[i].0);
        } else {
            assert(s[i].0 != s[j].0);
        }
    }
}

impl ChannelTraceStash {
    pub closed spec fn chnames(&self) -> Seq<(String, TraceQueue<ChannelTraceL2Item>)> {
        self.by_chname@
    }

    pub closed spec fn conns(&self) -> Seq<(AddrV4, TraceQueue<ConnectionTraceL1Item>)> {
        self.by_connaddr@
    }

    /// The trace of a channel.
    pub open spec fn channel_trace(&self, name: Seq<char>) -> Seq<ChannelTraceL2Item> {
        channel_items(self.chnames(), name)
    }

    /// The trace of a connection.
    pub open spec fn connection_trace(&self, addr: AddrV4) -> Seq<ConnectionTraceL1Item> {
        connection_items(self.conns(), addr)
    }

    pub open spec fn wf(&self) -> bool {
        &&& names_unique(self.chnames())
        &&& addrs_unique(self.conns())
        &&& forall|i: int| 0 <= i < self.chnames().len() ==> (#[trigger] self.chnames()[i]).1.items_spec().len() <= TRACE_CAP
        &&& forall|i: int| 0 <= i < self.conns().len() ==> (#[trigger] self.conns()[i]).1.items_spec().len() <= TRACE_CAP
    }

    pub fn new() -> (r: Self)
        ensures
            r.wf(),
            forall|n: Seq<char>| r.channel_trace(n).len() == 0,
            forall|a: AddrV4| r.connection_trace(a).len() == 0,
    {
        ChannelTraceStash { by_chname: Vec::new(), by_connaddr: Vec::new() }
    }

    /// Records a channel event under the name of its channel; the traces of
    /// the other channels stay as they are.
    pub fn push(&mut self, item: ChannelTraceL2Item)
        requires
            old(self).wf(),
        ensures
            final(self).wf(),
            final(self).channel_trace(item.inner.chname@) == push_capped(
                old(self).channel_trace(item.inner.chname@),
                item,
            ),
            forall|n: Seq<char>|
                n != item.inner.chname@ ==> final(self).channel_trace(n) == old(self).channel_trace(n),
            forall|a: AddrV4| final(self).connection_trace(a) == old(self).connection_trace(a),
    {
        let ghost key = item.inner.chname@;
        let ghost old_s = self.by_chname@;
        let n = self.by_chname.len();
        let mut i: usize = 0;
        while i < n && !crate::strorder::str_eq(self.by_chname[i].0.as_str(), item.inner.chname.as_str())
            invariant
                0 <= i <= n,
                n == self.by_chname@.len(),
                forall|j: int| 0 <= j < i ==> (#[trigger] self.by_chname@[j]).0@ != item.inner.chname@,
            decreases n - i,
        {
            i = i + 1;
        }
        if i < n {
            proof {
                lemma_channel_items_at(old_s, i as int);
            }
            let (k, mut q) = self.by_chname.remove(i);
            q.push(item);
            self.by_chname.insert(i, (k, q));
            proof {
                let s = self.by_chname@;
                assert(s =~= old_s.update(i as int, s[i as int]));
                assert(names_unique(s)) by {
                    assert forall|a: int, b: int| 0 <= a < b < s.len() implies (#[trigger] s[a]).0@ != (#[trigger] s[b]).0@ by {
                        assert(s[a].0 == old_s[a].0);
                        assert(s[b].0 == old_s[b].0);
                    }
                }
                lemma_channel_items_at(s, i as int);
                assert forall|nm: Seq<char>| nm != key implies channel_items(s, nm) == channel_items(old_s, nm) by {
                    if exists|j: int| 0 <= j < old_s.len() && (#[trigger] old_s[j]).0@ == nm {
                        let j = choose|j: int| 0 <= j < old_s.len() && (#[trigger] old_s[j]).0@ == nm;
                        lemma_channel_items_at(old_s, j);
                        assert(s[j] == old_s[j]);
                        lemma_channel_items_at(s, j);
                    } else {
                        assert forall|j: int| 0 <= j < s.len() implies (#[trigger] s[j]).0@ != nm by {
                            assert(s[j].0 == old_s[j].0);
                        }
                    }
                }
                assert forall|a: int| 0 <= a < s.len() implies (#[trigger] s[a]).1.items_spec().len() <= TRACE_CAP by {
                    if a != i {
                        assert(s[a] == old_s[a]);
                    }
                }
            }
        } else {
            let mut q = TraceQueue::new();
            let k = item.inner.chname.clone();
            q.push(item);
            self.by_chname.push((k, q));
            proof {
                let s = self.by_chname@;
                assert(s.drop_last() =~= old_s);
                assert(names_unique(s)) by {
                    assert forall|a: int, b: int| 0 <= a < b < s.len() implies (#[trigger] s[a]).0@ != (#[trigger] s[b]).0@ by {
                        assert(s[a] == old_s[a]);
                        if b < n {
                            assert(s[b] == old_s[b]);
                        }
                    }
                }
                lemma_channel_items_at(s, n as int);
                assert(channel_items(old_s, key) =~= Seq::<ChannelTraceL2Item>::empty());
                assert(push_capped(Seq::<ChannelTraceL2Item>::empty(), s[n as int].1.items_spec().last()) == s[n as int].1.items_spec());
                assert forall|nm: Seq<char>| nm != key implies channel_items(s, nm) == channel_items(old_s, nm) by {
                    if exists|j: int| 0 <= j < old_s.len() && (#[trigger] old_s[j]).0@ == nm {
                        let j = choose|j: int| 0 <= j < old_s.len() && (#[trigger] old_s[j]).0@ == nm;
                        lemma_channel_items_at(old_s, j);
                        assert(s[j] == old_s[j]);
                        lemma_channel_items_at(s, j);
                    } else {
                        assert forall|j: int| 0 <= j < s.len() implies (#[trigger] s[j]).0@ != nm by {
                            if j < n {
                                assert(s[j] == old_s[j]);
                            }
                        }
                    }
                }
                assert forall|a: int| 0 <= a < s.len() implies (#[trigger] s[a]).1.items_spec().len() <= TRACE_CAP by {
                    if a < n {
                        assert(s[a] == old_s[a]);
                    }
                }
            }
        }
    }

    /// Records a connection event under its connection; the traces of the
    /// other connections stay as they are.
    pub fn push_connection_trace(&mut self, item: ConnectionTraceL1Item)
        requires
            old(self).wf(),
        ensures
            final(self).wf(),
            final(self).connection_trace(item.addr) == push_capped(old(self).connection_trace(item.addr), item),
            forall|a: AddrV4| a != item.addr ==> final(self).connection_trace(a) == old(self).connection_trace(a),
            forall|n: Seq<char>| final(self).channel_trace(n) == old(self).channel_trace(n),
    {
        let key = item.addr;
        let ghost old_s = self.by_connaddr@;
        let n = self.by_connaddr.len();
        let mut i: usize = 0;
        while i < n && !(self.by_connaddr[i].0.ip == key.ip && self.by_connaddr[i].0.port == key.port)
            invariant
                0 <= i <= n,
                n == self.by_connaddr@.len(),
                forall|j: int| 0 <= j < i ==> (#[trigger] self.by_connaddr@[j]).0 != key,
            decreases n - i,
        {
            i = i + 1;
        }
        if i < n {
            proof {
                assert(old_s[i as int].0 == key);
                lemma_connection_items_at(old_s, i as int);
            }
            let (k, mut q) = self.by_connaddr.remove(i);
            q.push(item);
            self.by_connaddr.insert(i, (k, q));
            proof {
                let s = self.by_connaddr@;
                assert(s =~= old_s.update(i as int, s[i as int]));
                assert(addrs_unique(s)) by {
                    assert forall|a: int, b: int| 0 <= a < b < s.len() implies (#[trigger] s[a]).0 != (#[trigger] s[b]).0 by {
                        assert(s[a].0 == old_s[a].0);
                        assert(s[b].0 == old_s[b].0);
                    }
                }
                lemma_connection_items_at(s, i as int);
                assert forall|ad: AddrV4| ad != key implies connection_items(s, ad) == connection_items(old_s, ad) by {
                    if exists|j: int| 0 <= j < old_s.len() && (#[trigger] old_s[j]).0 == ad {
                        let j = choose|j: int| 0 <= j < old_s.len() && (#[trigger] old_s[j]).0 == ad;
                        lemma_connection_items_at(old_s, j);
                        assert(s[j] == old_s[j]);
                        lemma_connection_items_at(s, j);
                    } else {
                        assert forall|j: int| 0 <= j < s.len() implies (#[trigger] s[j]).0 != ad by {
                            assert(s[j].0 == old_s[j].0);
                        }
                    }
                }
                assert forall|a: int| 0 <= a < s.len() implies (#[trigger] s[a]).1.items_spec().len() <= TRACE_CAP by {
                    if a != i {
                        assert(s[a] == old_s[a]);
                    }
                }
            }
        } else {
            let mut q = TraceQueue::new();
            q.push(item);
            self.by_connaddr.push((key, q));
            proof {
                let s = self.by_connaddr@;
                assert(s.drop_last() =~= old_s);
                assert(addrs_unique(s)) by {
                    assert forall|a: int, b: int| 0 <= a < b < s.len() implies (#[trigger] s[a]).0 != (#[trigger] s[b]).0 by {
                        assert(s[a] == old_s[a]);
                        if b < n {
                            assert(s[b] == old_s[b]);
                        }
                    }
                }
                lemma_connection_items_at(s, n as int);
                assert(connection_items(old_s, key) =~= Seq::<ConnectionTraceL1Item>::empty());
                assert forall|ad: AddrV4| ad != key implies connection_items(s, ad) == connection_items(old_s, ad) by {
                    if exists|j: int| 0 <= j < old_s.len() && (#[trigger] old_s[j]).0 == ad {
                        let j = choose|j: int| 0 <= j < old_s.len() && (#[trigger] old_s[j]).0 == ad;
                        lemma_connection_items_at(old_s, j);
                        assert(s[j] == old_s[j]);
                        lemma_connection_items_at(s, j);
                    } else {
                        assert forall|j: int| 0 <= j < s.len() implies (#[trigger] s[j]).0 != ad by {
                            if j < n {
                                assert(s[j] == old_s[j]);
                            }
                        }
                    }
                }
                assert forall|a: int| 0 <= a < s.len() implies (#[trigger] s[a]).1.items_spec().len() <= TRACE_CAP by {
                    if a < n {
                        assert(s[a] == old_s[a]);
                    }
                }
            }
        }
    }

    /// The trace of a channel, where it has one.
    pub fn get_for_channel(&self, name: &str) -> (r: Option<&TraceQueue<ChannelTraceL2Item>>)
        requires
            self.wf(),
        ensures
            match r {
                Some(q) => q.items_spec() == self.channel_trace(name@),
                None => self.channel_trace(name@).len() == 0,
            },
    {
        let n = self.by_chname.len();
        let mut i: usize = 0;
        while i < n
            invariant
                0 <= i <= n,
                n == self.by_chname@.len(),
                self.wf(),
                forall|j: int| 0 <= j < i ==> (#[trigger] self.by_chname@[j]).0@ != name@,
            decreases n - i,
        {
            if crate::strorder::str_eq(self.by_chname[i].0.as_str(), name) {
                proof {
                    lemma_channel_items_at(self.by_chname@, i as int);
                }
                return Some(&self.by_chname[i].1);
            }
            i = i + 1;
        }
        None
    }

    /// The trace of a connection, where it has one.
    pub fn get_for_connection(&self, addr: AddrV4) -> (r: Option<&TraceQueue<ConnectionTraceL1Item>>)
        requires
            self.wf(),
        ensures
            match r {
                Some(q) => q.items_spec() == self.connection_trace(addr),
                None => self.connection_trace(addr).len() == 0,
            },
    {
        let n = self.by_connaddr.len();
        let mut i: usize = 0;
        while i < n
            invariant
                0 <= i <= n,
                n == self.by_connaddr@.len(),
                self.wf(),
                forall|j: int| 0 <= j < i ==> (#[trigger] self.by_connaddr@[j]).0 != addr,
            decreases n - i,
        {
            if self.by_connaddr[i].0.ip == addr.ip && self.by_connaddr[i].0.port == addr.port {
                proof {
                    assert(self.by_connaddr@[i as int].0 == addr);
                    lemma_connection_items_at(self.by_connaddr@, i as int);
                }
                return Some(&self.by_connaddr[i].1);
            }
            i = i + 1;
        }
        None
    }
}

} // verus!
