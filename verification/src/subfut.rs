use vstd::prelude::*;
use crate::channelhandler::CaMsgTy;
use crate::channelhandler::ProtoRxItem;
use crate::channeltrace::{CaProto, ChannelTraceItem, ChannelTraceItemInner, ReadNotifyRes};

verus! {

/// How long a one-time read waits for its answer after the request went
/// out, in nanoseconds.
pub const READ_NOTIFY_ADHOC_TIMEOUT_NS: u64 = 4_000_000_000;

/// How many received messages wait at most for a one-time read.
pub const ADHOC_INP_BUF_CAP: usize = 8;

/// What a sub-task of a running channel hands out.
#[derive(Debug, Clone, PartialEq, Eq)]
pub enum CaSubFutItem {
    Error,
    ChannelTrace(ChannelTraceItem),
    CaMsgOut(CaMsgTy),
}

/// The outcome of one poll of a one-time read.
#[derive(Debug, Clone, PartialEq, Eq)]
pub enum AdhocPoll {
    Item(CaSubFutItem),
    Pending,
    Finished,
}

/// Whether a received message answers a one-time read.
pub open spec fn is_answer(item: ProtoRxItem) -> bool {
    item.msg is ReadNotifyRes
}

/// The position of the first answer in `s`, or its length if there is none.
pub open spec fn first_answer(s: Seq<ProtoRxItem>) -> int
    decreases s.len(),
{
    if s.len() == 0 {
        0
    } else if is_answer(s[0]) {
        0
    } else {
        1 + first_answer(s.drop_first())
    }
}

fn answers(item: &ProtoRxItem) -> (r: bool)
    ensures
        r == is_answer(*item),
{
    match &item.msg {
        CaMsgTy::ReadNotifyRes { .. } => true,
        _ => false,
    }
}

pub proof fn lemma_first_answer(s: Seq<ProtoRxItem>)
    ensures
        0 <= first_answer(s) <= s.len(),
        first_answer(s) < s.len() ==> is_answer(s[first_answer(s)]),
        forall|j: int| 0 <= j < first_answer(s) ==> !is_answer(#[trigger] s[j]),
    decreases s.len(),
{
    if s.len() > 0 && !is_answer(s[0]) {
        let t = s.drop_first();
        lemma_first_answer(t);
        assert forall|j: int| 0 <= j < first_answer(s) implies !is_answer(#[trigger] s[j]) by {
            if j > 0 {
                assert(s[j] == t[j - 1]);
            }
        }
    }
}

pub proof fn lemma_first_answer_unique(s: Seq<ProtoRxItem>, k: int)
    requires
        0 <= k <= s.len(),
        k < s.len() ==> is_answer(s[k]),
        forall|j: int| 0 <= j < k ==> !is_answer(#[trigger] s[j]),
    ensures
        first_answer(s) == k,
    decreases s.len(),
{
    if s.len() > 0 && k > 0 {
        let t = s.drop_first();
        assert(!is_answer(s[0]));
        assert forall|j: int| 0 <= j < k - 1 implies !is_answer(#[trigger] t[j]) by {
            assert(t[j] == s[j + 1]);
        }
        lemma_first_answer_unique(t, k - 1);
    }
}

/// A one-time read of a channel: it sends its request, then waits for the
/// answer with its request id until the timeout.
#[derive(Debug)]
pub struct ReadNotifyAdhoc {
    sid: u32,
    data_type: u16,
    count: u32,
    ioid: u32,
    sent: Option<u64>,
    inp_buf: Vec<ProtoRxItem>,
    inp_done: bool,
    done: bool,
    answer: Option<CaMsgTy>,
}

impl ReadNotifyAdhoc {
    pub closed spec fn sid_spec(&self) -> u32 {
        self.sid
    }

    pub closed spec fn data_type_spec(&self) -> u16 {
        self.data_type
    }

    pub closed spec fn count_spec(&self) -> u32 {
        self.count
    }

    pub closed spec fn ioid_spec(&self) -> u32 {
        self.ioid
    }

    /// When the request went out, in nanoseconds, once it did.
    pub closed spec fn sent_spec(&self) -> Option<u64> {
        self.sent
    }

    pub closed spec fn inp_seq(&self) -> Seq<ProtoRxItem> {
        self.inp_buf@
    }

    pub closed spec fn inp_done_spec(&self) -> bool {
        self.inp_done
    }

    pub closed spec fn done_spec(&self) -> bool {
        self.done
    }

    /// The answer that waits to be handed to whoever asked for the read.
    pub closed spec fn answer_spec(&self) -> Option<CaMsgTy> {
        self.answer
    }

    pub open spec fn wf(&self) -> bool {
        self.inp_seq().len() <= ADHOC_INP_BUF_CAP
    }

    /// A read of `count` elements of type `data_type` from the channel with
    /// server id `sid`, under the request id `ioid`.
    pub fn new(sid: u32, data_type: u16, count: u32, ioid: u32) -> (r: Self)
        ensures
            r.wf(),
            r.sid_spec() == sid,
            r.data_type_spec() == data_type,
            r.count_spec() == count,
            r.ioid_spec() == ioid,
            r.sent_spec() is None,
            r.inp_seq().len() == 0,
            !r.inp_done_spec(),
            !r.done_spec(),
            r.answer_spec() is None,
    {
        ReadNotifyAdhoc {
            sid,
            data_type,
            count,
            ioid,
            sent: None,
            inp_buf: Vec::new(),
            inp_done: false,
            done: false,
            answer: None,
        }
    }

    /// The request id whose answer the read waits for.
    pub fn awaits_ioid(&self) -> (r: Option<u32>)
        ensures
            r == Some(self.ioid_spec()),
    {
        Some(self.ioid)
    }

    /// Takes a received message where the buffer has room, else hands it
    /// back.
    pub fn inp_push_try(&mut self, item: ProtoRxItem) -> (r: Option<ProtoRxItem>)
        requires
            old(self).wf(),
        ensures
            final(self).wf(),
            old(self).inp_seq().len() < ADHOC_INP_BUF_CAP ==> r is None && final(self).inp_seq() == old(
                self,
            ).inp_seq().push(item),
            old(self).inp_seq().len() >= ADHOC_INP_BUF_CAP ==> r == Some(item) && final(self).inp_seq() == old(
                self,
            ).inp_seq(),
            final(self).sent_spec() == old(self).sent_spec(),
            final(self).inp_done_spec() == old(self).inp_done_spec(),
            final(self).done_spec() == old(self).done_spec(),
            final(self).answer_spec() == old(self).answer_spec(),
            final(self).sid_spec() == old(self).sid_spec(),
            final(self).ioid_spec() == old(self).ioid_spec(),
            final(self).data_type_spec() == old(self).data_type_spec(),
            final(self).count_spec() == old(self).count_spec(),
    {
        if self.inp_buf.len() < ADHOC_INP_BUF_CAP {
            self.inp_buf.push(item);
            None
        } else {
            Some(item)
        }
    }

    /// No more messages will come.
    pub fn inp_done(&mut self)
        requires
            old(self).wf(),
        ensures
            final(self).wf(),
            final(self).inp_done_spec(),
            final(self).inp_seq() == old(self).inp_seq(),
            final(self).sent_spec() == old(self).sent_spec(),
            final(self).done_spec() == old(self).done_spec(),
            final(self).answer_spec() == old(self).answer_spec(),
            final(self).sid_spec() == old(self).sid_spec(),
            final(self).ioid_spec() == old(self).ioid_spec(),
            final(self).data_type_spec() == old(self).data_type_spec(),
            final(self).count_spec() == old(self).count_spec(),
    {
        self.inp_done = true;
    }

    /// Hands out the answer for whoever asked for the read, once.
    pub fn take_answer(&mut self) -> (r: Option<CaMsgTy>)
        requires
            old(self).wf(),
        ensures
            final(self).wf(),
            r == old(self).answer_spec(),
            final(self).answer_spec() is None,
            final(self).inp_seq() == old(self).inp_seq(),
            final(self).sent_spec() == old(self).sent_spec(),
            final(self).inp_done_spec() == old(self).inp_done_spec(),
            final(self).done_spec() == old(self).done_spec(),
            final(self).sid_spec() == old(self).sid_spec(),
            final(self).ioid_spec() == old(self).ioid_spec(),
            final(self).data_type_spec() == old(self).data_type_spec(),
            final(self).count_spec() == old(self).count_spec(),
    {
        let mut r: Option<CaMsgTy> = None;
        std::mem::swap(&mut r, &mut self.answer);
        r
    }

    /// One poll at `now_ns`. The first poll sends the request. After it,
    /// messages that are no answer are skipped; the first answer finishes the
    /// read, is kept for whoever asked, and is traced with its latency. With
    /// no answer, the read finishes when no more input comes, or, traced as a
    /// timeout, once the timeout is past; else it waits.
    pub fn poll_next(&mut self, now_ns: u64) -> (r: AdhocPoll)
        requires
            old(self).wf(),
        ensures
            final(self).wf(),
            final(self).sid_spec() == old(self).sid_spec(),
            final(self).ioid_spec() == old(self).ioid_spec(),
            final(self).data_type_spec() == old(self).data_type_spec(),
            final(self).count_spec() == old(self).count_spec(),
            final(self).inp_done_spec() == old(self).inp_done_spec(),
            old(self).done_spec() ==> r == AdhocPoll::Finished && *final(self) == *old(self),
            !old(self).done_spec() && old(self).sent_spec() is None ==> {
                &&& r == AdhocPoll::Item(
                    CaSubFutItem::CaMsgOut(
                        CaMsgTy::ReadNotify {
                            data_type: old(self).data_type_spec(),
                            count: old(self).count_spec(),
                            sid: old(self).sid_spec(),
                            ioid: old(self).ioid_spec(),
                        },
                    ),
                )
                &&& final(self).sent_spec() == Some(now_ns)
                &&& final(self).inp_seq() == old(self).inp_seq()
                &&& !final(self).done_spec()
                &&& final(self).answer_spec() == old(self).answer_spec()
            },
            !old(self).done_spec() && old(self).sent_spec() is Some ==> {
                let t = old(self).sent_spec()->0;
                let s = old(self).inp_seq();
                let k = first_answer(s);
                &&& final(self).sent_spec() == old(self).sent_spec()
                &&& if k < s.len() {
                    &&& r == AdhocPoll::Item(
                        CaSubFutItem::ChannelTrace(
                            ChannelTraceItem {
                                ts: now_ns / 1_000_000,
                                inner: ChannelTraceItemInner::CaProto(
                                    CaProto::ReadNotifyRes(
                                        ReadNotifyRes { latency: if now_ns >= t { (now_ns - t) as u64 } else { 0 } },
                                    ),
                                ),
                            },
                        ),
                    )
                    &&& final(self).done_spec()
                    &&& final(self).answer_spec() == Some(s[k].msg)
                    &&& final(self).inp_seq() == s.skip(k + 1)
                } else {
                    &&& final(self).inp_seq().len() == 0
                    &&& final(self).answer_spec() == old(self).answer_spec()
                    &&& if old(self).inp_done_spec() {
                        r == AdhocPoll::Finished && !final(self).done_spec()
                    } else if t + READ_NOTIFY_ADHOC_TIMEOUT_NS < now_ns {
                        r == AdhocPoll::Item(
                            CaSubFutItem::ChannelTrace(
                                ChannelTraceItem {
                                    ts: now_ns / 1_000_000,
                                    inner: ChannelTraceItemInner::CaProto(CaProto::ReadNotifyTimeout),
                                },
                            ),
                        ) && final(self).done_spec()
                    } else {
                        r == AdhocPoll::Pending && !final(self).done_spec()
                    }
                }
            },
    {
        if self.done {
            return AdhocPoll::Finished;
        }
        match self.sent {
            None => {
                self.sent = Some(now_ns);
                AdhocPoll::Item(
                    CaSubFutItem::CaMsgOut(
                        CaMsgTy::ReadNotify { data_type: self.data_type, count: self.count, sid: self.sid, ioid: self.ioid },
                    ),
                )
            },
            Some(t) => {
                let ghost s = self.inp_buf@;
                let n = self.inp_buf.len();
                let mut k: usize = 0;
                while k < n && !answers(&self.inp_buf[k])
                    invariant
                        0 <= k <= n,
                        n == s.len(),
                        s == self.inp_buf@,
                        forall|j: int| 0 <= j < k ==> !is_answer(#[trigger] s[j]),
                    decreases n - k,
                {
                    k = k + 1;
                }
                proof {
                    lemma_first_answer_unique(s, k as int);
                }
                if k < n {
                    let mut skipped: usize = 0;
                    while skipped < k
                        invariant
                            skipped <= k < n,
                            n == s.len(),
                            self.inp_buf@ == s.skip(skipped as int),
                            self.sid == old(self).sid,
                            self.ioid == old(self).ioid,
                            self.data_type == old(self).data_type,
                            self.count == old(self).count,
                            self.inp_done == old(self).inp_done,
                            self.sent == old(self).sent,
                        decreases k - skipped,
                    {
                        self.inp_buf.remove(0);
                        skipped = skipped + 1;
                        proof {
                            assert(self.inp_buf@ =~= s.skip(skipped as int));
                        }
                    }
                    let item = self.inp_buf.remove(0);
                    proof {
                        assert(item == s[k as int]);
                        assert(self.inp_buf@ =~= s.skip(k + 1));
                    }
                    self.answer = Some(item.msg);
                    self.done = true;
                    let latency = if now_ns >= t {
                        now_ns - t
                    } else {
                        0
                    };
                    AdhocPoll::Item(
                        CaSubFutItem::ChannelTrace(
                            ChannelTraceItem::new(
                                ChannelTraceItemInner::CaProto(CaProto::ReadNotifyRes(ReadNotifyRes::new(latency))),
                                now_ns / 1_000_000,
                            ),
                        ),
                    )
                } else {
                    self.inp_buf.clear();
                    if self.inp_done {
                        AdhocPoll::Finished
                    } else if t < now_ns && now_ns - t > READ_NOTIFY_ADHOC_TIMEOUT_NS {
                        self.done = true;
                        AdhocPoll::Item(
                            CaSubFutItem::ChannelTrace(
                                ChannelTraceItem::new(
                                    ChannelTraceItemInner::CaProto(CaProto::ReadNotifyTimeout),
                                    now_ns / 1_000_000,
                                ),
                            ),
                        )
                    } else {
                        AdhocPoll::Pending
                    }
                }
            },
        }
    }
}

} // verus!
