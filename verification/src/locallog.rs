use vstd::prelude::*;
use std::collections::VecDeque;

verus! {

/// The length at which a local log drops its oldest entries.
pub const LOCAL_LOG_TRUNCATE_AT: usize = 120;

/// How many of the oldest entries leave at once.
pub const LOCAL_LOG_DROP: usize = 20;

/// An entry of a local log: its number, its time in milliseconds since the
/// epoch, and its text.
pub type Entry = (u32, i64, String);

/// The entries after one more: where the log is at its limit, the oldest
/// entries leave first.
pub open spec fn push_spec(s: Seq<Entry>, e: Entry) -> Seq<Entry> {
    if s.len() >= LOCAL_LOG_TRUNCATE_AT {
        s.subrange(LOCAL_LOG_DROP as int, s.len() as int).push(e)
    } else {
        s.push(e)
    }
}

/// The number after `c`: the counter wraps around after its largest value.
pub open spec fn next_count(c: u32) -> u32 {
    if c == u32::MAX {
        0
    } else {
        (c + 1) as u32
    }
}

/// The texts of the entries, in order.
pub open spec fn texts_of(s: Seq<Entry>) -> Seq<Seq<char>> {
    s.map_values(|e: Entry| e.2@)
}

/// The texts after one more entry of text `t`, dropping the oldest as
/// `push_spec` does.
pub open spec fn push_text(s: Seq<Seq<char>>, t: Seq<char>) -> Seq<Seq<char>> {
    if s.len() >= LOCAL_LOG_TRUNCATE_AT {
        s.subrange(LOCAL_LOG_DROP as int, s.len() as int).push(t)
    } else {
        s.push(t)
    }
}

/// Texts follow entries: the texts of a log after an entry are those before
/// with the entry's text added.
pub proof fn lemma_texts_push(s: Seq<Entry>, e: Entry)
    ensures
        texts_of(push_spec(s, e)) == push_text(texts_of(s), e.2@),
{
    if s.len() >= LOCAL_LOG_TRUNCATE_AT {
        assert(texts_of(push_spec(s, e)) =~= push_text(texts_of(s), e.2@));
    } else {
        assert(texts_of(push_spec(s, e)) =~= push_text(texts_of(s), e.2@));
    }
}

/// The RFC 3339 text that chrono writes for a time given in milliseconds
/// since the epoch; `None` where the time is beyond chrono's range.
pub uninterp spec fn rfc3339_of_ms(ms: i64) -> Option<Seq<char>>;

/// `chrono::DateTime::<Utc>::from_timestamp_millis`, written out by
/// `DateTime::to_rfc3339`. The contract claims that the text is the named
/// one for the time, and that there is none exactly where chrono finds the
/// time out of range.
#[verifier::external_body]
fn ms_rfc3339(ms: i64) -> (r: Option<String>)
    ensures
        match r {
            Some(t) => rfc3339_of_ms(ms) == Some(t@),
            None => rfc3339_of_ms(ms) is None,
        },
{
    match chrono::DateTime::<chrono::Utc>::from_timestamp_millis(ms) {
        Some(t) => Some(t.to_rfc3339()),
        None => None,
    }
}

/// The time text of a log entry: the RFC 3339 text, or nothing where the
/// time is out of range.
pub open spec fn stamp_text(ms: i64) -> Seq<char> {
    match rfc3339_of_ms(ms) {
        Some(t) => t,
        None => Seq::empty(),
    }
}

/// A small log of recent events of a state machine, handed on entry by
/// entry.
#[derive(Debug)]
pub struct LocalLog {
    enable: bool,
    cnt: u32,
    buf: VecDeque<Entry>,
}

impl LocalLog {
    pub closed spec fn entries(&self) -> Seq<Entry> {
        self.buf@
    }

    pub open spec fn texts(&self) -> Seq<Seq<char>> {
        texts_of(self.entries())
    }

    pub closed spec fn count(&self) -> u32 {
        self.cnt
    }

    pub closed spec fn enabled(&self) -> bool {
        self.enable
    }

    pub open spec fn wf(&self) -> bool {
        self.entries().len() <= LOCAL_LOG_TRUNCATE_AT
    }

    pub fn new() -> (r: Self)
        ensures
            r.wf(),
            r.entries().len() == 0,
            r.count() == 0,
            !r.enabled(),
    {
        LocalLog { enable: false, cnt: 0, buf: VecDeque::new() }
    }

    pub fn enable(&mut self)
        ensures
            final(self).enabled(),
            final(self).count() == old(self).count(),
            !old(self).enabled() ==> final(self).entries().len() == 0,
            old(self).enabled() ==> final(self).entries() == old(self).entries(),
    {
        if !self.enable {
            self.enable = true;
            self.buf = VecDeque::new();
        }
    }

    pub fn disable(&mut self)
        ensures
            !final(self).enabled(),
            final(self).count() == old(self).count(),
            old(self).enabled() ==> final(self).entries().len() == 0,
            !old(self).enabled() ==> final(self).entries() == old(self).entries(),
    {
        if self.enable {
            self.enable = false;
            self.buf = VecDeque::new();
        }
    }

    fn check_truncate(&mut self)
        requires
            old(self).wf(),
        ensures
            final(self).entries() == (if old(self).entries().len() >= LOCAL_LOG_TRUNCATE_AT {
                old(self).entries().subrange(LOCAL_LOG_DROP as int, old(self).entries().len() as int)
            } else {
                old(self).entries()
            }),
            final(self).entries().len() < LOCAL_LOG_TRUNCATE_AT,
            final(self).count() == old(self).count(),
            final(self).enabled() == old(self).enabled(),
    {
        if self.buf.len() >= LOCAL_LOG_TRUNCATE_AT {
            let rest = self.buf.split_off(LOCAL_LOG_DROP);
            self.buf = rest;
        }
    }

    /// Logs a text at `ts_ms` (milliseconds since the epoch), numbered by the
    /// log's counter. The counter wraps around after its largest value.
    pub fn push(&mut self, s: String, ts_ms: i64)
        requires
            old(self).wf(),
        ensures
            final(self).wf(),
            final(self).entries() == push_spec(old(self).entries(), (old(self).count(), ts_ms, s)),
            final(self).texts() == push_text(old(self).texts(), s@),
            final(self).count() == next_count(old(self).count()),
            final(self).enabled() == old(self).enabled(),
    {
        self.check_truncate();
        let ghost e0 = old(self).entries();
        let i = self.cnt;
        self.cnt = self.cnt.wrapping_add(1);
        let ghost e = (i, ts_ms, s);
        self.buf.push_back((i, ts_ms, s));
        proof {
            lemma_texts_push(e0, e);
        }
    }

    /// Takes over an entry of another log as it is.
    pub fn push_entry(&mut self, e: Entry)
        requires
            old(self).wf(),
        ensures
            final(self).wf(),
            final(self).entries() == push_spec(old(self).entries(), e),
            final(self).count() == old(self).count(),
            final(self).enabled() == old(self).enabled(),
    {
        self.check_truncate();
        self.buf.push_back(e);
    }

    /// The oldest entry, taken out.
    pub fn pop(&mut self) -> (r: Option<Entry>)
        requires
            old(self).wf(),
        ensures
            final(self).wf(),
            old(self).entries().len() > 0 ==> r == Some(old(self).entries()[0]) && final(self).entries()
                == old(self).entries().drop_first(),
            old(self).entries().len() == 0 ==> r is None && final(self).entries() == old(self).entries(),
            final(self).count() == old(self).count(),
            final(self).enabled() == old(self).enabled(),
    {
        self.buf.pop_front()
    }

    /// The entries, oldest first, with their times written as RFC 3339
    /// text.
    pub fn to_text_entries(&self) -> (r: Vec<(u32, String, String)>)
        ensures
            r@.len() == self.entries().len(),
            forall|i: int|
                0 <= i < r@.len() ==> (#[trigger] r@[i]).0 == self.entries()[i].0 && r@[i].1@ == stamp_text(
                    self.entries()[i].1,
                ) && r@[i].2@ == self.entries()[i].2@,
    {
        let mut v: Vec<(u32, String, String)> = Vec::new();
        let n = self.buf.len();
        let mut i: usize = 0;
        while i < n
            invariant
                0 <= i <= n,
                n == self.buf@.len(),
                v@.len() == i,
                forall|j: int|
                    0 <= j < i ==> (#[trigger] v@[j]).0 == self.buf@[j].0 && v@[j].1@ == stamp_text(self.buf@[j].1)
                        && v@[j].2@ == self.buf@[j].2@,
            decreases n - i,
        {
            let e = &self.buf[i];
            let t = match ms_rfc3339(e.1) {
                Some(t) => t,
                None => String::new(),
            };
            v.push((e.0, t, e.2.clone()));
            i = i + 1;
        }
        v
    }

    /// A copy of the entries, oldest first.
    pub fn to_vec_string(&self) -> (r: Vec<Entry>)
        ensures
            r@.len() == self.entries().len(),
            forall|i: int|
                0 <= i < r@.len() ==> (#[trigger] r@[i]).0 == self.entries()[i].0 && r@[i].1 == self.entries()[i].1
                    && r@[i].2@ == self.entries()[i].2@,
    {
        let mut v: Vec<Entry> = Vec::new();
        let n = self.buf.len();
        let mut i: usize = 0;
        while i < n
            invariant
                0 <= i <= n,
                n == self.buf@.len(),
                v@.len() == i,
                forall|j: int|
                    0 <= j < i ==> (#[trigger] v@[j]).0 == self.buf@[j].0 && v@[j].1 == self.buf@[j].1 && v@[j].2@
                        == self.buf@[j].2@,
            decreases n - i,
        {
            let e = &self.buf[i];
            v.push((e.0, e.1, e.2.clone()));
            i = i + 1;
        }
        v
    }
}

/// A local log stays bounded: an entry added to a log within its limit
/// leaves it within its limit, newest last.
pub proof fn lemma_local_log_bounded(s: Seq<Entry>, e: Entry)
    requires
        s.len() <= LOCAL_LOG_TRUNCATE_AT,
    ensures
        push_spec(s, e).len() <= LOCAL_LOG_TRUNCATE_AT,
        push_spec(s, e).last() == e,
{
}

} // verus!
