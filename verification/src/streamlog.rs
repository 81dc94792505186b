use vstd::prelude::*;

verus! {

/// The level of a log message of a stream.
#[derive(Debug, Clone, Copy, PartialEq, Eq, Structural)]
pub enum Level {
    Error,
    Warn,
    Info,
    Debug,
    Trace,
}

/// A log message of a stream.
#[derive(Debug, Clone, PartialEq, Eq)]
pub struct LogItem {
    pub level: Level,
    pub msg: String,
}

/// The log messages that a stream collects for its reader; the newest is
/// handed out first.
#[derive(Debug)]
pub struct Streamlog {
    items: Vec<LogItem>,
    node_ix: u32,
}

impl Streamlog {
    /// The messages, oldest first.
    pub closed spec fn items_seq(&self) -> Seq<LogItem> {
        self.items@
    }

    pub closed spec fn node_ix_spec(&self) -> u32 {
        self.node_ix
    }

    pub fn new(node_ix: u32) -> (r: Self)
        ensures
            r.items_seq().len() == 0,
            r.node_ix_spec() == node_ix,
    {
        Streamlog { items: Vec::new(), node_ix }
    }

    pub fn append(&mut self, level: Level, msg: String)
        ensures
            final(self).items_seq() == old(self).items_seq().push(LogItem { level, msg }),
            final(self).node_ix_spec() == old(self).node_ix_spec(),
    {
        self.items.push(LogItem { level, msg });
    }

    /// Hands out the newest message.
    pub fn pop(&mut self) -> (r: Option<LogItem>)
        ensures
            old(self).items_seq().len() == 0 ==> r is None && final(self).items_seq() == old(self).items_seq(),
            old(self).items_seq().len() > 0 ==> r == Some(old(self).items_seq().last())
                && final(self).items_seq() == old(self).items_seq().drop_last(),
            final(self).node_ix_spec() == old(self).node_ix_spec(),
    {
        self.items.pop()
    }
}

/// What `pop` hands out is what the last `append` took in, and the log is
/// then as before that `append`.
pub proof fn lemma_pop_undoes_append(before: Seq<LogItem>, item: LogItem)
    ensures
        before.push(item).last() == item,
        before.push(item).drop_last() == before,
{
    assert(before.push(item).drop_last() =~= before);
}

} // verus!
