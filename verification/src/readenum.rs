use vstd::prelude::*;
use std::collections::VecDeque;
use crate::channelhandler::CaMsgTy;
use crate::channelhandler::ProtoRxItem;

verus! {

/// How many received messages wait at most while the enum strings are read.
pub const READ_ENUM_INP_BUF_CAP: usize = 64;

/// The channel-access type of the control record of an enum, which carries
/// the names of its variants.
pub const DBR_CTRL_ENUM: u16 = 31;

/// The states of the read of the enum strings.
#[derive(Debug, Clone, Copy, PartialEq, Eq, Structural)]
pub enum ReadEnumState {
    SendMsg,
    WaitMsg,
    Done,
}

/// What the read of the enum strings hands out.
#[derive(Debug, Clone, PartialEq, Eq)]
pub enum ReadEnumItem {
    /// The read request for the peer.
    CaMsgOutIoid(CaMsgTy),
    /// The names of the variants.
    EnumStringSet(Vec<String>),
}

/// The outcome of one round.
#[derive(Debug, Clone, PartialEq, Eq)]
pub enum ReadEnumRound {
    Item(ReadEnumItem),
    Progress,
    Pending,
    Finished,
}

/// The item that an answer gives while waiting: the variant names of a read
/// answer that carries them; `None` for anything else, which fails the read.
pub open spec fn answer_variants(msg: CaMsgTy) -> Option<Vec<String>> {
    match msg {
        CaMsgTy::ReadNotifyRes { variants, .. } => variants,
        _ => None,
    }
}

/// The read of the names of the variants of an enum channel.
#[derive(Debug)]
pub struct ReadEnum {
    state: ReadEnumState,
    sid: u32,
    removing: bool,
    inp_buf: VecDeque<ProtoRxItem>,
    inp_done: bool,
}

impl ReadEnum {
    pub closed spec fn state_spec(&self) -> ReadEnumState {
        self.state
    }

    pub closed spec fn sid_spec(&self) -> u32 {
        self.sid
    }

    pub closed spec fn inp_seq(&self) -> Seq<ProtoRxItem> {
        self.inp_buf@
    }

    pub closed spec fn inp_done_spec(&self) -> bool {
        self.inp_done
    }

    pub closed spec fn removing_spec(&self) -> bool {
        self.removing
    }

    pub open spec fn wf(&self) -> bool {
        self.inp_seq().len() <= READ_ENUM_INP_BUF_CAP
    }

    pub fn new(sid: u32) -> (r: Self)
        ensures
            r.wf(),
            r.state_spec() == ReadEnumState::SendMsg,
            r.sid_spec() == sid,
            r.inp_seq().len() == 0,
            !r.inp_done_spec(),
            !r.removing_spec(),
    {
        ReadEnum { state: ReadEnumState::SendMsg, sid, removing: false, inp_buf: VecDeque::new(), inp_done: false }
    }

    pub fn state(&self) -> (r: ReadEnumState)
        ensures
            r == self.state_spec(),
    {
        self.state
    }

    /// The channel is being removed.
    pub fn trigger_remove(&mut self)
        ensures
            final(self).removing_spec(),
            final(self).state_spec() == old(self).state_spec(),
            final(self).inp_seq() == old(self).inp_seq(),
            final(self).inp_done_spec() == old(self).inp_done_spec(),
            final(self).sid_spec() == old(self).sid_spec(),
    {
        self.removing = true;
    }

    pub fn inp_push_try(&mut self, item: ProtoRxItem) -> (r: Option<ProtoRxItem>)
        requires
            old(self).wf(),
        ensures
            final(self).wf(),
            old(self).inp_seq().len() < READ_ENUM_INP_BUF_CAP ==> r is None && final(self).inp_seq()
                == old(self).inp_seq().push(item),
            old(self).inp_seq().len() >= READ_ENUM_INP_BUF_CAP ==> r == Some(item) && final(self).inp_seq()
                == old(self).inp_seq(),
            final(self).state_spec() == old(self).state_spec(),
            final(self).inp_done_spec() == old(self).inp_done_spec(),
            final(self).sid_spec() == old(self).sid_spec(),
    {
        if self.inp_buf.len() < READ_ENUM_INP_BUF_CAP {
            self.inp_buf.push_back(item);
            None
        } else {
            Some(item)
        }
    }

    pub fn inp_done(&mut self)
        ensures
            final(self).inp_done_spec(),
            final(self).state_spec() == old(self).state_spec(),
            final(self).inp_seq() == old(self).inp_seq(),
            final(self).sid_spec() == old(self).sid_spec(),
    {
        self.inp_done = true;
    }

    /// One round: a received message is taken first (in the wait it decides
    /// the read; before the request it is ignored; the end of the input
    /// ends the read), then a fresh read sends its request.
    pub fn poll_round(&mut self) -> (r: ReadEnumRound)
        requires
            old(self).wf(),
        ensures
            final(self).wf(),
            final(self).sid_spec() == old(self).sid_spec(),
            ({
                let st = old(self).state_spec();
                let inp = old(self).inp_seq();
                let req = CaMsgTy::ReadNotify { data_type: DBR_CTRL_ENUM, count: 0, sid: old(self).sid_spec(), ioid: 0 };
                if st is Done {
                    &&& r == ReadEnumRound::Finished
                    &&& final(self).state_spec() == st
                    &&& final(self).inp_seq() == inp
                } else if inp.len() > 0 {
                    &&& final(self).inp_seq() == inp.drop_first()
                    &&& if st is WaitMsg {
                        match answer_variants(inp[0].msg) {
                            Some(v) => r == ReadEnumRound::Item(ReadEnumItem::EnumStringSet(v))
                                && final(self).state_spec() == st,
                            None => r == ReadEnumRound::Progress && final(self).state_spec() == ReadEnumState::Done,
                        }
                    } else {
                        r == ReadEnumRound::Item(ReadEnumItem::CaMsgOutIoid(req)) && final(self).state_spec()
                            == ReadEnumState::WaitMsg
                    }
                } else if old(self).inp_done_spec() {
                    &&& final(self).inp_seq() == inp
                    &&& final(self).state_spec() == ReadEnumState::Done
                    &&& r == ReadEnumRound::Progress
                } else {
                    &&& final(self).inp_seq() == inp
                    &&& if st is SendMsg {
                        r == ReadEnumRound::Item(ReadEnumItem::CaMsgOutIoid(req)) && final(self).state_spec()
                            == ReadEnumState::WaitMsg
                    } else {
                        r == ReadEnumRound::Pending && final(self).state_spec() == st
                    }
                }
            }),
    {
        if let ReadEnumState::Done = self.state {
            return ReadEnumRound::Finished;
        }
        match self.inp_buf.pop_front() {
            Some(item) => {
                if let ReadEnumState::WaitMsg = self.state {
                    match item.msg {
                        CaMsgTy::ReadNotifyRes { variants: Some(v), .. } => {
                            return ReadEnumRound::Item(ReadEnumItem::EnumStringSet(v));
                        },
                        _ => {
                            self.state = ReadEnumState::Done;
                            return ReadEnumRound::Progress;
                        },
                    }
                }
            },
            None => {
                if self.inp_done {
                    self.state = ReadEnumState::Done;
                    return ReadEnumRound::Progress;
                }
            },
        }
        if let ReadEnumState::SendMsg = self.state {
            self.state = ReadEnumState::WaitMsg;
            ReadEnumRound::Item(
                ReadEnumItem::CaMsgOutIoid(
                    CaMsgTy::ReadNotify { data_type: DBR_CTRL_ENUM, count: 0, sid: self.sid, ioid: 0 },
                ),
            )
        } else {
            ReadEnumRound::Pending
        }
    }
}

} // verus!
