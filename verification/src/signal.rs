use vstd::prelude::*;

verus! {

/// A signal which asks the process to terminate.
#[derive(Clone, Copy, Debug, PartialEq, Eq, Structural)]
pub enum SignalEvent {
    Int,
    Term,
}

impl SignalEvent {
    pub open spec fn name_spec(&self) -> Seq<char> {
        match self {
            SignalEvent::Int => "SIGINT"@,
            SignalEvent::Term => "SIGTERM"@,
        }
    }

    pub fn name(&self) -> (r: &'static str)
        ensures
            r@ == self.name_spec(),
    {
        match self {
            SignalEvent::Int => "SIGINT",
            SignalEvent::Term => "SIGTERM",
        }
    }

    /// The byte that stands for the signal on the self-pipe.
    pub fn pipe_byte(&self) -> (r: u8)
        ensures
            r == (if *self is Int { 0x69u8 } else { 0x74u8 }),
    {
        match self {
            SignalEvent::Int => 0x69,
            SignalEvent::Term => 0x74,
        }
    }

    /// The signal that a byte read from the self-pipe stands for; other bytes
    /// stand for none.
    pub fn from_pipe_byte(b: u8) -> (r: Option<SignalEvent>)
        ensures
            r == (if b == 0x69 {
                Some(SignalEvent::Int)
            } else if b == 0x74 {
                Some(SignalEvent::Term)
            } else {
                None
            }),
    {
        if b == 0x69 {
            Some(SignalEvent::Int)
        } else if b == 0x74 {
            Some(SignalEvent::Term)
        } else {
            None
        }
    }
}

/// How many signals of one kind are delivered before the process leaves
/// the hard way.
pub const SIGNAL_COUNT_HARD_EXIT: usize = 2;

/// The exit code when repeated signals did not get the process out.
pub const EXIT_CODE_HARD: i32 = 13;

/// The exit code when a signal comes and there is no pipe to deliver it to.
pub const EXIT_CODE_NO_PIPE: i32 = 83;

/// What the signal handler does with a signal.
#[derive(Clone, Copy, Debug, PartialEq, Eq, Structural)]
pub enum SignalAction {
    /// Write the signal's byte to the pipe.
    Deliver,
    /// Leave the process at once, with this exit code.
    Exit(i32),
}

/// The decision of the signal handler, from the number of signals of this
/// kind seen before and the write end of the pipe (negative where there is
/// none): the third signal of a kind leaves the hard way, and so does a
/// signal with nowhere to go.
pub fn note_signal(seen_before: usize, pipe_fd: i32) -> (r: SignalAction)
    ensures
        r == (if seen_before >= SIGNAL_COUNT_HARD_EXIT {
            SignalAction::Exit(EXIT_CODE_HARD)
        } else if pipe_fd < 0 {
            SignalAction::Exit(EXIT_CODE_NO_PIPE)
        } else {
            SignalAction::Deliver
        }),
{
    if seen_before >= SIGNAL_COUNT_HARD_EXIT {
        SignalAction::Exit(EXIT_CODE_HARD)
    } else if pipe_fd < 0 {
        SignalAction::Exit(EXIT_CODE_NO_PIPE)
    } else {
        SignalAction::Deliver
    }
}

/// The signals that a read from the self-pipe delivers, in order; unknown
/// bytes are skipped.
pub open spec fn pipe_events(bytes: Seq<u8>) -> Seq<SignalEvent>
    decreases bytes.len(),
{
    if bytes.len() == 0 {
        Seq::empty()
    } else {
        let rest = pipe_events(bytes.drop_last());
        if bytes.last() == 0x69 {
            rest.push(SignalEvent::Int)
        } else if bytes.last() == 0x74 {
            rest.push(SignalEvent::Term)
        } else {
            rest
        }
    }
}

pub fn decode_pipe_bytes(bytes: &[u8]) -> (r: Vec<SignalEvent>)
    ensures
        r@ == pipe_events(bytes@),
{
    let mut out: Vec<SignalEvent> = Vec::new();
    let mut i: usize = 0;
    while i < bytes.len()
        invariant
            0 <= i <= bytes@.len(),
            out@ == pipe_events(bytes@.subrange(0, i as int)),
        decreases bytes@.len() - i,
    {
        proof {
            assert(bytes@.subrange(0, i + 1).drop_last() =~= bytes@.subrange(0, i as int));
        }
        match SignalEvent::from_pipe_byte(bytes[i]) {
            Some(ev) => out.push(ev),
            None => {},
        }
        i = i + 1;
    }
    proof {
        assert(bytes@.subrange(0, i as int) =~= bytes@);
    }
    out
}

/// A signal's byte decodes back to the signal.
pub proof fn lemma_pipe_roundtrip(ev: SignalEvent)
    ensures
        pipe_events(seq![if ev is Int { 0x69u8 } else { 0x74u8 }]) == seq![ev],
{
    let s = seq![if ev is Int { 0x69u8 } else { 0x74u8 }];
    assert(s.drop_last() =~= Seq::<u8>::empty());
    assert(pipe_events(s.drop_last()) =~= Seq::<SignalEvent>::empty());
}

} // verus!
