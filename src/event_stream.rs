use crate::frame::{first_newline, lossy_utf8, no_newline, FrameDecoder};
use crate::grid::EventChunk;
use vstd::prelude::*;

verus! {

/// Why a session ended in failure.
pub enum Error {
    /// The private directory for the endpoint could not be made.
    TempDir(String),
    /// Binding, accepting or reading failed.
    Io(String),
    /// A record did not parse: the parser's description, then the record's text.
    Serialize(String, String),
}

/// What a session reports to its subscriber.
pub enum Progress {
    Initialized,
    Connected(String),
    Event(EventChunk),
    Error(Error),
    Idle,
}

/// What the surrounding runtime observed and hands to the session.
pub enum Input {
    /// The outcome of making the directory and binding the endpoint.
    Setup(Result<(), Error>),
    /// The outcome of waiting for the one client: its address, or why it failed.
    Accepted(Result<String, String>),
    /// Bytes read from the connection.
    Read(Vec<u8>),
    /// Reading from the connection failed.
    ReadFailed(String),
    /// The peer closed the connection. Records still buffered are handed out one per
    /// `Closed`, then the sequence ends.
    Closed,
    /// A record handed out by `Output::Decode` did not parse: the parser's description and the
    /// record's text.
    DecodeFailed(String, String),
}

/// What the session asks of the runtime after a step.
pub enum Output {
    /// Report this to the subscriber.
    Emit(Progress),
    /// Parse this record; report `Progress::Event` on success, feed `Input::DecodeFailed`
    /// back otherwise.
    Decode(String),
    /// The sequence is over.
    Finished,
}

pub enum Phase {
    Initializing,
    Listening,
    Running,
    Done,
}

enum State {
    Initializing,
    Listening,
    Running(FrameDecoder),
    Done,
}

/// The lifecycle of one ingestion session: set up, accept one client, decode until the end.
pub struct EventStream {
    state: State,
}

impl EventStream {
    pub closed spec fn phase(&self) -> Phase {
        match self.state {
            State::Initializing => Phase::Initializing,
            State::Listening => Phase::Listening,
            State::Running(_) => Phase::Running,
            State::Done => Phase::Done,
        }
    }

    /// The decoder of a running session.
    pub closed spec fn decoder(&self) -> FrameDecoder {
        match self.state {
            State::Running(d) => d,
            _ => arbitrary(),
        }
    }

    pub open spec fn wf(&self) -> bool {
        self.phase() is Running ==> self.decoder().wf()
    }

    pub fn new() -> (r: EventStream)
        ensures
            r.wf(),
            r.phase() is Initializing,
    {
        EventStream { state: State::Initializing }
    }

    /// Advances the session by one observation.
    pub fn step(&mut self, input: Input) -> (r: Output)
        requires
            old(self).wf(),
        ensures
            final(self).wf(),
            old(self).phase() is Done ==> r is Finished && final(self).phase() is Done,
            old(self).phase() is Initializing ==> match input {
                Input::Setup(Ok(())) => r == Output::Emit(Progress::Initialized)
                    && final(self).phase() is Listening,
                Input::Setup(Err(e)) => r == Output::Emit(Progress::Error(e))
                    && final(self).phase() is Done,
                _ => r == Output::Emit(Progress::Idle) && *final(self) == *old(self),
            },
            old(self).phase() is Listening ==> match input {
                Input::Accepted(Ok(peer)) => r == Output::Emit(Progress::Connected(peer))
                    && final(self).phase() is Running && final(self).decoder().received()
                    == Seq::<char>::empty() && final(self).decoder().buffered()
                    == Seq::<char>::empty(),
                Input::Accepted(Err(m)) => r == Output::Emit(Progress::Error(Error::Io(m)))
                    && final(self).phase() is Done,
                _ => r == Output::Emit(Progress::Idle) && *final(self) == *old(self),
            },
            old(self).phase() is Running ==> match input {
                Input::Read(bytes) => {
                    let buf = old(self).decoder().buffered() + lossy_utf8(bytes@);
                    &&& final(self).phase() is Running
                    &&& final(self).decoder().received() == old(self).decoder().received()
                        + lossy_utf8(bytes@)
                    &&& no_newline(buf) ==> r == Output::Emit(Progress::Idle)
                        && final(self).decoder().buffered() == buf
                    &&& !no_newline(buf) ==> exists|i: int|
                        first_newline(buf, i) && r is Decode && r->Decode_0@ == buf.take(i)
                            && final(self).decoder().buffered() == buf.skip(i + 1)
                },
                Input::ReadFailed(m) => r == Output::Emit(Progress::Error(Error::Io(m)))
                    && final(self).phase() is Done,
                Input::Closed => {
                    let buf = old(self).decoder().buffered();
                    &&& no_newline(buf) ==> r is Finished && final(self).phase() is Done
                    &&& !no_newline(buf) ==> final(self).phase() is Running
                        && final(self).decoder().received() == old(self).decoder().received()
                        && exists|i: int|
                        first_newline(buf, i) && r is Decode && r->Decode_0@ == buf.take(i)
                            && final(self).decoder().buffered() == buf.skip(i + 1)
                },
                Input::DecodeFailed(reason, text) => r == Output::Emit(
                    Progress::Error(Error::Serialize(reason, text)),
                ) && final(self).phase() is Done,
                _ => r == Output::Emit(Progress::Idle) && *final(self) == *old(self),
            },
    {
        let mut state = State::Done;
        core::mem::swap(&mut self.state, &mut state);
        match state {
            State::Initializing => match input {
                Input::Setup(Ok(())) => {
                    self.state = State::Listening;
                    Output::Emit(Progress::Initialized)
                },
                Input::Setup(Err(e)) => Output::Emit(Progress::Error(e)),
                _ => {
                    self.state = State::Initializing;
                    Output::Emit(Progress::Idle)
                },
            },
            State::Listening => match input {
                Input::Accepted(Ok(peer)) => {
                    self.state = State::Running(FrameDecoder::new());
                    Output::Emit(Progress::Connected(peer))
                },
                Input::Accepted(Err(m)) => Output::Emit(Progress::Error(Error::Io(m))),
                _ => {
                    self.state = State::Listening;
                    Output::Emit(Progress::Idle)
                },
            },
            State::Running(mut decoder) => match input {
                Input::Read(bytes) => {
                    let line = decoder.push(bytes.as_slice());
                    self.state = State::Running(decoder);
                    match line {
                        Some(l) => Output::Decode(l),
                        None => Output::Emit(Progress::Idle),
                    }
                },
                Input::ReadFailed(m) => Output::Emit(Progress::Error(Error::Io(m))),
                Input::Closed => match decoder.next_record() {
                    Some(l) => {
                        self.state = State::Running(decoder);
                        Output::Decode(l)
                    },
                    None => Output::Finished,
                },
                Input::DecodeFailed(reason, text) => Output::Emit(
                    Progress::Error(Error::Serialize(reason, text)),
                ),
                _ => {
                    self.state = State::Running(decoder);
                    Output::Emit(Progress::Idle)
                },
            },
            State::Done => Output::Finished,
        }
    }
}

} // verus!
