//! The session's decisions: what a typed line means, what a socket read
//! means, and the background polling loop as a state machine that tells its
//! driver what to do next.
use crate::frame::{decode_frame, encode_frame, frame_text, text_frame};
use crate::queue::Received;
use vstd::prelude::*;
use vstd::string::StringSliceAdditionalSpecFns;
use vstd::utf8::*;

verus! {

broadcast use vstd::string::group_string_axioms;

/// Server address a session connects to by default.
pub const DEFAULT_ADDRESS: &'static str = "127.0.0.1:6000";

/// Pause between two polling rounds, in milliseconds, by default.
pub const DEFAULT_POLL_INTERVAL_MS: u64 = 100;

/// The line that ends the session by default.
pub const DEFAULT_QUIT_COMMAND: &'static str = ":quit";

/// The characters with the Unicode `White_Space` property.
pub open spec fn is_white_space(c: char) -> bool {
    ||| '\u{9}' <= c <= '\u{d}'
    ||| c == ' '
    ||| c == '\u{85}'
    ||| c == '\u{a0}'
    ||| c == '\u{1680}'
    ||| '\u{2000}' <= c <= '\u{200a}'
    ||| c == '\u{2028}'
    ||| c == '\u{2029}'
    ||| c == '\u{202f}'
    ||| c == '\u{205f}'
    ||| c == '\u{3000}'
}

/// `s` without its leading white space.
pub open spec fn trim_start(s: Seq<char>) -> Seq<char>
    decreases s.len(),
{
    if s.len() > 0 && is_white_space(s[0]) {
        trim_start(s.drop_first())
    } else {
        s
    }
}

/// `s` without its trailing white space.
pub open spec fn trim_end(s: Seq<char>) -> Seq<char>
    decreases s.len(),
{
    if s.len() > 0 && is_white_space(s.last()) {
        trim_end(s.drop_last())
    } else {
        s
    }
}

/// `s` without its surrounding white space.
pub open spec fn trimmed(s: Seq<char>) -> Seq<char> {
    trim_end(trim_start(s))
}

/// Relies on `str::trim`: it removes the leading and trailing characters that
/// have the Unicode `White_Space` property.
#[verifier::external_body]
fn trim_str(s: &str) -> (r: &str)
    ensures
        r@ == trimmed(s@),
{
    s.trim()
}

/// Whether two strings hold the same characters.
fn same_text(a: &str, b: &str) -> (r: bool)
    ensures
        r == (a@ == b@),
{
    let x = a.as_bytes();
    let y = b.as_bytes();
    proof {
        encode_utf8_decode_utf8(a@);
        encode_utf8_decode_utf8(b@);
    }
    if x.len() != y.len() {
        return false;
    }
    let mut i: usize = 0;
    while i < x.len()
        invariant
            x@ == a.spec_bytes(),
            y@ == b.spec_bytes(),
            x@.len() == y@.len(),
            i <= x@.len(),
            forall|j: int| 0 <= j < i ==> x@[j] == y@[j],
        decreases x@.len() - i,
    {
        if x[i] != y[i] {
            assert(x@ != y@);
            return false;
        }
        i = i + 1;
    }
    assert(x@ =~= y@);
    true
}

/// Settings of a session.
pub struct SessionConfig {
    /// The `host:port` to connect to.
    pub address: String,
    /// Pause between two polling rounds, in milliseconds.
    pub poll_interval_ms: u64,
    /// The line that ends the session.
    pub quit_command: String,
}

impl Default for SessionConfig {
    fn default() -> (r: Self)
        ensures
            r.address@ == DEFAULT_ADDRESS@,
            r.poll_interval_ms == DEFAULT_POLL_INTERVAL_MS,
            r.quit_command@ == DEFAULT_QUIT_COMMAND@,
    {
        SessionConfig {
            address: DEFAULT_ADDRESS.to_owned(),
            poll_interval_ms: DEFAULT_POLL_INTERVAL_MS,
            quit_command: DEFAULT_QUIT_COMMAND.to_owned(),
        }
    }
}

/// What a typed line asks for.
pub enum Command {
    /// End the session.
    Quit,
    /// Queue this message for sending.
    Send(String),
}

impl SessionConfig {
    /// Interprets one typed line: the quit command ends the session; any
    /// other line, white space trimmed off, is a message to send (an empty
    /// line included).
    pub fn interpret_line(&self, line: &str) -> (r: Command)
        ensures
            trimmed(line@) == self.quit_command@ ==> r is Quit,
            trimmed(line@) != self.quit_command@ ==> (r matches Command::Send(m) && m@ == trimmed(
                line@,
            )),
    {
        let t = trim_str(line);
        if same_text(t, self.quit_command.as_str()) {
            Command::Quit
        } else {
            Command::Send(t.to_owned())
        }
    }
}

/// What a non-blocking attempt to read one frame from the socket gave.
pub enum ReadOutcome {
    /// A whole frame was read.
    Filled(Vec<u8>),
    /// Not enough bytes are available yet.
    WouldBlock,
    /// Any other failure, the remote end closing included.
    Failed,
}

/// The meaning of a read for the session.
pub enum FrameReadResult {
    /// A frame arrived, carrying this text.
    Message(String),
    /// No complete frame yet: try again later.
    NoData,
    /// The connection is gone.
    Closed,
}

/// A frame whose payload is not valid UTF-8: a protocol violation.
#[derive(PartialEq, Eq, Structural, Clone, Copy, Debug)]
pub enum FrameError {
    InvalidText,
}

/// Interprets a read: a frame is decoded, a would-block is no data, and any
/// other failure closes the session.
pub fn frame_read_result(outcome: ReadOutcome) -> (r: Result<FrameReadResult, FrameError>)
    ensures
        outcome matches ReadOutcome::Filled(b) ==> match frame_text(b@) {
            Some(t) => r matches Ok(FrameReadResult::Message(s)) && s@ == t,
            None => r == Err::<FrameReadResult, FrameError>(FrameError::InvalidText),
        },
        outcome is WouldBlock ==> r matches Ok(FrameReadResult::NoData),
        outcome is Failed ==> r matches Ok(FrameReadResult::Closed),
{
    match outcome {
        ReadOutcome::Filled(b) => match decode_frame(b.as_slice()) {
            Some(s) => Ok(FrameReadResult::Message(s)),
            None => Err(FrameError::InvalidText),
        },
        ReadOutcome::WouldBlock => Ok(FrameReadResult::NoData),
        ReadOutcome::Failed => Ok(FrameReadResult::Closed),
    }
}

/// Where the background loop stands.
#[derive(PartialEq, Eq, Structural, Clone, Copy, Debug)]
pub enum LoopState {
    /// Reading frames and draining the queue.
    Polling,
    /// The connection is gone; the loop is about to stop.
    SocketClosed,
    /// The producer is gone; the loop is about to stop.
    QueueClosed,
    /// The loop has stopped.
    Terminated,
}

/// The step that comes next within one polling round.
#[derive(PartialEq, Eq, Structural, Clone, Copy, Debug)]
pub enum Phase {
    Read,
    Dequeue,
    Pause,
}

/// What the driver of the background loop is to do next.
#[derive(PartialEq, Eq, Structural, Clone, Copy, Debug)]
pub enum Request {
    /// Try to read one frame without blocking, then call `on_read`.
    ReadFrame,
    /// Try to take one message off the queue, then call `on_dequeue`.
    PollQueue,
    /// Sleep this many milliseconds.
    Sleep(u64),
    /// Leave the loop.
    Stop,
}

/// What the driver is to show or send after a step.
pub enum Notice {
    Nothing,
    /// Show a message that arrived.
    Display(String),
    /// Write this frame to the socket; it carries `message`.
    Transmit { frame: Vec<u8>, message: String },
    /// Report that the connection was severed.
    Severed,
    /// Report that the producer side is gone.
    Disconnected,
}

/// The background loop: one round reads a frame, takes a message off the
/// queue, then pauses. A closed socket or a gone producer ends it for good.
pub struct Poller {
    pub state: LoopState,
    pub phase: Phase,
    pub poll_interval_ms: u64,
}

impl Poller {
    /// A loop about to read its first frame.
    pub fn new(config: &SessionConfig) -> (r: Self)
        ensures
            r.state == LoopState::Polling,
            r.phase == Phase::Read,
            r.poll_interval_ms == config.poll_interval_ms,
    {
        Poller { state: LoopState::Polling, phase: Phase::Read, poll_interval_ms: config.poll_interval_ms }
    }

    /// The next thing to do. Once the loop has left `Polling` it only ever
    /// asks to stop, and it is then `Terminated`.
    pub fn next_request(&mut self) -> (r: Request)
        ensures
            old(self).state == LoopState::Polling && old(self).phase == Phase::Read ==> r
                == Request::ReadFrame && *final(self) == *old(self),
            old(self).state == LoopState::Polling && old(self).phase == Phase::Dequeue ==> r
                == Request::PollQueue && *final(self) == *old(self),
            old(self).state == LoopState::Polling && old(self).phase == Phase::Pause ==> r
                == Request::Sleep(old(self).poll_interval_ms) && *final(self) == (Poller {
                phase: Phase::Read,
                ..*old(self)
            }),
            old(self).state != LoopState::Polling ==> r == Request::Stop && *final(self) == (
            Poller { state: LoopState::Terminated, ..*old(self) }),
    {
        match self.state {
            LoopState::Polling => match self.phase {
                Phase::Read => Request::ReadFrame,
                Phase::Dequeue => Request::PollQueue,
                Phase::Pause => {
                    self.phase = Phase::Read;
                    Request::Sleep(self.poll_interval_ms)
                },
            },
            _ => {
                self.state = LoopState::Terminated;
                Request::Stop
            },
        }
    }

    /// Takes in the result of a read. A message is shown, no data changes
    /// nothing but the step, and only a closed connection ends the loop.
    /// Out of turn, the result is ignored.
    pub fn on_read(&mut self, result: FrameReadResult) -> (r: Notice)
        ensures
            !(old(self).state == LoopState::Polling && old(self).phase == Phase::Read) ==> r is Nothing
                && *final(self) == *old(self),
            old(self).state == LoopState::Polling && old(self).phase == Phase::Read ==> match result {
                FrameReadResult::Message(t) => r matches Notice::Display(s) && s@ == t@
                    && *final(self) == (Poller { phase: Phase::Dequeue, ..*old(self) }),
                FrameReadResult::NoData => r is Nothing && *final(self) == (Poller {
                    phase: Phase::Dequeue,
                    ..*old(self)
                }),
                FrameReadResult::Closed => r is Severed && *final(self) == (Poller {
                    state: LoopState::SocketClosed,
                    ..*old(self)
                }),
            },
    {
        if !(self.state == LoopState::Polling && self.phase == Phase::Read) {
            return Notice::Nothing;
        }
        match result {
            FrameReadResult::Message(t) => {
                self.phase = Phase::Dequeue;
                Notice::Display(t)
            },
            FrameReadResult::NoData => {
                self.phase = Phase::Dequeue;
                Notice::Nothing
            },
            FrameReadResult::Closed => {
                self.state = LoopState::SocketClosed;
                Notice::Severed
            },
        }
    }

    /// Takes in the result of polling the queue. A message is framed for
    /// sending, an empty queue changes nothing but the step, and a gone
    /// producer ends the loop. Out of turn, the result is ignored.
    pub fn on_dequeue(&mut self, received: Received) -> (r: Notice)
        ensures
            !(old(self).state == LoopState::Polling && old(self).phase == Phase::Dequeue) ==> r is Nothing
                && *final(self) == *old(self),
            old(self).state == LoopState::Polling && old(self).phase == Phase::Dequeue ==> match received {
                Received::Message(m) => (r matches Notice::Transmit { frame, message } && frame@
                    == text_frame(m@) && message@ == m@) && *final(self) == (Poller {
                    phase: Phase::Pause,
                    ..*old(self)
                }),
                Received::Empty => r is Nothing && *final(self) == (Poller {
                    phase: Phase::Pause,
                    ..*old(self)
                }),
                Received::Disconnected => r is Disconnected && *final(self) == (Poller {
                    state: LoopState::QueueClosed,
                    ..*old(self)
                }),
            },
    {
        if !(self.state == LoopState::Polling && self.phase == Phase::Dequeue) {
            return Notice::Nothing;
        }
        match received {
            Received::Message(m) => {
                self.phase = Phase::Pause;
                let frame = encode_frame(m.as_str());
                Notice::Transmit { frame, message: m }
            },
            Received::Empty => {
                self.phase = Phase::Pause;
                Notice::Nothing
            },
            Received::Disconnected => {
                self.state = LoopState::QueueClosed;
                Notice::Disconnected
            },
        }
    }
}

} // verus!
