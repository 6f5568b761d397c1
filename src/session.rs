//! The daemon's side of one IPC session, and the messages it carries.
//!
//! Messages travel as newline-terminated frames. A client sends one command
//! per frame. A simple command is answered by one acknowledgement; an upload
//! is answered by progress frames as the transfer goes, then by exactly one
//! completion frame. The session decides which frame goes out; the daemon
//! runs the device command and writes the frames.

use vstd::prelude::*;
use crate::upload::UploadProgramOpts;

verus! {

/// The phases of a program upload.
#[derive(Debug, Clone, Copy, PartialEq, Eq, Structural)]
pub enum UploadStep {
    Ini,
    Monolith,
    Cold,
    Hot,
}

/// How far an upload phase has come, in hundredths of a percent (10000 is
/// a finished phase).
#[derive(Debug, Clone, Copy, PartialEq, Eq, Structural)]
pub struct TransferProgress {
    pub percent: u16,
    pub step: UploadStep,
}

impl TransferProgress {
    /// The percentage lies between 0 and 100.
    pub open spec fn wf(self) -> bool {
        self.percent <= 10000
    }
}

/// An error reported back to the client, as text.
#[derive(Debug, Clone, PartialEq, Eq)]
pub struct RemoteError {
    message: String,
}

impl RemoteError {
    pub fn new(message: String) -> (r: RemoteError)
        ensures
            r.spec_message() == message@,
    {
        RemoteError { message }
    }

    pub closed spec fn spec_message(&self) -> Seq<char> {
        self.message@
    }

    pub fn message(&self) -> (r: &str)
        ensures
            r@ == self.spec_message(),
    {
        self.message.as_str()
    }
}

/// A command from a client.
#[derive(Debug, Clone, PartialEq, Eq)]
pub enum DaemonCommand {
    MockTap { x: u16, y: u16 },
    UploadProgram(UploadProgramOpts),
    Shutdown,
    RequestPair,
    PairingPin([u8; 4]),
    Reconnect,
}

/// A response frame to a client.
#[derive(Debug, PartialEq, Eq)]
pub enum DaemonResponse {
    BasicAck { successful: bool },
    TransferProgress(TransferProgress),
    TransferComplete(Result<(), String>),
}

/// A frame of an upload's response stream.
#[derive(Debug, PartialEq, Eq)]
pub enum TransferProgressResponse {
    Progress(TransferProgress),
    Complete(Result<(), RemoteError>),
}

impl TransferProgressResponse {
    /// The response frame that carries this one.
    pub fn into_response(self) -> (r: DaemonResponse)
        ensures
            self matches TransferProgressResponse::Progress(p) ==> r == DaemonResponse::TransferProgress(p),
            self matches TransferProgressResponse::Complete(Ok(())) ==> r == DaemonResponse::TransferComplete(Ok(())),
            self matches TransferProgressResponse::Complete(Err(e)) ==> (r matches DaemonResponse::TransferComplete(Err(m))
                && m@ == e.spec_message()),
    {
        match self {
            TransferProgressResponse::Progress(p) => DaemonResponse::TransferProgress(p),
            TransferProgressResponse::Complete(Ok(())) => DaemonResponse::TransferComplete(Ok(())),
            TransferProgressResponse::Complete(Err(e)) => DaemonResponse::TransferComplete(Err(e.message)),
        }
    }
}

/// Whether a command streams its progress.
pub open spec fn is_streaming(c: DaemonCommand) -> bool {
    c matches DaemonCommand::UploadProgram(_)
}

/// Where a session stands.
#[derive(Debug, Clone, Copy, PartialEq, Eq, Structural)]
pub enum SessionState {
    /// Waiting for the client's next command.
    Idle,
    /// Running a simple command.
    Simple,
    /// Running an upload; `last` is the last progress sent, if any.
    Streaming { last: Option<TransferProgress> },
}

/// Whether progress `p` may follow `last` in a response stream: a new phase
/// may start anywhere, and within a phase the percentage never goes down.
pub open spec fn follows(last: Option<TransferProgress>, p: TransferProgress) -> bool {
    match last {
        None => true,
        Some(q) => q.step != p.step || q.percent <= p.percent,
    }
}

/// One IPC session.
#[derive(Debug)]
pub struct Session {
    state: SessionState,
}

impl Session {
    pub closed spec fn spec_state(&self) -> SessionState {
        self.state
    }

    /// A session that waits for its first command.
    pub fn new() -> (r: Session)
        ensures
            r.spec_state() == SessionState::Idle,
    {
        Session { state: SessionState::Idle }
    }

    pub fn state(&self) -> (r: SessionState)
        ensures
            r == self.spec_state(),
    {
        self.state
    }

    /// Takes the client's command; returns whether it streams progress.
    pub fn on_command(&mut self, command: &DaemonCommand) -> (r: bool)
        requires
            old(self).spec_state() == SessionState::Idle,
        ensures
            r == is_streaming(*command),
            r ==> final(self).spec_state() == (SessionState::Streaming { last: None }),
            !r ==> final(self).spec_state() == SessionState::Simple,
    {
        match command {
            DaemonCommand::UploadProgram(_) => {
                self.state = SessionState::Streaming { last: None };
                true
            },
            _ => {
                self.state = SessionState::Simple;
                false
            },
        }
    }

    /// Takes a progress report of the running upload. It is sent on when it
    /// may follow the last one sent; a report that would take a phase's
    /// percentage back is dropped.
    pub fn on_progress(&mut self, p: TransferProgress) -> (r: Option<DaemonResponse>)
        requires
            old(self).spec_state() matches SessionState::Streaming { .. },
            p.wf(),
        ensures
            r matches Some(DaemonResponse::TransferProgress(q)) ==> q.wf(),
            ({
                let last = old(self).spec_state()->Streaming_last;
                if follows(last, p) {
                    &&& r == Some(DaemonResponse::TransferProgress(p))
                    &&& final(self).spec_state() == (SessionState::Streaming { last: Some(p) })
                } else {
                    &&& r is None
                    &&& final(self).spec_state() == old(self).spec_state()
                }
            }),
    {
        let last = match self.state {
            SessionState::Streaming { last } => last,
            _ => None,
        };
        let ok = match last {
            None => true,
            Some(q) => q.step != p.step || q.percent <= p.percent,
        };
        if ok {
            self.state = SessionState::Streaming { last: Some(p) };
            Some(DaemonResponse::TransferProgress(p))
        } else {
            None
        }
    }

    /// Takes the result of the device command and gives the one terminal
    /// frame: an acknowledgement of a simple command (a failure is a
    /// `successful: false` acknowledgement), or the completion of an upload
    /// with its error text. The session then waits for the next command.
    pub fn on_finished(&mut self, result: Result<(), RemoteError>) -> (r: DaemonResponse)
        requires
            old(self).spec_state() != SessionState::Idle,
        ensures
            final(self).spec_state() == SessionState::Idle,
            old(self).spec_state() == SessionState::Simple ==> r == (DaemonResponse::BasicAck {
                successful: result is Ok,
            }),
            old(self).spec_state() is Streaming ==> match result {
                Ok(()) => r == DaemonResponse::TransferComplete(Ok(())),
                Err(e) => r matches DaemonResponse::TransferComplete(Err(m)) && m@ == e.spec_message(),
            },
    {
        let streaming = match self.state {
            SessionState::Streaming { .. } => true,
            _ => false,
        };
        self.state = SessionState::Idle;
        if streaming {
            TransferProgressResponse::Complete(result).into_response()
        } else {
            DaemonResponse::BasicAck { successful: result.is_ok() }
        }
    }
}

/// The frame that carries a serialized message: the message and a newline.
pub fn frame_message(message: &[u8]) -> (r: Vec<u8>)
    ensures
        r@ == message@.push(10u8),
{
    let mut r: Vec<u8> = Vec::new();
    let mut i: usize = 0;
    while i < message.len()
        invariant
            i <= message@.len(),
            r@ == message@.subrange(0, i as int),
        decreases message@.len() - i,
    {
        r.push(message[i]);
        i = i + 1;
    }
    r.push(10u8);
    assert(r@ =~= message@.push(10u8));
    r
}

/// The length of the first whole frame in `buf` (its newline included), or
/// `None` when `buf` holds no newline yet.
pub fn next_frame_len(buf: &[u8]) -> (r: Option<usize>)
    ensures
        match r {
            None => forall|i: int| 0 <= i < buf@.len() ==> buf@[i] != 10u8,
            Some(n) => {
                &&& 1 <= n <= buf@.len()
                &&& buf@[n - 1] == 10u8
                &&& forall|i: int| 0 <= i < n - 1 ==> buf@[i] != 10u8
            },
        },
{
    let mut i: usize = 0;
    while i < buf.len()
        invariant
            i <= buf@.len(),
            forall|j: int| 0 <= j < i ==> buf@[j] != 10u8,
        decreases buf@.len() - i,
    {
        if buf[i] == 10u8 {
            return Some(i + 1);
        }
        i = i + 1;
    }
    None
}

} // verus!
