//! The connection-sharing commands: start a link to the Brain, take the
//! exclusive lease on it, and give the lease back.
//!
//! Each command is a small state machine. It names the handshake to run
//! next; the caller runs it (see `handshake`) and hands back its result.
//! A failed handshake ends the command with that error and changes nothing
//! else: retrying is the caller's business.

use vstd::prelude::*;
use crate::error::{byte_error, ConnectionError, ValueSet};
use crate::frame::{encode_command, ReplyFrame, ACK};
use crate::packets::{
    BluetoothPinResult, ConnectedType, ConnectionTypes, LockAction, LockResult,
};

verus! {

/// The command id of every daemon command.
pub const V5D_CDC: u8 = 0xF0;
/// Extended id: ask the daemon to link to the Brain.
pub const CONNECT_REQUEST: u8 = 0x01;
/// Extended id: send a Bluetooth pairing PIN.
pub const BLE_PIN: u8 = 0x02;
/// Extended id: ask how the daemon is linked to the Brain.
pub const CON_TYPE: u8 = 0x10;
/// Extended id: take or give up the lease on the link.
pub const CON_LOCK: u8 = 0x30;
/// The general negative acknowledgement code.
pub const NACK: u8 = 0xFF;

/// One handshake to run: the extended command id and payload of the request
/// (the command id is always `V5D_CDC`), how long to wait for each reply in
/// milliseconds (`None`: no limit), and how many times to send it at most.
#[derive(Debug, Clone, PartialEq, Eq)]
pub struct Request {
    pub ext_id: u8,
    pub payload: Vec<u8>,
    pub timeout_ms: Option<u64>,
    pub max_attempts: usize,
}

/// A request, as contracts speak of it.
pub ghost struct RequestView {
    pub ext_id: u8,
    pub payload: Seq<u8>,
    pub timeout_ms: Option<u64>,
    pub max_attempts: nat,
}

impl View for Request {
    type V = RequestView;

    open spec fn view(&self) -> RequestView {
        RequestView {
            ext_id: self.ext_id,
            payload: self.payload@,
            timeout_ms: self.timeout_ms,
            max_attempts: self.max_attempts as nat,
        }
    }
}

impl Request {
    /// The bytes of the request's command frame.
    pub fn encode(&self) -> (r: Vec<u8>)
        requires
            self.payload@.len() <= 0x7FFF,
        ensures
            r@ == crate::frame::command_bytes(V5D_CDC, self.ext_id, self.payload@),
    {
        encode_command(V5D_CDC, self.ext_id, self.payload.as_slice())
    }
}

/// The status query: one attempt, 100 ms.
pub open spec fn status_request() -> RequestView {
    RequestView { ext_id: CON_TYPE, payload: Seq::empty(), timeout_ms: Some(100), max_attempts: 1 }
}

/// The link request: three attempts, 5 s each.
pub open spec fn connect_request(types: ConnectionTypes) -> RequestView {
    RequestView {
        ext_id: CONNECT_REQUEST,
        payload: seq![types.spec_bits()],
        timeout_ms: Some(5000),
        max_attempts: 3,
    }
}

/// The PIN exchange: one attempt, 100 ms.
pub open spec fn pin_request(pin: Seq<u8>) -> RequestView {
    RequestView { ext_id: BLE_PIN, payload: pin, timeout_ms: Some(100), max_attempts: 1 }
}

/// The lock request: one attempt, waiting for the reply as long as the lease
/// may take: `t` milliseconds for a timeout `t`, and without limit when there
/// is no timeout or it is 0 (which the daemon reads as no limit).
pub open spec fn lock_request(lock_timeout: Option<u32>) -> RequestView {
    RequestView {
        ext_id: CON_LOCK,
        payload: LockAction::Lock {
            timeout: match lock_timeout {
                Some(t) => t,
                None => 0,
            },
        }.spec_encode(),
        timeout_ms: match lock_timeout {
            Some(t) => if t > 0 {
                Some(t as u64)
            } else {
                None
            },
            None => None,
        },
        max_attempts: 1,
    }
}

/// The unlock request: one attempt, 100 ms.
pub open spec fn release_request() -> RequestView {
    RequestView { ext_id: CON_LOCK, payload: seq![1u8], timeout_ms: Some(100), max_attempts: 1 }
}

/// The payload of a reply the device acknowledged, or the code it sent instead.
pub open spec fn reply_inner(f: ReplyFrame) -> Result<Seq<u8>, u8> {
    if f.ack == ACK {
        Ok(f.payload@)
    } else {
        Err(f.ack)
    }
}

/// What a link-type reply says: the link type, or why there is none (the
/// device refused, or the payload does not decode).
pub open spec fn spec_link_type(f: ReplyFrame) -> Result<ConnectedType, ConnectionError> {
    match reply_inner(f) {
        Err(code) => Err(ConnectionError::Nack(code)),
        Ok(p) => match ConnectedType::spec_decode(p) {
            Some(t) => Ok(t),
            None => Err(ConnectionError::Decode(byte_error(p, ValueSet::LinkType))),
        },
    }
}

/// Reads the link type from a reply.
pub fn link_type_of(f: &ReplyFrame) -> (r: Result<ConnectedType, ConnectionError>)
    ensures
        r == spec_link_type(*f),
{
    if f.ack != ACK {
        return Err(ConnectionError::Nack(f.ack));
    }
    match ConnectedType::decode(f.payload.as_slice()) {
        Ok(t) => Ok(t),
        Err(e) => Err(ConnectionError::Decode(e)),
    }
}

/// What a PIN reply says: whether the PIN was accepted, or why there is no
/// verdict (the device refused, or the payload does not decode).
pub open spec fn spec_pin_result(f: ReplyFrame) -> Result<BluetoothPinResult, ConnectionError> {
    match reply_inner(f) {
        Err(code) => Err(ConnectionError::Nack(code)),
        Ok(p) => match BluetoothPinResult::spec_decode(p) {
            Some(t) => Ok(t),
            None => Err(ConnectionError::Decode(byte_error(p, ValueSet::Binary))),
        },
    }
}

/// Reads the PIN verdict from a reply.
pub fn pin_result_of(f: &ReplyFrame) -> (r: Result<BluetoothPinResult, ConnectionError>)
    ensures
        r == spec_pin_result(*f),
{
    if f.ack != ACK {
        return Err(ConnectionError::Nack(f.ack));
    }
    match BluetoothPinResult::decode(f.payload.as_slice()) {
        Ok(t) => Ok(t),
        Err(e) => Err(ConnectionError::Decode(e)),
    }
}

/// The outcome of a lock request from its reply: the lease was granted, or
/// it stayed with another holder (`LockTimeout`), or the device refused, or
/// the payload does not decode.
pub open spec fn spec_lock_outcome(f: ReplyFrame) -> Result<(), ConnectionError> {
    match reply_inner(f) {
        Err(code) => Err(ConnectionError::Nack(code)),
        Ok(p) => match LockResult::spec_decode(p) {
            Some(LockResult::Success) => Ok(()),
            Some(LockResult::LockTimeout) => Err(ConnectionError::LockTimeout),
            None => Err(ConnectionError::Decode(byte_error(p, ValueSet::Binary))),
        },
    }
}

/// The outcome of a lock request from its reply.
pub fn lock_outcome(f: &ReplyFrame) -> (r: Result<(), ConnectionError>)
    ensures
        r == spec_lock_outcome(*f),
{
    if f.ack != ACK {
        return Err(ConnectionError::Nack(f.ack));
    }
    match LockResult::decode(f.payload.as_slice()) {
        Ok(LockResult::Success) => Ok(()),
        Ok(LockResult::LockTimeout) => Err(ConnectionError::LockTimeout),
        Err(e) => Err(ConnectionError::Decode(e)),
    }
}

/// The result of a `LockConnection` command from the result of its handshake.
pub open spec fn spec_lock_finish(outcome: Result<ReplyFrame, ConnectionError>) -> Result<(), ConnectionError> {
    match outcome {
        Err(e) => Err(e),
        Ok(f) => spec_lock_outcome(f),
    }
}

/// Takes the exclusive lease on the link, waiting at most `lock_timeout`
/// milliseconds for another holder to give it up (`None` or `Some(0)`: no
/// limit, both in the request and in the wait for its reply).
#[derive(Debug, Clone, Copy, PartialEq, Eq, Structural)]
pub struct LockConnection {
    pub lock_timeout: Option<u32>,
}

impl LockConnection {
    /// The handshake that asks for the lease.
    pub fn request(&self) -> (r: Request)
        ensures
            r@ == lock_request(self.lock_timeout),
    {
        let timeout = match self.lock_timeout {
            Some(t) => t,
            None => 0,
        };
        let action = LockAction::Lock { timeout };
        Request {
            ext_id: CON_LOCK,
            payload: action.encode(),
            timeout_ms: match self.lock_timeout {
                Some(t) => if t > 0 {
                    Some(t as u64)
                } else {
                    None
                },
                None => None,
            },
            max_attempts: 1,
        }
    }

    /// The command's result from the result of its handshake.
    pub fn finish(&self, outcome: Result<ReplyFrame, ConnectionError>) -> (r: Result<(), ConnectionError>)
        ensures
            r == spec_lock_finish(outcome),
    {
        match outcome {
            Err(e) => Err(e),
            Ok(f) => lock_outcome(&f),
        }
    }
}

/// Gives the lease back. The reply is not read beyond its arrival.
#[derive(Debug, Clone, Copy, PartialEq, Eq, Structural)]
pub struct ReleaseConnection;

impl ReleaseConnection {
    /// The handshake that gives the lease back.
    pub fn request(&self) -> (r: Request)
        ensures
            r@ == release_request(),
    {
        let action = LockAction::Unlock;
        let payload = action.encode();
        Request { ext_id: CON_LOCK, payload, timeout_ms: Some(100), max_attempts: 1 }
    }

    /// The command's result from the result of its handshake.
    pub fn finish(&self, outcome: Result<ReplyFrame, ConnectionError>) -> (r: Result<(), ConnectionError>)
        ensures
            match outcome {
                Err(e) => r == Err::<(), ConnectionError>(e),
                Ok(_) => r == Ok::<(), ConnectionError>(()),
            },
    {
        match outcome {
            Err(e) => Err(e),
            Ok(_) => Ok(()),
        }
    }
}

/// Links the daemon to the Brain if it is not linked yet, then takes the
/// lease on the link.
///
/// The status is asked first. When the daemon is linked already, the lease is
/// asked at once. Otherwise a link is requested, by one of the preferred
/// types. A Bluetooth link needs the PIN, which is then sent; a link by
/// Bluetooth without a PIN, a PIN without a Bluetooth link, no link at all or
/// a refused PIN end the command with a NACK.
#[derive(Debug, Clone, Copy, PartialEq, Eq)]
pub struct StartConnection {
    pub lock_timeout: Option<u32>,
    pub prefered_connection_types: ConnectionTypes,
    pub bluetooth_pin: Option<[u8; 4]>,
}

/// Where a `StartConnection` command stands.
#[derive(Debug, Clone, Copy, PartialEq, Eq, Structural)]
pub enum StartStage {
    CheckStatus,
    RequestConnection,
    SendPin,
    Lock,
    Finished,
}

/// What the caller of a `StartConnection` command does next.
#[derive(Debug)]
pub enum StartStep {
    /// Run this handshake and hand back its result.
    Run(Request),
    /// The command is over, with this result.
    Finished(Result<(), ConnectionError>),
}

/// The stage after a status or link reply that names link type `t`, or
/// `None` when the command ends with a NACK.
pub open spec fn after_link(cmd: StartConnection, stage: StartStage, t: ConnectedType) -> Option<StartStage> {
    if stage == StartStage::CheckStatus {
        if t == ConnectedType::NoConnection {
            Some(StartStage::RequestConnection)
        } else {
            Some(StartStage::Lock)
        }
    } else {
        match (t, cmd.bluetooth_pin) {
            (ConnectedType::Bluetooth, Some(_)) => Some(StartStage::SendPin),
            (ConnectedType::Serial, None) => Some(StartStage::Lock),
            _ => None,
        }
    }
}

/// The handshake that a stage runs.
pub open spec fn stage_request(cmd: StartConnection, stage: StartStage) -> RequestView {
    match stage {
        StartStage::RequestConnection => connect_request(cmd.prefered_connection_types),
        StartStage::SendPin => pin_request(
            match cmd.bluetooth_pin {
                Some(pin) => pin@,
                None => Seq::empty(),
            },
        ),
        StartStage::Lock => lock_request(cmd.lock_timeout),
        _ => status_request(),
    }
}

/// Whether `r` moves on to `next`, running its handshake.
pub open spec fn runs(r: StartStep, cmd: StartConnection, next: StartStage) -> bool {
    r matches StartStep::Run(q) && q@ == stage_request(cmd, next)
}

/// A `StartConnection` command in progress.
pub struct StartFlow {
    command: StartConnection,
    stage: StartStage,
}

impl StartFlow {
    pub closed spec fn spec_command(&self) -> StartConnection {
        self.command
    }

    pub closed spec fn spec_stage(&self) -> StartStage {
        self.stage
    }

    /// Starts the command: the status query is due first.
    pub fn begin(command: StartConnection) -> (r: (StartFlow, Request))
        ensures
            r.0.spec_command() == command,
            r.0.spec_stage() == StartStage::CheckStatus,
            r.1@ == status_request(),
    {
        let q = Request { ext_id: CON_TYPE, payload: Vec::new(), timeout_ms: Some(100), max_attempts: 1 };
        (StartFlow { command, stage: StartStage::CheckStatus }, q)
    }

    pub fn stage(&self) -> (r: StartStage)
        ensures
            r == self.spec_stage(),
    {
        self.stage
    }

    fn request_for(&self, stage: StartStage) -> (r: Request)
        requires
            stage != StartStage::Finished,
            stage != StartStage::CheckStatus,
        ensures
            r@ == stage_request(self.command, stage),
    {
        match stage {
            StartStage::RequestConnection => Request {
                ext_id: CONNECT_REQUEST,
                payload: self.command.prefered_connection_types.encode(),
                timeout_ms: Some(5000),
                max_attempts: 3,
            },
            StartStage::SendPin => {
                let mut payload: Vec<u8> = Vec::new();
                if let Some(pin) = self.command.bluetooth_pin {
                    payload.push(pin[0]);
                    payload.push(pin[1]);
                    payload.push(pin[2]);
                    payload.push(pin[3]);
                    assert(payload@ =~= pin@);
                }
                Request { ext_id: BLE_PIN, payload, timeout_ms: Some(100), max_attempts: 1 }
            },
            _ => LockConnection { lock_timeout: self.command.lock_timeout }.request(),
        }
    }

    /// Takes the result of the stage's handshake and says what comes next.
    pub fn on_outcome(&mut self, outcome: Result<ReplyFrame, ConnectionError>) -> (r: StartStep)
        requires
            old(self).spec_stage() != StartStage::Finished,
        ensures
            final(self).spec_command() == old(self).spec_command(),
            r is Finished <==> final(self).spec_stage() == StartStage::Finished,
            r matches StartStep::Run(_) ==> runs(r, old(self).spec_command(), final(self).spec_stage()),
            ({
                let cmd = old(self).spec_command();
                let stage = old(self).spec_stage();
                match outcome {
                    Err(e) => r == StartStep::Finished(Err(e)),
                    Ok(f) => match stage {
                        StartStage::SendPin => match spec_pin_result(f) {
                            Ok(BluetoothPinResult::Success) => final(self).spec_stage() == StartStage::Lock,
                            Ok(BluetoothPinResult::IncorrectPin) => r == StartStep::Finished(
                                Err(ConnectionError::Nack(NACK)),
                            ),
                            Err(e) => r == StartStep::Finished(Err(e)),
                        },
                        StartStage::Lock => r == StartStep::Finished(spec_lock_finish(outcome)),
                        _ => match spec_link_type(f) {
                            Ok(t) => match after_link(cmd, stage, t) {
                                Some(next) => final(self).spec_stage() == next,
                                None => r == StartStep::Finished(Err(ConnectionError::Nack(NACK))),
                            },
                            Err(e) => r == StartStep::Finished(Err(e)),
                        },
                    },
                }
            }),
    {
        let f = match outcome {
            Err(e) => {
                self.stage = StartStage::Finished;
                return StartStep::Finished(Err(e));
            },
            Ok(f) => f,
        };
        match self.stage {
            StartStage::SendPin => match pin_result_of(&f) {
                Ok(BluetoothPinResult::Success) => {
                    self.stage = StartStage::Lock;
                    StartStep::Run(self.request_for(StartStage::Lock))
                },
                Ok(BluetoothPinResult::IncorrectPin) => {
                    self.stage = StartStage::Finished;
                    StartStep::Finished(Err(ConnectionError::Nack(NACK)))
                },
                Err(e) => {
                    self.stage = StartStage::Finished;
                    StartStep::Finished(Err(e))
                },
            },
            StartStage::Lock => {
                self.stage = StartStage::Finished;
                StartStep::Finished(lock_outcome(&f))
            },
            _ => {
                let t = match link_type_of(&f) {
                    Ok(t) => t,
                    Err(e) => {
                        self.stage = StartStage::Finished;
                        return StartStep::Finished(Err(e));
                    },
                };
                let next = if self.stage == StartStage::CheckStatus {
                    if t == ConnectedType::NoConnection {
                        StartStage::RequestConnection
                    } else {
                        StartStage::Lock
                    }
                } else {
                    match (t, self.command.bluetooth_pin) {
                        (ConnectedType::Bluetooth, Some(_)) => StartStage::SendPin,
                        (ConnectedType::Serial, None) => StartStage::Lock,
                        _ => StartStage::Finished,
                    }
                };
                self.stage = next;
                if next == StartStage::Finished {
                    StartStep::Finished(Err(ConnectionError::Nack(NACK)))
                } else {
                    StartStep::Run(self.request_for(next))
                }
            },
        }
    }
}

} // verus!
