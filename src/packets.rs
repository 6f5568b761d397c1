//! Payloads of the connection and sharing commands, with their byte codecs.
//!
//! Every decoder reads from the start of its input and ignores what follows
//! the value; every encoder gives the exact bytes its decoder reads back.

use vstd::prelude::*;
use crate::error::{byte_error, DecodeError, ValueSet};

verus! {

/// The little-endian bytes of a 32-bit value.
pub open spec fn le_bytes_u32(v: u32) -> Seq<u8> {
    seq![v as u8, (v >> 8u32) as u8, (v >> 16u32) as u8, (v >> 24u32) as u8]
}

/// The 32-bit value of four little-endian bytes.
pub open spec fn le_u32(b0: u8, b1: u8, b2: u8, b3: u8) -> u32 {
    (b0 as u32) | ((b1 as u32) << 8u32) | ((b2 as u32) << 16u32) | ((b3 as u32) << 24u32)
}

/// Reading back the little-endian bytes of a value gives the value.
pub proof fn lemma_le_u32_round_trip(v: u32)
    ensures
        le_u32(le_bytes_u32(v)[0], le_bytes_u32(v)[1], le_bytes_u32(v)[2], le_bytes_u32(v)[3])
            == v,
{
    let b = le_bytes_u32(v);
    let (b0, b1, b2, b3) = (b[0], b[1], b[2], b[3]);
    assert((b0 as u32) | ((b1 as u32) << 8u32) | ((b2 as u32) << 16u32) | ((b3 as u32) << 24u32)
        == v) by (bit_vector)
        requires
            b0 == v as u8,
            b1 == (v >> 8u32) as u8,
            b2 == (v >> 16u32) as u8,
            b3 == (v >> 24u32) as u8,
    ;
}

/// Writes `v` as four little-endian bytes.
pub fn u32_to_le(v: u32) -> (r: Vec<u8>)
    ensures
        r@ == le_bytes_u32(v),
{
    let mut r: Vec<u8> = Vec::new();
    r.push(v as u8);
    r.push((v >> 8u32) as u8);
    r.push((v >> 16u32) as u8);
    r.push((v >> 24u32) as u8);
    r
}

/// Reads four little-endian bytes as a 32-bit value.
pub fn u32_from_le(b0: u8, b1: u8, b2: u8, b3: u8) -> (r: u32)
    ensures
        r == le_u32(b0, b1, b2, b3),
{
    (b0 as u32) | ((b1 as u32) << 8u32) | ((b2 as u32) << 16u32) | ((b3 as u32) << 24u32)
}

/// How the Brain is linked to the host, as the daemon reports it.
#[derive(Debug, Clone, Copy, PartialEq, Eq, Structural)]
pub enum ConnectedType {
    Serial,
    Bluetooth,
    NoConnection,
}

impl ConnectedType {
    /// The byte that stands for this link type on the wire.
    pub open spec fn spec_byte(self) -> u8 {
        match self {
            ConnectedType::Serial => 0,
            ConnectedType::Bluetooth => 1,
            ConnectedType::NoConnection => 255,
        }
    }

    pub fn encode(&self) -> (r: Vec<u8>)
        ensures
            r@ == seq![self.spec_byte()],
    {
        let b: u8 = match self {
            ConnectedType::Serial => 0,
            ConnectedType::Bluetooth => 1,
            ConnectedType::NoConnection => 255,
        };
        let mut r: Vec<u8> = Vec::new();
        r.push(b);
        r
    }

    /// The link type that `data` starts with, if its first byte names one.
    pub open spec fn spec_decode(data: Seq<u8>) -> Option<ConnectedType> {
        if data.len() == 0 {
            None
        } else if data[0] == 0 {
            Some(ConnectedType::Serial)
        } else if data[0] == 1 {
            Some(ConnectedType::Bluetooth)
        } else if data[0] == 255 {
            Some(ConnectedType::NoConnection)
        } else {
            None
        }
    }

    pub fn decode(data: &[u8]) -> (r: Result<ConnectedType, DecodeError>)
        ensures
            match r {
                Ok(t) => Self::spec_decode(data@) == Some(t),
                Err(e) => {
                    &&& Self::spec_decode(data@) is None
                    &&& e == byte_error(data@, ValueSet::LinkType)
                },
            },
    {
        if data.len() == 0 {
            return Err(DecodeError::PacketTooShort);
        }
        let byte = data[0];
        if byte == 0 {
            Ok(ConnectedType::Serial)
        } else if byte == 1 {
            Ok(ConnectedType::Bluetooth)
        } else if byte == 255 {
            Ok(ConnectedType::NoConnection)
        } else {
            Err(DecodeError::UnexpectedValue { value: byte, expected: ValueSet::LinkType })
        }
    }
}

/// A set of link types a client accepts. Bit 0 is serial, bit 1 Bluetooth;
/// no other bit is ever set.
#[derive(Debug, Clone, Copy, PartialEq, Eq, Structural)]
pub struct ConnectionTypes {
    bits: u8,
}

impl ConnectionTypes {
    /// The set that holds serial only.
    pub fn serial() -> (r: ConnectionTypes)
        ensures
            r.spec_bits() == 1,
            r.wf(),
    {
        proof { assert(1u8 & !3u8 == 0) by (bit_vector); }
        ConnectionTypes { bits: 0b01 }
    }

    /// The set that holds Bluetooth only.
    pub fn bluetooth() -> (r: ConnectionTypes)
        ensures
            r.spec_bits() == 2,
            r.wf(),
    {
        proof { assert(2u8 & !3u8 == 0) by (bit_vector); }
        ConnectionTypes { bits: 0b10 }
    }

    /// No bit but the two known ones is set.
    pub open spec fn wf(self) -> bool {
        self.spec_bits() & !3u8 == 0
    }

    pub closed spec fn spec_bits(self) -> u8 {
        self.bits
    }

    /// A set is its bits: two sets with the same bits are the same set.
    pub broadcast proof fn lemma_bits_determine(a: ConnectionTypes, b: ConnectionTypes)
        ensures
            #[trigger] a.spec_bits() == #[trigger] b.spec_bits() <==> a == b,
    {
    }

    pub fn empty() -> (r: ConnectionTypes)
        ensures
            r.spec_bits() == 0,
            r.wf(),
    {
        proof { assert(0u8 & !3u8 == 0) by (bit_vector); }
        ConnectionTypes { bits: 0 }
    }

    pub fn all() -> (r: ConnectionTypes)
        ensures
            r.spec_bits() == 3,
            r.wf(),
    {
        proof { assert(3u8 & !3u8 == 0) by (bit_vector); }
        ConnectionTypes { bits: 3 }
    }

    pub fn bits(&self) -> (r: u8)
        ensures
            r == self.spec_bits(),
    {
        self.bits
    }

    /// The set with exactly the given bits, or `None` when an unknown bit is set.
    pub fn from_bits(bits: u8) -> (r: Option<ConnectionTypes>)
        ensures
            bits & !3u8 == 0 ==> (r matches Some(t) && t.spec_bits() == bits && t.wf()),
            bits & !3u8 != 0 ==> r is None,
    {
        if bits & !3u8 == 0 {
            Some(ConnectionTypes { bits })
        } else {
            None
        }
    }

    /// The union of two sets.
    pub fn union(&self, other: ConnectionTypes) -> (r: ConnectionTypes)
        requires
            self.wf(),
            other.wf(),
        ensures
            r.spec_bits() == self.spec_bits() | other.spec_bits(),
            r.wf(),
    {
        let (a, b) = (self.bits, other.bits);
        proof {
            assert((a | b) & !3u8 == 0) by (bit_vector)
                requires a & !3u8 == 0, b & !3u8 == 0;
        }
        ConnectionTypes { bits: a | b }
    }

    /// Whether every type of `other` is in this set.
    pub fn contains(&self, other: ConnectionTypes) -> (r: bool)
        ensures
            r == (self.spec_bits() & other.spec_bits() == other.spec_bits()),
    {
        self.bits & other.bits == other.bits
    }

    pub fn encode(&self) -> (r: Vec<u8>)
        ensures
            r@ == seq![self.spec_bits()],
    {
        let mut r: Vec<u8> = Vec::new();
        r.push(self.bits);
        r
    }

    /// Whether `data` starts with a byte that is a valid set of link types.
    pub open spec fn spec_decodes(data: Seq<u8>) -> bool {
        data.len() > 0 && data[0] & !3u8 == 0
    }

    pub fn decode(data: &[u8]) -> (r: Result<ConnectionTypes, DecodeError>)
        ensures
            match r {
                Ok(t) => Self::spec_decodes(data@) && t.spec_bits() == data@[0] && t.wf(),
                Err(e) => {
                    &&& !Self::spec_decodes(data@)
                    &&& e == byte_error(data@, ValueSet::LinkTypes)
                },
            },
    {
        if data.len() == 0 {
            return Err(DecodeError::PacketTooShort);
        }
        let byte = data[0];
        match ConnectionTypes::from_bits(byte) {
            Some(t) => Ok(t),
            None => Err(DecodeError::UnexpectedValue { value: byte, expected: ValueSet::LinkTypes }),
        }
    }
}

/// Asks the daemon to link to the Brain by one of the allowed types.
#[derive(Debug, Clone, Copy, PartialEq, Eq, Structural)]
pub struct ConnectRequestPayload {
    pub allowed_types: ConnectionTypes,
}

impl ConnectRequestPayload {
    pub fn encode(&self) -> (r: Vec<u8>)
        ensures
            r@ == seq![self.allowed_types.spec_bits()],
    {
        self.allowed_types.encode()
    }

    pub fn decode(data: &[u8]) -> (r: Result<ConnectRequestPayload, DecodeError>)
        ensures
            match r {
                Ok(p) => ConnectionTypes::spec_decodes(data@) && p.allowed_types.spec_bits()
                    == data@[0] && p.allowed_types.wf(),
                Err(e) => {
                    &&& !ConnectionTypes::spec_decodes(data@)
                    &&& e == byte_error(data@, ValueSet::LinkTypes)
                },
            },
    {
        match ConnectionTypes::decode(data) {
            Ok(allowed_types) => Ok(ConnectRequestPayload { allowed_types }),
            Err(e) => Err(e),
        }
    }
}

/// The four PIN digits that pair the host with the Brain over Bluetooth.
#[derive(Debug, Clone, Copy, PartialEq, Eq)]
pub struct BluetoothPinPayload {
    pub pin_bytes: [u8; 4],
}

impl BluetoothPinPayload {
    pub fn encode(&self) -> (r: Vec<u8>)
        ensures
            r@ == self.pin_bytes@,
    {
        let mut r: Vec<u8> = Vec::new();
        r.push(self.pin_bytes[0]);
        r.push(self.pin_bytes[1]);
        r.push(self.pin_bytes[2]);
        r.push(self.pin_bytes[3]);
        assert(r@ =~= self.pin_bytes@);
        r
    }

    pub fn decode(data: &[u8]) -> (r: Result<BluetoothPinPayload, DecodeError>)
        ensures
            data@.len() < 4 ==> r == Err::<BluetoothPinPayload, DecodeError>(DecodeError::PacketTooShort),
            data@.len() >= 4 ==> (r matches Ok(p) && p.pin_bytes@ == data@.subrange(0, 4)),
            r matches Ok(p) ==> p.pin_bytes@ == data@.subrange(0, 4),
    {
        if data.len() < 4 {
            return Err(DecodeError::PacketTooShort);
        }
        let pin_bytes: [u8; 4] = [data[0], data[1], data[2], data[3]];
        assert(pin_bytes@ =~= data@.subrange(0, 4));
        Ok(BluetoothPinPayload { pin_bytes })
    }
}

/// Whether the Brain accepted a Bluetooth PIN.
#[derive(Debug, Clone, Copy, PartialEq, Eq, Structural)]
pub enum BluetoothPinResult {
    Success,
    IncorrectPin,
}

impl BluetoothPinResult {
    pub open spec fn spec_byte(self) -> u8 {
        match self {
            BluetoothPinResult::Success => 0,
            BluetoothPinResult::IncorrectPin => 1,
        }
    }

    pub fn encode(&self) -> (r: Vec<u8>)
        ensures
            r@ == seq![self.spec_byte()],
    {
        let mut r: Vec<u8> = Vec::new();
        match self {
            BluetoothPinResult::Success => r.push(0),
            BluetoothPinResult::IncorrectPin => r.push(1),
        }
        r
    }

    pub open spec fn spec_decode(data: Seq<u8>) -> Option<BluetoothPinResult> {
        if data.len() == 0 {
            None
        } else if data[0] == 0 {
            Some(BluetoothPinResult::Success)
        } else if data[0] == 1 {
            Some(BluetoothPinResult::IncorrectPin)
        } else {
            None
        }
    }

    pub fn decode(data: &[u8]) -> (r: Result<BluetoothPinResult, DecodeError>)
        ensures
            match r {
                Ok(t) => Self::spec_decode(data@) == Some(t),
                Err(e) => {
                    &&& Self::spec_decode(data@) is None
                    &&& e == byte_error(data@, ValueSet::Binary)
                },
            },
    {
        if data.len() == 0 {
            return Err(DecodeError::PacketTooShort);
        }
        let byte = data[0];
        if byte == 0 {
            Ok(BluetoothPinResult::Success)
        } else if byte == 1 {
            Ok(BluetoothPinResult::IncorrectPin)
        } else {
            Err(DecodeError::UnexpectedValue { value: byte, expected: ValueSet::Binary })
        }
    }
}

/// A request to take or give up the exclusive lease on the Brain link.
#[derive(Debug, Clone, Copy, PartialEq, Eq, Structural)]
pub enum LockAction {
    /// Take the lease, waiting at most `timeout` milliseconds (0: no limit).
    Lock { timeout: u32 },
    Unlock,
}

impl LockAction {
    pub open spec fn spec_encode(self) -> Seq<u8> {
        match self {
            LockAction::Lock { timeout } => seq![0u8] + le_bytes_u32(timeout),
            LockAction::Unlock => seq![1u8],
        }
    }

    pub fn encode(&self) -> (r: Vec<u8>)
        ensures
            r@ == self.spec_encode(),
    {
        match self {
            LockAction::Lock { timeout } => {
                let mut v: Vec<u8> = Vec::new();
                v.push(0);
                let mut t = u32_to_le(*timeout);
                v.append(&mut t);
                v
            },
            LockAction::Unlock => {
                let mut v: Vec<u8> = Vec::new();
                v.push(1);
                v
            },
        }
    }

    pub open spec fn spec_decode(data: Seq<u8>) -> Option<LockAction> {
        if data.len() == 0 {
            None
        } else if data[0] == 0 {
            if data.len() < 5 {
                None
            } else {
                Some(LockAction::Lock { timeout: le_u32(data[1], data[2], data[3], data[4]) })
            }
        } else if data[0] == 1 {
            Some(LockAction::Unlock)
        } else {
            None
        }
    }

    pub fn decode(data: &[u8]) -> (r: Result<LockAction, DecodeError>)
        ensures
            r is Ok <==> Self::spec_decode(data@) is Some,
            r matches Ok(a) ==> Self::spec_decode(data@) == Some(a),
            data@.len() == 0 ==> r == Err::<LockAction, DecodeError>(DecodeError::PacketTooShort),
            data@.len() > 0 && data@[0] == 0 && data@.len() < 5 ==> r == Err::<LockAction, DecodeError>(
                DecodeError::PacketTooShort),
            data@.len() >= 5 && data@[0] == 0 ==> r == Ok::<LockAction, DecodeError>(
                LockAction::Lock { timeout: le_u32(data@[1], data@[2], data@[3], data@[4]) }),
            data@.len() > 0 && data@[0] == 1 ==> r == Ok::<LockAction, DecodeError>(LockAction::Unlock),
            data@.len() > 0 && data@[0] > 1 ==> r == Err::<LockAction, DecodeError>(
                DecodeError::UnexpectedValue { value: data@[0], expected: ValueSet::Binary },
            ),
    {
        if data.len() == 0 {
            return Err(DecodeError::PacketTooShort);
        }
        let action = data[0];
        if action == 0 {
            if data.len() < 5 {
                return Err(DecodeError::PacketTooShort);
            }
            let timeout = u32_from_le(data[1], data[2], data[3], data[4]);
            Ok(LockAction::Lock { timeout })
        } else if action == 1 {
            Ok(LockAction::Unlock)
        } else {
            Err(DecodeError::UnexpectedValue { value: action, expected: ValueSet::Binary })
        }
    }
}

/// The daemon's answer to a lock request.
#[derive(Debug, Clone, Copy, PartialEq, Eq, Structural)]
pub enum LockResult {
    Success,
    /// The lease stayed with another holder until the request's timeout.
    LockTimeout,
}

impl LockResult {
    pub open spec fn spec_byte(self) -> u8 {
        match self {
            LockResult::Success => 0,
            LockResult::LockTimeout => 1,
        }
    }

    pub fn encode(&self) -> (r: Vec<u8>)
        ensures
            r@ == seq![self.spec_byte()],
    {
        let mut r: Vec<u8> = Vec::new();
        match self {
            LockResult::Success => r.push(0),
            LockResult::LockTimeout => r.push(1),
        }
        r
    }

    pub open spec fn spec_decode(data: Seq<u8>) -> Option<LockResult> {
        if data.len() == 0 {
            None
        } else if data[0] == 0 {
            Some(LockResult::Success)
        } else if data[0] == 1 {
            Some(LockResult::LockTimeout)
        } else {
            None
        }
    }

    pub fn decode(data: &[u8]) -> (r: Result<LockResult, DecodeError>)
        ensures
            match r {
                Ok(t) => Self::spec_decode(data@) == Some(t),
                Err(e) => {
                    &&& Self::spec_decode(data@) is None
                    &&& e == byte_error(data@, ValueSet::Binary)
                },
            },
    {
        if data.len() == 0 {
            return Err(DecodeError::PacketTooShort);
        }
        let byte = data[0];
        if byte == 0 {
            Ok(LockResult::Success)
        } else if byte == 1 {
            Ok(LockResult::LockTimeout)
        } else {
            Err(DecodeError::UnexpectedValue { value: byte, expected: ValueSet::Binary })
        }
    }
}

/// Each payload decodes from the start of its own encoding, whatever bytes
/// follow it: decoding undoes encoding.
pub proof fn lemma_payload_round_trip(
    link: ConnectedType,
    types: ConnectionTypes,
    pin: BluetoothPinPayload,
    pin_result: BluetoothPinResult,
    action: LockAction,
    lock_result: LockResult,
    rest: Seq<u8>,
)
    requires
        types.wf(),
    ensures
        ConnectedType::spec_decode(seq![link.spec_byte()] + rest) == Some(link),
        ConnectionTypes::spec_decodes(seq![types.spec_bits()] + rest),
        (seq![types.spec_bits()] + rest)[0] == types.spec_bits(),
        forall|t: ConnectionTypes|
            #[trigger] t.spec_bits() == (seq![types.spec_bits()] + rest)[0] ==> t == types,
        forall|p: ConnectRequestPayload|
            #[trigger] p.allowed_types.spec_bits() == (seq![types.spec_bits()] + rest)[0] ==> p
                == (ConnectRequestPayload { allowed_types: types }),
        (pin.pin_bytes@ + rest).subrange(0, 4) == pin.pin_bytes@,
        BluetoothPinResult::spec_decode(seq![pin_result.spec_byte()] + rest) == Some(pin_result),
        LockAction::spec_decode(action.spec_encode() + rest) == Some(action),
        LockResult::spec_decode(seq![lock_result.spec_byte()] + rest) == Some(lock_result),
{
    assert((pin.pin_bytes@ + rest).subrange(0, 4) =~= pin.pin_bytes@);
    assert forall|t: ConnectionTypes|
        #[trigger] t.spec_bits() == (seq![types.spec_bits()] + rest)[0] implies t == types by {
        ConnectionTypes::lemma_bits_determine(t, types);
    }
    assert forall|p: ConnectRequestPayload|
        #[trigger] p.allowed_types.spec_bits() == (seq![types.spec_bits()] + rest)[0] implies p
            == (ConnectRequestPayload { allowed_types: types }) by {
        ConnectionTypes::lemma_bits_determine(p.allowed_types, types);
    }
    if let LockAction::Lock { timeout } = action {
        let d = action.spec_encode() + rest;
        lemma_le_u32_round_trip(timeout);
        assert(d[1] == le_bytes_u32(timeout)[0]);
        assert(d[2] == le_bytes_u32(timeout)[1]);
        assert(d[3] == le_bytes_u32(timeout)[2]);
        assert(d[4] == le_bytes_u32(timeout)[3]);
    }
}

} // verus!
