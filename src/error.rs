//! Errors of the packet codec.

use vstd::prelude::*;

verus! {

/// A set of values an enumerated byte may hold.
#[derive(Debug, Clone, Copy, PartialEq, Eq, Structural)]
pub enum ValueSet {
    /// 0, 1 and 255: serial, Bluetooth, no link.
    LinkType,
    /// 0 to 3: the sets of link types.
    LinkTypes,
    /// 0 and 1.
    Binary,
    /// The acknowledgement codes of the device protocol.
    AckCodes,
}

impl ValueSet {
    /// The values of the set.
    pub open spec fn spec_values(self) -> Seq<u8> {
        match self {
            ValueSet::LinkType => seq![0u8, 1u8, 255u8],
            ValueSet::LinkTypes => seq![0u8, 1u8, 2u8, 3u8],
            ValueSet::Binary => seq![0u8, 1u8],
            ValueSet::AckCodes => seq![
                0x76u8, 0xFFu8, 0xCEu8, 0xD0u8, 0xD1u8, 0xD2u8, 0xD3u8, 0xD4u8, 0xD5u8, 0xD6u8,
                0xD7u8, 0xD8u8, 0xD9u8, 0xDAu8, 0xDBu8, 0xDCu8, 0x00u8, 0x01u8,
            ],
        }
    }

    /// The values of the set, in the order `spec_values` gives.
    pub fn values(&self) -> (r: Vec<u8>)
        ensures
            r@ == self.spec_values(),
    {
        match self {
            ValueSet::LinkType => vec![0u8, 1u8, 255u8],
            ValueSet::LinkTypes => vec![0u8, 1u8, 2u8, 3u8],
            ValueSet::Binary => vec![0u8, 1u8],
            ValueSet::AckCodes => vec![
                0x76u8, 0xFFu8, 0xCEu8, 0xD0u8, 0xD1u8, 0xD2u8, 0xD3u8, 0xD4u8, 0xD5u8, 0xD6u8,
                0xD7u8, 0xD8u8, 0xD9u8, 0xDAu8, 0xDBu8, 0xDCu8, 0x00u8, 0x01u8,
            ],
        }
    }
}

/// Why a byte sequence could not be decoded.
#[derive(Debug, Clone, Copy, PartialEq, Eq, Structural)]
pub enum DecodeError {
    /// The bytes ended before the value did, or a size field disagrees with
    /// the bytes that follow it.
    PacketTooShort,
    /// The direction header, command id or extended command id is not the
    /// expected one.
    InvalidHeader,
    /// An enumerated byte holds a value outside its known set.
    UnexpectedValue { value: u8, expected: ValueSet },
}

/// The error of decoding a one-byte enumeration from `data`, whose values are
/// `set`, when decoding fails: no byte at all, or a byte outside the set.
pub open spec fn byte_error(data: Seq<u8>, set: ValueSet) -> DecodeError {
    if data.len() == 0 {
        DecodeError::PacketTooShort
    } else {
        DecodeError::UnexpectedValue { value: data[0], expected: set }
    }
}

/// Why an exchange with the device failed.
#[derive(Debug, Clone, PartialEq, Eq)]
pub enum ConnectionError {
    /// The device answered with a code other than the acknowledgement.
    Nack(u8),
    /// Reading from or writing to the link failed.
    Io { message: String },
    /// A reply with the expected signature did not decode.
    Decode(DecodeError),
    /// No reply came before the deadline.
    Timeout,
    /// The lease stayed with another holder until the lock request's timeout.
    LockTimeout,
}

} // verus!
