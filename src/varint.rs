//! The variable-width size field of the wire protocol.
//!
//! A value below 128 takes one byte. A larger value (up to 15 bits) takes two
//! bytes: the first holds the high seven bits with its top bit set, the second
//! the low eight bits.

use vstd::prelude::*;
use vex_v5_serial::decode::Decode;
use vex_v5_serial::encode::Encode;
use vex_v5_serial::varint::VarU16;

verus! {

/// The largest value the size field can carry.
pub const VARINT_MAX: u16 = 0x7FFF;

/// The bytes that encode `value` in the size field.
pub open spec fn varint_bytes(value: u16) -> Seq<u8> {
    if value < 128 {
        seq![value as u8]
    } else {
        seq![((value >> 8u16) as u8) | 0x80u8, (value & 0xFFu16) as u8]
    }
}

/// Whether a size field that starts with `first` takes a second byte.
pub open spec fn is_wide(first: u8) -> bool {
    first >= 128
}

/// The value of a two-byte size field.
pub open spec fn wide_value(first: u8, second: u8) -> u16 {
    ((((first & 0x7Fu8) as u16) << 8u16) | second as u16) as u16
}

/// Relies on `VarU16::check_wide`: true exactly when the first byte is above 127.
#[verifier::external_body]
pub(crate) fn check_wide(first: u8) -> (r: bool)
    ensures
        r == is_wide(first),
{
    VarU16::check_wide(first)
}

/// Relies on `VarU16::decode`: a narrow field is its byte, a wide one joins
/// the low seven bits of the first byte with the second byte, big-endian.
#[verifier::external_body]
fn decode_field(first: u8, second: u8) -> (r: u16)
    ensures
        is_wide(first) ==> r == wide_value(first, second),
        !is_wide(first) ==> r == first as u16,
{
    match VarU16::decode([first, second]) {
        Ok(v) => v.into_inner(),
        Err(_) => 0,
    }
}

/// Relies on `VarU16::new` and its `Encode` impl, which never fail for a value
/// of at most 15 bits.
#[verifier::external_body]
fn encode_field(value: u16) -> (r: Vec<u8>)
    requires
        value <= VARINT_MAX,
    ensures
        r@ == varint_bytes(value),
{
    match VarU16::new(value).encode() {
        Ok(bytes) => bytes,
        Err(_) => Vec::new(),
    }
}

/// Encodes `value` as a size field.
pub fn encode_varint(value: u16) -> (r: Vec<u8>)
    requires
        value <= VARINT_MAX,
    ensures
        r@ == varint_bytes(value),
        r@.len() == if value < 128 { 1int } else { 2int },
{
    encode_field(value)
}

/// Reads a size field at the start of `data`: the value and the number of
/// bytes it took, or `None` when `data` ends inside the field.
pub fn decode_varint(data: &[u8]) -> (r: Option<(u16, usize)>)
    ensures
        match r {
            None => data@.len() == 0 || (is_wide(data@[0]) && data@.len() < 2),
            Some((v, n)) => {
                &&& data@.len() >= 1
                &&& n == if is_wide(data@[0]) { 2usize } else { 1usize }
                &&& n <= data@.len()
                &&& v <= VARINT_MAX
                &&& v == if is_wide(data@[0]) { wide_value(data@[0], data@[1]) } else { data@[0] as u16 }
            },
        },
{
    if data.len() == 0 {
        return None;
    }
    let first = data[0];
    if check_wide(first) {
        if data.len() < 2 {
            return None;
        }
        let v = decode_field(first, data[1]);
        proof { lemma_wide_value_bound(first, data@[1]); }
        Some((v, 2))
    } else {
        let v = decode_field(first, 0);
        Some((v, 1))
    }
}

proof fn lemma_wide_value_bound(first: u8, second: u8)
    ensures
        wide_value(first, second) <= VARINT_MAX,
{
    assert(((((first & 0x7Fu8) as u16) << 8u16) | second as u16) as u16 <= 0x7FFFu16) by (bit_vector);
}

/// Decoding the encoding of any value that fits gives the value back, and
/// the field's length.
pub proof fn lemma_varint_round_trip(value: u16, rest: Seq<u8>)
    requires
        value <= VARINT_MAX,
    ensures
        ({
            let data = varint_bytes(value) + rest;
            let n: int = if value < 128 { 1 } else { 2 };
            &&& is_wide(data[0]) == (value >= 128)
            &&& (value >= 128 ==> wide_value(data[0], data[1]) == value)
            &&& (value < 128 ==> data[0] as u16 == value)
            &&& data.subrange(n, data.len() as int) == rest
        }),
{
    let data = varint_bytes(value) + rest;
    if value < 128 {
        assert((value as u8) < 128u8 ==> !((value as u8) >= 128u8));
        assert(data.subrange(1, data.len() as int) =~= rest);
    } else {
        let f = ((value >> 8u16) as u8) | 0x80u8;
        let s = (value & 0xFFu16) as u8;
        assert(f >= 128u8) by (bit_vector)
            requires f == ((value >> 8u16) as u8) | 0x80u8;
        assert(((((f & 0x7Fu8) as u16) << 8u16) | s as u16) as u16 == value) by (bit_vector)
            requires
                f == ((value >> 8u16) as u8) | 0x80u8,
                s == (value & 0xFFu16) as u8,
                value <= 0x7FFFu16;
        assert(data.subrange(2, data.len() as int) =~= rest);
    }
}

} // verus!
