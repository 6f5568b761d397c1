//! Framing of CDC2 packets.
//!
//! A device-bound command frame is the four-byte device header, the command
//! id, the extended command id, a size field, the payload and a CRC-16 of all
//! bytes before it (big-endian). A host-bound reply frame is the two-byte host
//! header, the command id and a size field, followed by exactly `size` bytes:
//! the extended command id, an acknowledgement code, the payload and the
//! two CRC bytes.
//!
//! The packet types of `vex_v5_serial` fix their ids at compile time; here
//! the ids are values, so one codec serves every command of the daemon
//! protocol. The size field, the checksum and the set of acknowledgement
//! codes come from `vex_v5_serial`.

use vstd::prelude::*;
use vex_v5_serial::decode::Decode;
use vex_v5_serial::packets::cdc2::Cdc2Ack;
use crate::error::{DecodeError, ValueSet};
use crate::varint::{
    decode_varint, encode_varint, is_wide, lemma_varint_round_trip, varint_bytes, wide_value,
    VARINT_MAX,
};

verus! {

/// First header byte of a host-bound frame.
pub const HOST_HEADER_0: u8 = 0xAA;
/// Second header byte of a host-bound frame.
pub const HOST_HEADER_1: u8 = 0x55;
/// The acknowledgement code of a reply that carries a result.
pub const ACK: u8 = 0x76;
/// The largest payload a reply frame can carry.
pub const MAX_REPLY_PAYLOAD: usize = 0x7FFB;

/// The four-byte header of a device-bound frame.
pub open spec fn device_header() -> Seq<u8> {
    seq![0xC9u8, 0x36u8, 0xB8u8, 0x47u8]
}

/// The CRC-16/XMODEM checksum of `data`.
pub uninterp spec fn crc16_xmodem(data: Seq<u8>) -> u16;

/// Relies on `vex_v5_serial::crc::VEX_CRC16` (CRC-16/XMODEM of the `crc`
/// crate): the checksum is a function of the bytes alone.
#[verifier::external_body]
fn checksum16(data: &[u8]) -> (r: u16)
    ensures
        r == crc16_xmodem(data@),
{
    vex_v5_serial::crc::VEX_CRC16.checksum(data)
}

/// Whether `code` is an acknowledgement code the device protocol defines.
pub open spec fn is_known_ack(code: u8) -> bool {
    code == 0x76 || code == 0xFF || code == 0xCE || (0xD0 <= code && code <= 0xDC) || code == 0x00
        || code == 0x01
}

/// Relies on `Cdc2Ack::decode`: it accepts exactly the codes 0x76, 0xFF,
/// 0xCE, 0xD0 to 0xDC, 0x00 and 0x01.
#[verifier::external_body]
fn ack_is_known(code: u8) -> (r: bool)
    ensures
        r == is_known_ack(code),
{
    Cdc2Ack::decode([code]).is_ok()
}

/// The two big-endian bytes of a 16-bit value.
pub open spec fn be_bytes_u16(v: u16) -> Seq<u8> {
    seq![(v >> 8u16) as u8, v as u8]
}

/// The 16-bit value of two big-endian bytes.
pub open spec fn be_u16(hi: u8, lo: u8) -> u16 {
    (((hi as u16) << 8u16) | lo as u16) as u16
}

/// Appends `checksum` to `data`, big-endian.
pub fn append_checksum(data: Vec<u8>, checksum: u16) -> (r: Vec<u8>)
    ensures
        r@ == data@ + be_bytes_u16(checksum),
{
    let mut r = data;
    r.push((checksum >> 8u16) as u8);
    r.push(checksum as u8);
    r
}

/// The bytes of a command frame before its checksum.
pub open spec fn command_body(id: u8, ext_id: u8, payload: Seq<u8>) -> Seq<u8> {
    device_header() + seq![id, ext_id] + varint_bytes(payload.len() as u16) + payload
}

/// The full bytes of a command frame.
pub open spec fn command_bytes(id: u8, ext_id: u8, payload: Seq<u8>) -> Seq<u8> {
    command_body(id, ext_id, payload) + be_bytes_u16(crc16_xmodem(command_body(id, ext_id, payload)))
}

/// Encodes a device-bound command frame.
pub fn encode_command(id: u8, ext_id: u8, payload: &[u8]) -> (r: Vec<u8>)
    requires
        payload@.len() <= VARINT_MAX as int,
    ensures
        r@ == command_bytes(id, ext_id, payload@),
{
    let mut body: Vec<u8> = Vec::new();
    body.push(0xC9);
    body.push(0x36);
    body.push(0xB8);
    body.push(0x47);
    body.push(id);
    body.push(ext_id);
    let mut size = encode_varint(payload.len() as u16);
    body.append(&mut size);
    let mut i: usize = 0;
    let ghost prefix = body@;
    while i < payload.len()
        invariant
            i <= payload@.len(),
            body@ == prefix + payload@.subrange(0, i as int),
        decreases payload@.len() - i,
    {
        body.push(payload[i]);
        i = i + 1;
    }
    assert(body@ =~= command_body(id, ext_id, payload@));
    let crc = checksum16(body.as_slice());
    append_checksum(body, crc)
}

/// A decoded command frame.
#[derive(Debug, Clone, PartialEq, Eq)]
pub struct CommandFrame {
    pub id: u8,
    pub ext_id: u8,
    pub payload: Vec<u8>,
    pub checksum: u16,
}

/// What decoding `data` as a command frame yields: the ids, the payload and
/// the checksum, or the kind of failure.
pub open spec fn spec_decode_command(data: Seq<u8>) -> Result<(u8, u8, Seq<u8>, u16), DecodeError> {
    if data.len() < 4 {
        Err(DecodeError::PacketTooShort)
    } else if data.subrange(0, 4) != device_header() {
        Err(DecodeError::InvalidHeader)
    } else if data.len() < 7 || (is_wide(data[6]) && data.len() < 8) {
        Err(DecodeError::PacketTooShort)
    } else {
        let n: int = if is_wide(data[6]) { 2 } else { 1 };
        let size: int = if is_wide(data[6]) { wide_value(data[6], data[7]) as int } else { data[6] as int };
        if data.len() != 6 + n + size + 2 {
            Err(DecodeError::PacketTooShort)
        } else {
            Ok((data[4], data[5], data.subrange(6 + n, 6 + n + size), be_u16(data[6 + n + size], data[7 + n + size])))
        }
    }
}

/// Decodes a device-bound command frame. The size field must cover the
/// payload exactly, and the frame must end with the two checksum bytes.
pub fn decode_command(data: &[u8]) -> (r: Result<CommandFrame, DecodeError>)
    ensures
        match r {
            Ok(f) => spec_decode_command(data@) == Ok::<(u8, u8, Seq<u8>, u16), DecodeError>((f.id, f.ext_id, f.payload@, f.checksum)),
            Err(e) => spec_decode_command(data@) == Err::<(u8, u8, Seq<u8>, u16), DecodeError>(e),
        },
{
    if data.len() < 4 {
        return Err(DecodeError::PacketTooShort);
    }
    if data[0] != 0xC9 || data[1] != 0x36 || data[2] != 0xB8 || data[3] != 0x47 {
        assert(data@.subrange(0, 4) != device_header()) by {
            if data@.subrange(0, 4) == device_header() {
                assert(data@.subrange(0, 4)[0] == data@[0]);
                assert(data@.subrange(0, 4)[1] == data@[1]);
                assert(data@.subrange(0, 4)[2] == data@[2]);
                assert(data@.subrange(0, 4)[3] == data@[3]);
            }
        }
        return Err(DecodeError::InvalidHeader);
    }
    assert(data@.subrange(0, 4) =~= device_header());
    if data.len() < 7 {
        return Err(DecodeError::PacketTooShort);
    }
    let tail = slice_from(data, 6);
    let (size, n) = match decode_varint(tail.as_slice()) {
        Some(v) => v,
        None => { return Err(DecodeError::PacketTooShort); },
    };
    let start: usize = 6 + n;
    let size_us = size as usize;
    if data.len() - start < size_us || data.len() - start - size_us != 2 {
        return Err(DecodeError::PacketTooShort);
    }
    let payload = slice_range(data, start, start + size_us);
    let checksum = ((data[start + size_us] as u16) << 8u16) | data[start + size_us + 1] as u16;
    Ok(CommandFrame { id: data[4], ext_id: data[5], payload, checksum })
}

/// The bytes of `data` from `start` on.
fn slice_from(data: &[u8], start: usize) -> (r: Vec<u8>)
    requires
        start <= data@.len(),
    ensures
        r@ == data@.subrange(start as int, data@.len() as int),
{
    slice_range(data, start, data.len())
}

/// The bytes of `data` from `start` up to `end`.
fn slice_range(data: &[u8], start: usize, end: usize) -> (r: Vec<u8>)
    requires
        start <= end <= data@.len(),
    ensures
        r@ == data@.subrange(start as int, end as int),
{
    let mut r: Vec<u8> = Vec::new();
    let mut i: usize = start;
    while i < end
        invariant
            start <= i <= end <= data@.len(),
            r@ == data@.subrange(start as int, i as int),
        decreases end - i,
    {
        r.push(data[i]);
        i = i + 1;
    }
    r
}

/// The bytes of a reply frame before its checksum.
pub open spec fn reply_body(id: u8, ext_id: u8, ack: u8, payload: Seq<u8>) -> Seq<u8> {
    seq![HOST_HEADER_0, HOST_HEADER_1, id] + varint_bytes((payload.len() + 4) as u16) + seq![ext_id, ack]
        + payload
}

/// The full bytes of a reply frame.
pub open spec fn reply_bytes(id: u8, ext_id: u8, ack: u8, payload: Seq<u8>) -> Seq<u8> {
    reply_body(id, ext_id, ack, payload) + be_bytes_u16(crc16_xmodem(reply_body(id, ext_id, ack, payload)))
}

/// Encodes a host-bound reply frame.
pub fn encode_reply(id: u8, ext_id: u8, ack: u8, payload: &[u8]) -> (r: Vec<u8>)
    requires
        payload@.len() <= MAX_REPLY_PAYLOAD as int,
    ensures
        r@ == reply_bytes(id, ext_id, ack, payload@),
{
    let mut body: Vec<u8> = Vec::new();
    body.push(HOST_HEADER_0);
    body.push(HOST_HEADER_1);
    body.push(id);
    let mut size = encode_varint((payload.len() + 4) as u16);
    body.append(&mut size);
    body.push(ext_id);
    body.push(ack);
    let mut i: usize = 0;
    let ghost prefix = body@;
    while i < payload.len()
        invariant
            i <= payload@.len(),
            body@ == prefix + payload@.subrange(0, i as int),
        decreases payload@.len() - i,
    {
        body.push(payload[i]);
        i = i + 1;
    }
    assert(body@ =~= reply_body(id, ext_id, ack, payload@));
    let crc = checksum16(body.as_slice());
    append_checksum(body, crc)
}

/// A decoded reply frame.
#[derive(Debug, Clone, PartialEq, Eq)]
pub struct ReplyFrame {
    pub id: u8,
    pub ext_id: u8,
    pub ack: u8,
    pub payload: Vec<u8>,
    pub checksum: u16,
}

/// Where the bytes after the size field of a reply start, and the size, when
/// `data` holds the host header, a command id and a whole size field.
pub open spec fn reply_size_field(data: Seq<u8>) -> Option<(int, int)> {
    if data.len() < 4 || (is_wide(data[3]) && data.len() < 5) {
        None
    } else if is_wide(data[3]) {
        Some((5, wide_value(data[3], data[4]) as int))
    } else {
        Some((4, data[3] as int))
    }
}

/// Whether `data` starts with the host header.
pub open spec fn has_host_header(data: Seq<u8>) -> bool {
    data.len() >= 2 && data[0] == HOST_HEADER_0 && data[1] == HOST_HEADER_1
}

/// Whether `data` has the signature of a reply to command `id`/`ext_id`: the
/// host header, the command id, a whole size field and the extended id.
pub open spec fn spec_reply_matches(data: Seq<u8>, id: u8, ext_id: u8) -> bool {
    &&& has_host_header(data)
    &&& data.len() >= 3 && data[2] == id
    &&& reply_size_field(data) matches Some((start, _)) && start < data.len() && data[start] == ext_id
}

/// What decoding `data` as a reply to `id`/`ext_id` yields: the code, the
/// payload and the checksum, or the kind of failure.
pub open spec fn spec_decode_reply(data: Seq<u8>, id: u8, ext_id: u8) -> Result<(u8, Seq<u8>, u16), DecodeError> {
    if data.len() < 2 {
        Err(DecodeError::PacketTooShort)
    } else if !has_host_header(data) {
        Err(DecodeError::InvalidHeader)
    } else if data.len() < 3 {
        Err(DecodeError::PacketTooShort)
    } else if data[2] != id {
        Err(DecodeError::InvalidHeader)
    } else {
        match reply_size_field(data) {
            None => Err(DecodeError::PacketTooShort),
            Some((start, size)) => {
                if data.len() - start != size || size < 4 {
                    Err(DecodeError::PacketTooShort)
                } else if data[start] != ext_id {
                    Err(DecodeError::InvalidHeader)
                } else if !is_known_ack(data[start + 1]) {
                    Err(DecodeError::UnexpectedValue { value: data[start + 1], expected: ValueSet::AckCodes })
                } else {
                    Ok((data[start + 1], data.subrange(start + 2, data.len() - 2),
                        be_u16(data[data.len() - 2], data[data.len() - 1])))
                }
            },
        }
    }
}

/// Reads the size field of a reply: where the bytes after it start, and the size.
fn read_reply_size(data: &[u8]) -> (r: Option<(usize, usize)>)
    requires
        data@.len() >= 3,
    ensures
        match r {
            None => reply_size_field(data@) is None,
            Some((start, size)) => reply_size_field(data@) == Some((start as int, size as int)),
        },
{
    let tail = slice_from(data, 3);
    match decode_varint(tail.as_slice()) {
        Some((size, n)) => Some((3 + n, size as usize)),
        None => None,
    }
}

/// Whether `data` has the signature of a reply to command `id`/`ext_id`.
pub fn reply_matches(data: &[u8], id: u8, ext_id: u8) -> (r: bool)
    ensures
        r == spec_reply_matches(data@, id, ext_id),
{
    if data.len() < 3 || data[0] != HOST_HEADER_0 || data[1] != HOST_HEADER_1 || data[2] != id {
        return false;
    }
    match read_reply_size(data) {
        Some((start, _)) => start < data.len() && data[start] == ext_id,
        None => false,
    }
}

/// Decodes a host-bound reply frame to command `id`/`ext_id`. The size field
/// must cover the rest of `data` exactly.
pub fn decode_reply(data: &[u8], id: u8, ext_id: u8) -> (r: Result<ReplyFrame, DecodeError>)
    ensures
        match r {
            Ok(f) => {
                &&& spec_decode_reply(data@, id, ext_id) == Ok::<(u8, Seq<u8>, u16), DecodeError>((f.ack, f.payload@, f.checksum))
                &&& f.id == id && f.ext_id == ext_id
            },
            Err(e) => spec_decode_reply(data@, id, ext_id) == Err::<(u8, Seq<u8>, u16), DecodeError>(e),
        },
{
    if data.len() < 2 {
        return Err(DecodeError::PacketTooShort);
    }
    if data[0] != HOST_HEADER_0 || data[1] != HOST_HEADER_1 {
        return Err(DecodeError::InvalidHeader);
    }
    if data.len() < 3 {
        return Err(DecodeError::PacketTooShort);
    }
    if data[2] != id {
        return Err(DecodeError::InvalidHeader);
    }
    let (start, size) = match read_reply_size(data) {
        Some(v) => v,
        None => { return Err(DecodeError::PacketTooShort); },
    };
    if data.len() - start != size || size < 4 {
        return Err(DecodeError::PacketTooShort);
    }
    if data[start] != ext_id {
        return Err(DecodeError::InvalidHeader);
    }
    let ack = data[start + 1];
    if !ack_is_known(ack) {
        return Err(DecodeError::UnexpectedValue { value: ack, expected: ValueSet::AckCodes });
    }
    let end = data.len() - 2;
    let payload = slice_range(data, start + 2, end);
    let checksum = ((data[end] as u16) << 8u16) | data[end + 1] as u16;
    Ok(ReplyFrame { id, ext_id, ack, payload, checksum })
}

/// The reply's payload when the device acknowledged the command, or the
/// code it answered with instead.
pub fn reply_result(frame: &ReplyFrame) -> (r: Result<Vec<u8>, u8>)
    ensures
        frame.ack == ACK ==> (r matches Ok(p) && p@ == frame.payload@),
        frame.ack != ACK ==> r == Err::<Vec<u8>, u8>(frame.ack),
{
    if frame.ack == ACK {
        Ok(frame.payload.clone())
    } else {
        Err(frame.ack)
    }
}

/// How the bytes at the start of an inbound stream are framed.
#[derive(Debug, Clone, Copy, PartialEq, Eq, Structural)]
pub enum FrameStep {
    /// The stream does not yet hold a whole frame.
    NeedMore,
    /// The first two bytes are not the host header: they are noise to drop.
    Discard(usize),
    /// The first `len` bytes are one whole frame.
    Frame(usize),
}

/// Frames the start of an inbound byte stream: the host header, the command
/// id, the size field and then as many bytes as the size says.
pub open spec fn spec_next_frame(stream: Seq<u8>) -> FrameStep {
    if stream.len() < 2 {
        FrameStep::NeedMore
    } else if !has_host_header(stream) {
        FrameStep::Discard(2)
    } else {
        match reply_size_field(stream) {
            None => FrameStep::NeedMore,
            Some((start, size)) => if stream.len() < start + size {
                FrameStep::NeedMore
            } else {
                FrameStep::Frame((start + size) as usize)
            },
        }
    }
}

/// Frames the start of an inbound byte stream.
pub fn next_frame(stream: &[u8]) -> (r: FrameStep)
    ensures
        r == spec_next_frame(stream@),
        r matches FrameStep::Frame(n) ==> 4 <= n <= stream@.len(),
        r matches FrameStep::Discard(n) ==> n == 2 && n <= stream@.len(),
{
    if stream.len() < 2 {
        return FrameStep::NeedMore;
    }
    if stream[0] != HOST_HEADER_0 || stream[1] != HOST_HEADER_1 {
        return FrameStep::Discard(2);
    }
    if stream.len() < 3 {
        return FrameStep::NeedMore;
    }
    match read_reply_size(stream) {
        None => FrameStep::NeedMore,
        Some((start, size)) => {
            if stream.len() - start < size {
                FrameStep::NeedMore
            } else {
                FrameStep::Frame(start + size)
            }
        },
    }
}

#[verifier::rlimit(100)]
proof fn lemma_command_round_trip(id: u8, ext_id: u8, payload: Seq<u8>)
    requires
        payload.len() <= VARINT_MAX as int,
    ensures
        spec_decode_command(command_bytes(id, ext_id, payload)) matches Ok((i, e, p, _)) && i == id
            && e == ext_id && p == payload,
{
    let n: int = if payload.len() < 128 { 1 } else { 2 };
    let c = command_bytes(id, ext_id, payload);
    let ccrc = be_bytes_u16(crc16_xmodem(command_body(id, ext_id, payload)));
    let after_c = payload + ccrc;
    let v = varint_bytes(payload.len() as u16);
    lemma_varint_round_trip(payload.len() as u16, after_c);
    assert(c =~= device_header() + seq![id, ext_id] + (v + after_c));
    assert(c.subrange(0, 4) =~= device_header());
    assert(c[4] == id && c[5] == ext_id);
    assert(c.subrange(6, c.len() as int) =~= v + after_c);
    assert(c[6] == (v + after_c)[0]);
    assert(n == 2 ==> c[7] == (v + after_c)[1]);
    assert(c.len() == 6 + n + payload.len() + 2);
    assert(c.subrange(6 + n, 6 + n + payload.len()) =~= payload);
}

#[verifier::rlimit(60)]
proof fn lemma_reply_round_trip(id: u8, ext_id: u8, ack: u8, payload: Seq<u8>)
    requires
        payload.len() <= MAX_REPLY_PAYLOAD as int,
        is_known_ack(ack),
    ensures
        spec_decode_reply(reply_bytes(id, ext_id, ack, payload), id, ext_id) matches Ok((a, p, _))
            && a == ack && p == payload,
        spec_reply_matches(reply_bytes(id, ext_id, ack, payload), id, ext_id),
        reply_size_field(reply_bytes(id, ext_id, ack, payload)) matches Some((start, size))
            && start + size == reply_bytes(id, ext_id, ack, payload).len(),
{
    let size = (payload.len() + 4) as u16;
    let r = reply_bytes(id, ext_id, ack, payload);
    let rcrc = be_bytes_u16(crc16_xmodem(reply_body(id, ext_id, ack, payload)));
    let after_r = seq![ext_id, ack] + payload + rcrc;
    let v = varint_bytes(size);
    let m: int = if size < 128 { 1 } else { 2 };
    lemma_varint_round_trip(size, after_r);
    assert(r =~= seq![HOST_HEADER_0, HOST_HEADER_1, id] + (v + after_r));
    assert(r.subrange(3, r.len() as int) =~= v + after_r);
    assert(r[3] == (v + after_r)[0]);
    assert(m == 2 ==> r[4] == (v + after_r)[1]);
    assert(r.len() == 3 + m + payload.len() + 4);
    assert(r.subrange(3 + m + 2, r.len() - 2) =~= payload);
    assert(r[3 + m] == ext_id);
    assert(r[3 + m + 1] == ack);
}

proof fn lemma_reply_framing(id: u8, ext_id: u8, ack: u8, payload: Seq<u8>, rest: Seq<u8>)
    requires
        payload.len() <= MAX_REPLY_PAYLOAD as int,
        is_known_ack(ack),
    ensures
        spec_next_frame(reply_bytes(id, ext_id, ack, payload) + rest) == FrameStep::Frame(
            reply_bytes(id, ext_id, ack, payload).len() as usize),
{
    let r = reply_bytes(id, ext_id, ack, payload);
    let s = r + rest;
    lemma_reply_round_trip(id, ext_id, ack, payload);
    assert(r.len() >= 5);
    assert(s[0] == r[0] && s[1] == r[1] && s[2] == r[2] && s[3] == r[3] && s[4] == r[4]);
}

/// Decoding a frame undoes encoding it: a command frame gives back its ids
/// and payload, a reply frame with a known code its code and payload, and a
/// reply frame has the signature of a reply to its own ids and is framed
/// whole at the start of a stream, whatever follows it.
pub proof fn lemma_frame_round_trip(id: u8, ext_id: u8, ack: u8, payload: Seq<u8>, rest: Seq<u8>)
    requires
        payload.len() <= MAX_REPLY_PAYLOAD as int,
        is_known_ack(ack),
    ensures
        spec_decode_command(command_bytes(id, ext_id, payload)) matches Ok((i, e, p, _)) && i == id
            && e == ext_id && p == payload,
        spec_decode_reply(reply_bytes(id, ext_id, ack, payload), id, ext_id) matches Ok((a, p, _))
            && a == ack && p == payload,
        spec_reply_matches(reply_bytes(id, ext_id, ack, payload), id, ext_id),
        spec_next_frame(reply_bytes(id, ext_id, ack, payload) + rest) == FrameStep::Frame(
            reply_bytes(id, ext_id, ack, payload).len() as usize),
{
    lemma_command_round_trip(id, ext_id, payload);
    lemma_reply_round_trip(id, ext_id, ack, payload);
    lemma_reply_framing(id, ext_id, ack, payload, rest);
}

} // verus!
