use v5d::buffer::{PacketBuffer, RawPacket, ReceiveStep, Take, OBSOLESCENCE_MS};
use v5d::error::DecodeError;
use v5d::frame::{encode_reply, FrameStep};
use v5d::transport::{ConnectionType, DaemonConnection};

fn reply(ext: u8, payload: &[u8]) -> Vec<u8> {
    encode_reply(0xF0, ext, 0x76, payload)
}

#[test]
fn raw_packet_use() {
    let mut p = RawPacket::new(reply(0x30, &[0]), 10);
    assert!(!p.is_used());
    assert!(p.check_header(0xF0, 0x30));
    assert!(!p.check_header(0xF0, 0x10));
    assert!(!p.is_obsolete(10 + OBSOLESCENCE_MS, OBSOLESCENCE_MS));
    assert!(p.is_obsolete(11 + OBSOLESCENCE_MS, OBSOLESCENCE_MS));
    let f = p.decode_and_use(0xF0, 0x30).unwrap();
    assert_eq!(f.payload, vec![0]);
    assert!(p.is_used());
    assert!(p.is_obsolete(10, OBSOLESCENCE_MS));
    // A used packet still decodes, and stays used.
    assert!(p.decode_and_use(0xF0, 0x30).is_ok());
    assert!(p.is_used());
}

#[test]
fn trim_drops_old_and_used() {
    let mut b = PacketBuffer::new();
    b.push(reply(0x10, &[1]), 0);
    b.push(reply(0x10, &[2]), 1500);
    assert_eq!(b.len(), 2);
    b.trim(2000);
    assert_eq!(b.len(), 2);
    b.trim(2001);
    assert_eq!(b.len(), 1);
    assert_eq!(b.packet_bytes(0), reply(0x10, &[2]).as_slice());
    b.trim(3501);
    assert_eq!(b.len(), 0);
}

#[test]
fn take_returns_first_match() {
    let mut b = PacketBuffer::new();
    b.push(reply(0x30, &[0]), 0);
    b.push(reply(0x10, &[1]), 1);
    b.push(reply(0x10, &[255]), 2);
    match b.take_reply(0xF0, 0x10, 3) {
        Take::Found { position, reply } => {
            assert_eq!(position, 1);
            assert_eq!(reply.unwrap().payload, vec![1]);
        }
        Take::Missing => panic!("no reply"),
    }
    assert_eq!(b.len(), 2);
    match b.take_reply(0xF0, 0x10, 4) {
        Take::Found { position, reply } => {
            assert_eq!(position, 1);
            assert_eq!(reply.unwrap().payload, vec![255]);
        }
        Take::Missing => panic!("no reply"),
    }
    assert!(matches!(b.take_reply(0xF0, 0x10, 5), Take::Missing));
    assert_eq!(b.len(), 1);
}

#[test]
fn stale_reply_is_not_matched() {
    let mut b = PacketBuffer::new();
    b.push(reply(0x10, &[1]), 0);
    assert!(matches!(b.take_reply(0xF0, 0x10, 2001), Take::Missing));
    assert_eq!(b.len(), 0);
}

#[test]
fn failed_decode_uses_packet() {
    let mut b = PacketBuffer::new();
    // Signature of a reply to 0x10, but the size field claims one byte too many.
    let mut bad = reply(0x10, &[1]);
    bad[3] += 1;
    b.push(bad, 0);
    b.push(reply(0x10, &[0]), 1);
    match b.take_reply(0xF0, 0x10, 2) {
        Take::Found { position, reply } => {
            assert_eq!(position, 0);
            assert_eq!(reply.err(), Some(DecodeError::PacketTooShort));
        }
        Take::Missing => panic!("no packet"),
    }
    match b.poll_reply(0xF0, 0x10, 3, 100) {
        ReceiveStep::Reply(r) => assert_eq!(r.unwrap().payload, vec![0]),
        _ => panic!("no reply"),
    }
}

#[test]
fn poll_reads_then_times_out() {
    let mut b = PacketBuffer::new();
    assert!(matches!(b.poll_reply(0xF0, 0x10, 5, 10), ReceiveStep::ReadMore));
    assert!(matches!(b.poll_reply(0xF0, 0x10, 10, 10), ReceiveStep::TimedOut));
}

#[test]
fn noise_header_is_discarded() {
    let mut c = DaemonConnection::new(ConnectionType::Wired);
    let mut stream = vec![0xAA, 0xAA];
    let good = reply(0x10, &[1]);
    assert_eq!(good.len(), 9);
    stream.extend(good);
    c.receive_bytes(&stream);
    assert!(matches!(c.receive_packet(0xF0, 0x10, 0, 100), ReceiveStep::ReadMore));
    assert_eq!(c.receive_one_packet(0), FrameStep::Discard(2));
    assert_eq!(c.packet_count(), 0);
    assert_eq!(c.receive_one_packet(0), FrameStep::Frame(9));
    assert_eq!(c.packet_count(), 1);
    assert_eq!(c.receive_one_packet(0), FrameStep::NeedMore);
    match c.receive_packet(0xF0, 0x10, 1, 100) {
        ReceiveStep::Reply(r) => assert_eq!(r.unwrap().payload, vec![1]),
        _ => panic!("reply not matched"),
    }
    assert_eq!(c.packet_count(), 0);
}

#[test]
fn split_arrival_is_framed() {
    let mut c = DaemonConnection::new(ConnectionType::Bluetooth);
    assert_eq!(c.connection_type(), ConnectionType::Bluetooth);
    let bytes = reply(0x01, &[1]);
    c.receive_bytes(&bytes[..4]);
    assert_eq!(c.receive_one_packet(0), FrameStep::NeedMore);
    c.receive_bytes(&bytes[4..]);
    assert_eq!(c.receive_one_packet(0), FrameStep::Frame(bytes.len()));
    let p = c.take_packet(0);
    assert_eq!(p.bytes(), bytes.as_slice());
}
