use v5d::error::{DecodeError, ValueSet};
use v5d::frame::{
    decode_command, decode_reply, encode_command, encode_reply, next_frame, reply_matches,
    reply_result, FrameStep,
};
use v5d::packets::{
    BluetoothPinPayload, BluetoothPinResult, ConnectRequestPayload, ConnectedType,
    ConnectionTypes, LockAction, LockResult,
};
use v5d::varint::{decode_varint, encode_varint};

#[test]
fn varint_thin() {
    assert_eq!(encode_varint(0x0F), vec![0x0F]);
    assert_eq!(decode_varint(&[0x0F]), Some((0x0F, 1)));
}

#[test]
fn varint_wide() {
    assert_eq!(encode_varint(0xF00), vec![0x8F, 0x00]);
    assert_eq!(decode_varint(&[0x8F, 0x00, 0x42]), Some((0xF00, 2)));
}

#[test]
fn varint_edges() {
    assert_eq!(encode_varint(127), vec![0x7F]);
    assert_eq!(encode_varint(128), vec![0x80, 0x80]);
    assert_eq!(encode_varint(0x7FFF), vec![0xFF, 0xFF]);
    assert_eq!(decode_varint(&[0xFF, 0xFF]), Some((0x7FFF, 2)));
    assert_eq!(decode_varint(&[]), None);
    assert_eq!(decode_varint(&[0x80]), None);
}

#[test]
fn payload_round_trips() {
    for t in [ConnectedType::Serial, ConnectedType::Bluetooth, ConnectedType::NoConnection] {
        let mut bytes = t.encode();
        bytes.push(0x99);
        assert_eq!(ConnectedType::decode(&bytes), Ok(t));
    }
    for bits in 0u8..4 {
        let types = ConnectionTypes::from_bits(bits).unwrap();
        assert_eq!(ConnectionTypes::decode(&types.encode()), Ok(types));
        let p = ConnectRequestPayload { allowed_types: types };
        assert_eq!(ConnectRequestPayload::decode(&p.encode()), Ok(p));
    }
    let pin = BluetoothPinPayload { pin_bytes: [1, 2, 3, 4] };
    assert_eq!(BluetoothPinPayload::decode(&pin.encode()), Ok(pin));
    for r in [BluetoothPinResult::Success, BluetoothPinResult::IncorrectPin] {
        assert_eq!(BluetoothPinResult::decode(&r.encode()), Ok(r));
    }
    for a in [LockAction::Lock { timeout: 0 }, LockAction::Lock { timeout: u32::MAX }, LockAction::Unlock] {
        assert_eq!(LockAction::decode(&a.encode()), Ok(a));
    }
    for r in [LockResult::Success, LockResult::LockTimeout] {
        assert_eq!(LockResult::decode(&r.encode()), Ok(r));
    }
}

#[test]
fn connected_type_values() {
    assert_eq!(ConnectedType::Serial.encode(), vec![0]);
    assert_eq!(ConnectedType::Bluetooth.encode(), vec![1]);
    assert_eq!(ConnectedType::NoConnection.encode(), vec![255]);
    assert_eq!(ConnectedType::decode(&[]), Err(DecodeError::PacketTooShort));
    assert_eq!(
        ConnectedType::decode(&[7]),
        Err(DecodeError::UnexpectedValue { value: 7, expected: ValueSet::LinkType })
    );
}

#[test]
fn connection_types_values() {
    assert_eq!(ConnectionTypes::serial().bits(), 1);
    assert_eq!(ConnectionTypes::bluetooth().bits(), 2);
    assert_eq!(ConnectionTypes::all().bits(), 3);
    assert_eq!(ConnectionTypes::serial().union(ConnectionTypes::bluetooth()), ConnectionTypes::all());
    assert!(ConnectionTypes::all().contains(ConnectionTypes::serial()));
    assert!(!ConnectionTypes::serial().contains(ConnectionTypes::bluetooth()));
    assert_eq!(ConnectionTypes::from_bits(4), None);
    assert_eq!(
        ConnectionTypes::decode(&[4]),
        Err(DecodeError::UnexpectedValue { value: 4, expected: ValueSet::LinkTypes })
    );
}

#[test]
fn lock_action_bytes() {
    assert_eq!(LockAction::Lock { timeout: 0x12345678 }.encode(), vec![0, 0x78, 0x56, 0x34, 0x12]);
    assert_eq!(LockAction::Unlock.encode(), vec![1]);
    assert_eq!(LockAction::decode(&[0, 1, 2]), Err(DecodeError::PacketTooShort));
    assert_eq!(LockAction::decode(&[]), Err(DecodeError::PacketTooShort));
    assert_eq!(
        LockAction::decode(&[2]),
        Err(DecodeError::UnexpectedValue { value: 2, expected: ValueSet::Binary })
    );
    assert_eq!(LockAction::decode(&[0, 0xF4, 0x01, 0, 0]), Ok(LockAction::Lock { timeout: 500 }));
}

#[test]
fn pin_and_results_errors() {
    assert_eq!(BluetoothPinPayload::decode(&[1, 2, 3]), Err(DecodeError::PacketTooShort));
    assert_eq!(
        BluetoothPinResult::decode(&[3]),
        Err(DecodeError::UnexpectedValue { value: 3, expected: ValueSet::Binary })
    );
    assert_eq!(
        LockResult::decode(&[9]),
        Err(DecodeError::UnexpectedValue { value: 9, expected: ValueSet::Binary })
    );
    assert_eq!(LockResult::decode(&[]), Err(DecodeError::PacketTooShort));
}

#[test]
fn command_frame_bytes() {
    assert_eq!(
        encode_command(0xF0, 0x10, &[]),
        vec![0xC9, 0x36, 0xB8, 0x47, 0xF0, 0x10, 0x00, 0x0C, 0x37]
    );
    assert_eq!(
        encode_command(0xF0, 0x30, &[0, 0xF4, 0x01, 0, 0]),
        vec![0xC9, 0x36, 0xB8, 0x47, 0xF0, 0x30, 0x05, 0, 0xF4, 0x01, 0, 0, 0xB9, 0x94]
    );
}

#[test]
fn command_frame_round_trip() {
    let payload: Vec<u8> = (0..200u32).map(|i| i as u8).collect();
    let bytes = encode_command(0xF0, 0x21, &payload);
    let f = decode_command(&bytes).unwrap();
    assert_eq!(f.id, 0xF0);
    assert_eq!(f.ext_id, 0x21);
    assert_eq!(f.payload, payload);
    assert_eq!(decode_command(&bytes[..bytes.len() - 1]), Err(DecodeError::PacketTooShort));
    assert_eq!(decode_command(&[0xC9, 0x36, 0xB8, 0x48, 0, 0, 0]), Err(DecodeError::InvalidHeader));
}

#[test]
fn reply_frame_bytes() {
    assert_eq!(
        encode_reply(0xF0, 0x10, 0x76, &[0x00]),
        vec![0xAA, 0x55, 0xF0, 0x05, 0x10, 0x76, 0x00, 0x67, 0x5B]
    );
}

#[test]
fn reply_frame_round_trip() {
    let payload: Vec<u8> = (0..300u32).map(|i| (i * 7) as u8).collect();
    let bytes = encode_reply(0xF0, 0x01, 0x76, &payload);
    assert!(reply_matches(&bytes, 0xF0, 0x01));
    assert!(!reply_matches(&bytes, 0xF0, 0x02));
    let f = decode_reply(&bytes, 0xF0, 0x01).unwrap();
    assert_eq!(f.ack, 0x76);
    assert_eq!(f.payload, payload);
    assert_eq!(reply_result(&f), Ok(payload.clone()));
    assert_eq!(next_frame(&bytes), FrameStep::Frame(bytes.len()));
}

#[test]
fn reply_frame_errors() {
    let good = encode_reply(0xF0, 0x10, 0x76, &[0x01]);
    assert_eq!(decode_reply(&good, 0xF1, 0x10).err(), Some(DecodeError::InvalidHeader));
    assert_eq!(decode_reply(&good, 0xF0, 0x11).err(), Some(DecodeError::InvalidHeader));
    assert_eq!(decode_reply(&good[..good.len() - 1], 0xF0, 0x10).err(), Some(DecodeError::PacketTooShort));
    let mut noisy = good.clone();
    noisy[0] = 0xAB;
    assert_eq!(decode_reply(&noisy, 0xF0, 0x10).err(), Some(DecodeError::InvalidHeader));
    assert_eq!(decode_reply(&[0xAA], 0xF0, 0x10).err(), Some(DecodeError::PacketTooShort));
    let bad_ack = encode_reply(0xF0, 0x10, 0x42, &[0x01]);
    match decode_reply(&bad_ack, 0xF0, 0x10) {
        Err(DecodeError::UnexpectedValue { value, expected }) => {
            assert_eq!(value, 0x42);
            assert_eq!(expected, ValueSet::AckCodes);
            assert!(expected.values().contains(&0x76));
            assert!(!expected.values().contains(&0x42));
        }
        other => panic!("unexpected {:?}", other),
    }
}

#[test]
fn reply_nack_is_data() {
    let bytes = encode_reply(0xF0, 0x30, 0xFF, &[]);
    let f = decode_reply(&bytes, 0xF0, 0x30).unwrap();
    assert_eq!(reply_result(&f), Err(0xFF));
}

#[test]
fn stream_framing_steps() {
    assert_eq!(next_frame(&[0xAA]), FrameStep::NeedMore);
    assert_eq!(next_frame(&[0xAA, 0xAA, 0x55]), FrameStep::Discard(2));
    assert_eq!(next_frame(&[0xAA, 0x55, 0xF0]), FrameStep::NeedMore);
    assert_eq!(next_frame(&[0xAA, 0x55, 0xF0, 0x80]), FrameStep::NeedMore);
    assert_eq!(next_frame(&[0xAA, 0x55, 0xF0, 0x02, 0x10]), FrameStep::NeedMore);
    assert_eq!(next_frame(&[0xAA, 0x55, 0xF0, 0x02, 0x10, 0x76, 0x00]), FrameStep::Frame(6));
}

#[test]
fn value_sets() {
    assert_eq!(ValueSet::LinkType.values(), vec![0, 1, 255]);
    assert_eq!(ValueSet::LinkTypes.values(), vec![0, 1, 2, 3]);
    assert_eq!(ValueSet::Binary.values(), vec![0, 1]);
    assert_eq!(ValueSet::AckCodes.values().len(), 18);
}
