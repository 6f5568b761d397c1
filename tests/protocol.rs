use v5d::error::{ConnectionError, DecodeError, ValueSet};
use v5d::frame::{decode_command, encode_reply, ReplyFrame};
use v5d::handshake::{Handshake, HandshakeAction};
use v5d::packets::{ConnectionTypes, LockAction};
use v5d::sharing::{
    LockConnection, ReleaseConnection, StartConnection, StartFlow, StartStage, StartStep, BLE_PIN,
    CONNECT_REQUEST, CON_LOCK, CON_TYPE, NACK,
};
use v5d::frame::decode_reply;
use v5d::transport::{ConnectionType, DaemonConnection};

fn frame(ext: u8, ack: u8, payload: &[u8]) -> ReplyFrame {
    decode_reply(&encode_reply(0xF0, ext, ack, payload), 0xF0, ext).unwrap()
}

#[test]
fn handshake_sends_n_times_on_timeouts() {
    let mut h = Handshake::start(3);
    assert_eq!(h.attempts_made(), 1);
    let mut sends = 1;
    loop {
        match h.on_outcome::<ReplyFrame, ConnectionError>(Err(ConnectionError::Timeout)) {
            HandshakeAction::Send => sends += 1,
            HandshakeAction::Done(r) => {
                assert_eq!(r.err(), Some(ConnectionError::Timeout));
                break;
            }
        }
    }
    assert_eq!(sends, 3);
    assert!(h.is_done());
    assert_eq!(h.attempts_made(), 3);
}

#[test]
fn handshake_stops_at_first_reply() {
    let mut h = Handshake::start(5);
    assert!(matches!(
        h.on_outcome::<ReplyFrame, ConnectionError>(Err(ConnectionError::Timeout)),
        HandshakeAction::Send
    ));
    let nack = frame(CON_LOCK, 0xFF, &[]);
    match h.on_outcome::<ReplyFrame, ConnectionError>(Ok(nack.clone())) {
        HandshakeAction::Done(Ok(f)) => assert_eq!(f, nack),
        _ => panic!("handshake went on"),
    }
    assert_eq!(h.attempts_made(), 2);
}

#[test]
fn lock_request_bytes() {
    let q = LockConnection { lock_timeout: Some(500) }.request();
    assert_eq!(q.ext_id, CON_LOCK);
    assert_eq!(q.payload, LockAction::Lock { timeout: 500 }.encode());
    assert_eq!(q.timeout_ms, Some(500));
    assert_eq!(q.max_attempts, 1);
    let f = decode_command(&q.encode()).unwrap();
    assert_eq!(f.ext_id, CON_LOCK);
    assert_eq!(f.payload, vec![0, 0xF4, 0x01, 0, 0]);
    let unbounded = LockConnection { lock_timeout: None }.request();
    assert_eq!(unbounded.payload, vec![0, 0, 0, 0, 0]);
    assert_eq!(unbounded.timeout_ms, None);
    // A timeout of 0 means no limit: the reply is awaited without one.
    let zero = LockConnection { lock_timeout: Some(0) }.request();
    assert_eq!(zero.payload, vec![0, 0, 0, 0, 0]);
    assert_eq!(zero.timeout_ms, None);
}

#[test]
fn lock_outcomes() {
    let c = LockConnection { lock_timeout: Some(10) };
    assert_eq!(c.finish(Ok(frame(CON_LOCK, 0x76, &[0]))), Ok(()));
    assert_eq!(c.finish(Ok(frame(CON_LOCK, 0x76, &[1]))), Err(ConnectionError::LockTimeout));
    assert_eq!(c.finish(Ok(frame(CON_LOCK, 0xD0, &[0]))), Err(ConnectionError::Nack(0xD0)));
    assert_eq!(
        c.finish(Ok(frame(CON_LOCK, 0x76, &[7]))),
        Err(ConnectionError::Decode(DecodeError::UnexpectedValue { value: 7, expected: ValueSet::Binary }))
    );
    assert_eq!(
        c.finish(Ok(frame(CON_LOCK, 0x76, &[]))),
        Err(ConnectionError::Decode(DecodeError::PacketTooShort))
    );
    assert_eq!(c.finish(Err(ConnectionError::Timeout)), Err(ConnectionError::Timeout));
}

#[test]
fn release_request_and_outcome() {
    let q = ReleaseConnection.request();
    assert_eq!(q.ext_id, CON_LOCK);
    assert_eq!(q.payload, vec![1]);
    assert_eq!(q.timeout_ms, Some(100));
    assert_eq!(ReleaseConnection.finish(Ok(frame(CON_LOCK, 0xFF, &[]))), Ok(()));
    assert_eq!(ReleaseConnection.finish(Err(ConnectionError::Timeout)), Err(ConnectionError::Timeout));
}

fn start(pin: Option<[u8; 4]>) -> (StartFlow, v5d::sharing::Request) {
    StartFlow::begin(StartConnection {
        lock_timeout: Some(500),
        prefered_connection_types: ConnectionTypes::all(),
        bluetooth_pin: pin,
    })
}

fn run(step: StartStep) -> v5d::sharing::Request {
    match step {
        StartStep::Run(q) => q,
        StartStep::Finished(r) => panic!("finished early: {:?}", r),
    }
}

#[test]
fn start_already_connected_locks() {
    let (mut flow, q) = start(None);
    assert_eq!(q.ext_id, CON_TYPE);
    assert_eq!(q.timeout_ms, Some(100));
    let q = run(flow.on_outcome(Ok(frame(CON_TYPE, 0x76, &[0]))));
    assert_eq!(flow.stage(), StartStage::Lock);
    assert_eq!(q.ext_id, CON_LOCK);
    match flow.on_outcome(Ok(frame(CON_LOCK, 0x76, &[0]))) {
        StartStep::Finished(r) => assert_eq!(r, Ok(())),
        StartStep::Run(_) => panic!("expected the end"),
    }
    assert_eq!(flow.stage(), StartStage::Finished);
}

#[test]
fn start_bluetooth_with_pin() {
    let (mut flow, _) = start(Some([1, 2, 3, 4]));
    let q = run(flow.on_outcome(Ok(frame(CON_TYPE, 0x76, &[255]))));
    assert_eq!(q.ext_id, CONNECT_REQUEST);
    assert_eq!(q.payload, vec![3]);
    assert_eq!(q.timeout_ms, Some(5000));
    assert_eq!(q.max_attempts, 3);
    let q = run(flow.on_outcome(Ok(frame(CONNECT_REQUEST, 0x76, &[1]))));
    assert_eq!(q.ext_id, BLE_PIN);
    assert_eq!(q.payload, vec![1, 2, 3, 4]);
    let q = run(flow.on_outcome(Ok(frame(BLE_PIN, 0x76, &[0]))));
    assert_eq!(q.ext_id, CON_LOCK);
    match flow.on_outcome(Ok(frame(CON_LOCK, 0x76, &[1]))) {
        StartStep::Finished(r) => assert_eq!(r, Err(ConnectionError::LockTimeout)),
        StartStep::Run(_) => panic!("expected the end"),
    }
}

#[test]
fn start_refusals() {
    let (mut flow, _) = start(Some([1, 2, 3, 4]));
    run(flow.on_outcome(Ok(frame(CON_TYPE, 0x76, &[255]))));
    run(flow.on_outcome(Ok(frame(CONNECT_REQUEST, 0x76, &[1]))));
    match flow.on_outcome(Ok(frame(BLE_PIN, 0x76, &[1]))) {
        StartStep::Finished(r) => assert_eq!(r, Err(ConnectionError::Nack(NACK))),
        StartStep::Run(_) => panic!("a wrong PIN went on"),
    }
    let (mut flow, _) = start(None);
    run(flow.on_outcome(Ok(frame(CON_TYPE, 0x76, &[255]))));
    match flow.on_outcome(Ok(frame(CONNECT_REQUEST, 0x76, &[1]))) {
        StartStep::Finished(r) => assert_eq!(r, Err(ConnectionError::Nack(NACK))),
        StartStep::Run(_) => panic!("Bluetooth without a PIN went on"),
    }
    let (mut flow, _) = start(None);
    run(flow.on_outcome(Ok(frame(CON_TYPE, 0x76, &[255]))));
    let q = run(flow.on_outcome(Ok(frame(CONNECT_REQUEST, 0x76, &[0]))));
    assert_eq!(q.ext_id, CON_LOCK);
    let (mut flow, _) = start(None);
    match flow.on_outcome(Err(ConnectionError::Timeout)) {
        StartStep::Finished(r) => assert_eq!(r, Err(ConnectionError::Timeout)),
        StartStep::Run(_) => panic!("an error went on"),
    }
    let (mut flow, _) = start(None);
    match flow.on_outcome(Ok(frame(CON_TYPE, 0xCE, &[]))) {
        StartStep::Finished(r) => assert_eq!(r, Err(ConnectionError::Nack(0xCE))),
        StartStep::Run(_) => panic!("a NACK went on"),
    }
}

#[test]
fn transport_send_packet() {
    let c = DaemonConnection::new(ConnectionType::Wired);
    let q = ReleaseConnection.request();
    let bytes = c.send_packet(&q);
    let f = decode_command(&bytes).unwrap();
    assert_eq!(f.id, 0xF0);
    assert_eq!(f.payload, vec![1]);
}

#[test]
fn start_lock_step_matches_lock_command() {
    let (mut flow, _) = start(None);
    run(flow.on_outcome(Ok(frame(CON_TYPE, 0x76, &[1]))));
    let bad = frame(CON_LOCK, 0x76, &[9]);
    let expected = LockConnection { lock_timeout: Some(500) }.finish(Ok(bad.clone()));
    match flow.on_outcome(Ok(bad)) {
        StartStep::Finished(r) => assert_eq!(r, expected),
        StartStep::Run(_) => panic!("expected the end"),
    }
}
