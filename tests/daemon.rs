use v5d::lease::{Lease, LeaseDecision, Waiter};
use v5d::session::{
    frame_message, next_frame_len, DaemonCommand, DaemonResponse, RemoteError, Session,
    SessionState, TransferProgress, TransferProgressResponse, UploadStep,
};
use v5d::upload::{AfterUpload, ProgramData, UploadProgramOpts};

#[test]
fn second_lock_waits_then_times_out() {
    let mut lease = Lease::new();
    assert_eq!(lease.request(1, 0, 0), LeaseDecision::Granted);
    assert_eq!(lease.request(2, 500, 0), LeaseDecision::Queued);
    assert_eq!(lease.holder(), Some(1));
    assert!(lease.expire(499).is_empty());
    assert_eq!(lease.expire(500), vec![Waiter { holder: 2, deadline: Some(500) }]);
    assert_eq!(lease.holder(), Some(1));
    assert_eq!(lease.waiting_len(), 0);
}

#[test]
fn unbounded_lock_waits_for_release() {
    let mut lease = Lease::new();
    assert_eq!(lease.request(1, 0, 0), LeaseDecision::Granted);
    assert_eq!(lease.request(2, 0, 0), LeaseDecision::Queued);
    assert!(lease.expire(u64::MAX).is_empty());
    assert_eq!(lease.holder(), Some(1));
    assert_eq!(lease.release(2), None);
    assert_eq!(lease.holder(), Some(1));
    assert_eq!(lease.release(1), Some(2));
    assert_eq!(lease.holder(), Some(2));
    assert_eq!(lease.release(2), None);
    assert_eq!(lease.holder(), None);
}

#[test]
fn holder_relock_is_granted() {
    let mut lease = Lease::new();
    assert_eq!(lease.request(7, 100, 0), LeaseDecision::Granted);
    assert_eq!(lease.request(7, 100, 5), LeaseDecision::Granted);
    assert_eq!(lease.waiting_len(), 0);
}

#[test]
fn deadline_saturates() {
    let mut lease = Lease::new();
    lease.request(1, 0, 0);
    lease.request(2, 10, u64::MAX - 3);
    assert_eq!(lease.expire(u64::MAX), vec![Waiter { holder: 2, deadline: Some(u64::MAX) }]);
}

#[test]
fn device_commands_run_one_at_a_time() {
    // Two simple commands arrive together: the second waits for the first.
    let mut gate = Lease::new();
    assert_eq!(gate.request(1, 0, 0), LeaseDecision::Granted);
    assert_eq!(gate.request(2, 0, 0), LeaseDecision::Queued);
    assert_eq!(gate.holder(), Some(1));
    assert_eq!(gate.release(1), Some(2));
    assert_eq!(gate.holder(), Some(2));
}

#[test]
fn reconnect_waits_for_transfer() {
    let mut gate = Lease::new();
    let transfer = 10;
    let reconnect = 11;
    let tap = 12;
    assert_eq!(gate.request(transfer, 0, 0), LeaseDecision::Granted);
    assert_eq!(gate.request(reconnect, 0, 1), LeaseDecision::Queued);
    assert_eq!(gate.request(tap, 0, 2), LeaseDecision::Queued);
    assert_eq!(gate.holder(), Some(transfer));
    assert_eq!(gate.release(transfer), Some(reconnect));
    assert_eq!(gate.release(reconnect), Some(tap));
}

fn hot_upload() -> DaemonCommand {
    DaemonCommand::UploadProgram(UploadProgramOpts {
        name: "demo".to_string(),
        description: "Uploaded with v5d".to_string(),
        icon: "USER002x.bmp".to_string(),
        program_type: "Unknown".to_string(),
        slot: 1,
        compression: true,
        after_upload: AfterUpload::ShowScreen,
        data: ProgramData::HotCold { hot: Some(vec![0u8; 10]), cold: None },
    })
}

#[test]
fn upload_streams_progress_then_completes() {
    let mut s = Session::new();
    assert!(s.on_command(&hot_upload()));
    let mut frames = Vec::new();
    for percent in [0u16, 2500, 2500, 7000, 10000] {
        if let Some(f) = s.on_progress(TransferProgress { percent, step: UploadStep::Hot }) {
            frames.push(f);
        }
    }
    // A report that goes back is not sent on.
    assert_eq!(s.on_progress(TransferProgress { percent: 9000, step: UploadStep::Hot }), None);
    let done = s.on_finished(Ok(()));
    assert_eq!(done, DaemonResponse::TransferComplete(Ok(())));
    assert_eq!(s.state(), SessionState::Idle);
    assert!(!frames.is_empty());
    let mut last = 0u16;
    for f in &frames {
        match f {
            DaemonResponse::TransferProgress(p) => {
                assert_eq!(p.step, UploadStep::Hot);
                assert!(p.percent >= last);
                last = p.percent;
            }
            other => panic!("unexpected frame {:?}", other),
        }
    }
    assert_eq!(last, 10000);
}

#[test]
fn new_step_restarts_percent() {
    let mut s = Session::new();
    s.on_command(&hot_upload());
    assert!(s.on_progress(TransferProgress { percent: 10000, step: UploadStep::Ini }).is_some());
    assert!(s.on_progress(TransferProgress { percent: 0, step: UploadStep::Hot }).is_some());
}

#[test]
fn upload_failure_completes_with_message() {
    let mut s = Session::new();
    s.on_command(&hot_upload());
    let r = s.on_finished(Err(RemoteError::new("link lost".to_string())));
    assert_eq!(r, DaemonResponse::TransferComplete(Err("link lost".to_string())));
}

#[test]
fn simple_command_acknowledges() {
    let mut s = Session::new();
    assert!(!s.on_command(&DaemonCommand::MockTap { x: 10, y: 20 }));
    assert_eq!(s.state(), SessionState::Simple);
    assert_eq!(s.on_finished(Ok(())), DaemonResponse::BasicAck { successful: true });
    assert!(!s.on_command(&DaemonCommand::Reconnect));
    assert_eq!(
        s.on_finished(Err(RemoteError::new("device gone".to_string()))),
        DaemonResponse::BasicAck { successful: false }
    );
}

#[test]
fn progress_response_conversion() {
    let p = TransferProgress { percent: 1234, step: UploadStep::Cold };
    assert_eq!(TransferProgressResponse::Progress(p).into_response(), DaemonResponse::TransferProgress(p));
    let e = RemoteError::new("nope".to_string());
    assert_eq!(e.message(), "nope");
    assert_eq!(
        TransferProgressResponse::Complete(Err(e)).into_response(),
        DaemonResponse::TransferComplete(Err("nope".to_string()))
    );
}

#[test]
fn message_framing() {
    assert_eq!(frame_message(b"{}"), b"{}\n".to_vec());
    assert_eq!(next_frame_len(b"{\"a\":1}\n{"), Some(8));
    assert_eq!(next_frame_len(b"{\"a\":1}"), None);
    assert_eq!(next_frame_len(b"\n"), Some(1));
}
