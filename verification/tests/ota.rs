use fin_esp::ota::{OtaAction, OtaEvent, OtaReply, OtaSession, OtaState};

fn begun(len: u32) -> OtaSession {
    let mut s = OtaSession::new();
    assert_eq!(
        s.handle_client(OtaEvent::Length(Some(len.to_be_bytes()))),
        OtaAction::FindPartition
    );
    assert_eq!(
        s.handle_client(OtaEvent::Partition(true)),
        OtaAction::Begin { len: len as usize }
    );
    assert_eq!(s.handle_client(OtaEvent::Begun(true)), OtaAction::Reserve { len: 4096 });
    s
}

#[test]
fn a_whole_image_boots() {
    let mut s = begun(5_000);
    assert_eq!(s.handle_client(OtaEvent::Buffer(true)), OtaAction::Receive { most: 4096 });
    assert_eq!(s.handle_client(OtaEvent::Received(Some(4096))), OtaAction::Write { n: 4096 });
    assert_eq!(s.handle_client(OtaEvent::Written(true)), OtaAction::Receive { most: 904 });
    assert_eq!(s.handle_client(OtaEvent::Received(Some(900))), OtaAction::Write { n: 900 });
    assert_eq!(s.handle_client(OtaEvent::Written(true)), OtaAction::Receive { most: 4 });
    assert_eq!(s.handle_client(OtaEvent::Received(Some(4))), OtaAction::Write { n: 4 });
    assert_eq!(s.handle_client(OtaEvent::Written(true)), OtaAction::End);
    assert_eq!(s.handle_client(OtaEvent::Ended(true)), OtaAction::SetBoot);
    assert_eq!(s.handle_client(OtaEvent::BootSet(true)), OtaAction::Restart);
    assert_eq!(s.written, 5_000);
    assert_eq!(OtaReply::Rebooting.text(), "OK: rebooting\n");
}

#[test]
fn an_empty_image_is_finished_at_once() {
    let mut s = begun(0);
    assert_eq!(s.handle_client(OtaEvent::Buffer(true)), OtaAction::End);
}

fn refused(abort: bool, reply: OtaReply) -> OtaAction {
    OtaAction::Refuse { abort, reply }
}

#[test]
fn failures_before_the_image_need_no_abort() {
    let mut s = OtaSession::new();
    assert_eq!(s.handle_client(OtaEvent::Length(None)), refused(false, OtaReply::NoLength));
    assert_eq!(s.state, OtaState::Over);
    let mut s = OtaSession::new();
    s.handle_client(OtaEvent::Length(Some([0, 0, 1, 0])));
    assert_eq!(s.expected, 256);
    assert_eq!(s.handle_client(OtaEvent::Partition(false)), refused(false, OtaReply::NoPartition));
    let mut s = OtaSession::new();
    s.handle_client(OtaEvent::Length(Some([1, 2, 3, 4])));
    assert_eq!(s.expected, 0x0102_0304);
    s.handle_client(OtaEvent::Partition(true));
    assert_eq!(s.handle_client(OtaEvent::Begun(false)), refused(false, OtaReply::BeginFailed));
}

#[test]
fn failures_in_the_image_abort_it() {
    let mut s = begun(10);
    assert_eq!(s.handle_client(OtaEvent::Buffer(false)), refused(true, OtaReply::HeapTooLow));
    let mut s = begun(10);
    s.handle_client(OtaEvent::Buffer(true));
    assert_eq!(s.handle_client(OtaEvent::Received(Some(0))), refused(true, OtaReply::WriteFailed));
    let mut s = begun(10);
    s.handle_client(OtaEvent::Buffer(true));
    assert_eq!(s.handle_client(OtaEvent::Received(None)), refused(true, OtaReply::WriteFailed));
    let mut s = begun(10);
    s.handle_client(OtaEvent::Buffer(true));
    s.handle_client(OtaEvent::Received(Some(3)));
    assert_eq!(s.handle_client(OtaEvent::Written(false)), refused(true, OtaReply::WriteFailed));
}

#[test]
fn failures_behind_the_image_need_no_abort() {
    let mut s = begun(0);
    s.handle_client(OtaEvent::Buffer(true));
    assert_eq!(s.handle_client(OtaEvent::Ended(false)), refused(false, OtaReply::EndFailed));
    let mut s = begun(0);
    s.handle_client(OtaEvent::Buffer(true));
    s.handle_client(OtaEvent::Ended(true));
    assert_eq!(s.handle_client(OtaEvent::BootSet(false)), refused(false, OtaReply::BootFailed));
}

#[test]
fn replies_are_lines() {
    let cases = [
        (OtaReply::NoLength, "ERR: read length\n"),
        (OtaReply::NoPartition, "ERR: no OTA partition\n"),
        (OtaReply::BeginFailed, "ERR: ota begin\n"),
        (OtaReply::HeapTooLow, "ERR: heap too low for recv buffer\n"),
        (OtaReply::WriteFailed, "ERR: write failed\n"),
        (OtaReply::EndFailed, "ERR: ota end\n"),
        (OtaReply::BootFailed, "ERR: set boot partition\n"),
    ];
    for (reply, text) in cases {
        assert_eq!(reply.text(), text);
    }
}
