use fin_esp::clock::{is_ahead, millis, ms_later, ms_since, now_ms};
use fin_esp::ir_remote::{
    digit_hue, pulse_at, read_nec_frame, step_brightness_temp, IrError, IrRemote, PULSES,
};
use fin_esp::media::{peek_volume_target, Targets};
use fin_esp::pulse::{collect, wait_while, Wait};
use fin_esp::tuya::{parse_dps20, power, Connect, LampHandle, LampState, LAMP_UNKNOWN};

fn lamp() -> LampHandle {
    LampHandle::new([192, 168, 1, 50], *b"0123456789abcdef")
}

fn dps(h: &LampHandle, now: u32) -> Option<String> {
    h.poll(now).map(|c| c.dps)
}

#[test]
fn a_new_lamp_wants_nothing() {
    let h = lamp();
    assert_eq!(h.port, 6668);
    assert_eq!(h.version, 5);
    assert!(!h.has_pending_target());
    assert!(h.poll(0).is_none());
    assert_eq!(h.display_state(), LampState { on: false, known: false });
    assert_eq!(h.brightness_pct(), LAMP_UNKNOWN);
    assert_eq!(h.temp_pct(), LAMP_UNKNOWN);
    assert!(h.refresh_due(0));
}

#[test]
fn commands_have_their_data_points() {
    let mut h = lamp();
    h.queue_on(0);
    assert_eq!(dps(&h, 0).as_deref(), Some(r#""20":true"#));
    h.queue_off(0);
    assert_eq!(dps(&h, 0).as_deref(), Some(r#""20":false"#));
    h.queue_warm_dim(0);
    assert_eq!(dps(&h, 0).as_deref(), Some(r#""20":true,"21":"white","22":10,"23":0"#));
    h.queue_bright_white(0);
    assert_eq!(dps(&h, 0).as_deref(), Some(r#""20":true,"21":"white","22":1000,"23":1000"#));
    h.queue_brightness_temp(505, 20, 0);
    assert_eq!(dps(&h, 0).as_deref(), Some(r#""20":true,"21":"white","22":505,"23":20"#));
    h.queue_colour(240, 1000, 26, 0);
    assert_eq!(dps(&h, 0).as_deref(), Some(r#""20":true,"21":"colour","24":"00f003e8001a""#));
    assert_eq!(h.apply_brightness(3), r#""22":10"#);
    assert_eq!(h.apply_brightness(400), r#""22":400"#);
    assert_eq!(h.apply_brightness(5000), r#""22":1000"#);
}

#[test]
fn toggling_flips_what_is_on_its_way() {
    let mut h = lamp();
    assert!(h.flip_target(false, 5));
    assert_eq!(h.target, 1);
    assert!(!h.flip_target(false, 6));
    assert_eq!(h.target, -1);
    assert!(h.flip_target(true, 7));
    h.queue_colour(0, 0, 0, 7);
    assert!(!h.flip_target(false, 8));
    let mut h = lamp();
    assert!(!h.flip_target(true, 5));
    assert_eq!(h.display_state(), LampState { on: false, known: true });
}

#[test]
fn a_request_is_shown_before_it_is_confirmed() {
    let mut h = lamp();
    h.queue_warm_dim(0);
    assert_eq!(h.display_state(), LampState { on: true, known: true });
    assert!(h.poll_done(2, true, 10));
    assert!(!h.has_pending_target());
    assert_eq!(h.display_state(), LampState { on: true, known: true });
    h.refresh(Some(false));
    assert_eq!(h.display_state(), LampState { on: false, known: true });
    h.refresh(None);
    assert_eq!(h.display_state(), LampState { on: false, known: true });
}

#[test]
fn a_newer_request_survives() {
    let mut h = lamp();
    h.queue_on(0);
    let sent = h.poll(0).unwrap().target;
    h.queue_off(1);
    assert!(h.poll_done(sent, true, 2));
    assert_eq!(h.target, -1);
    assert_eq!(h.display_state(), LampState { on: false, known: true });
}

#[test]
fn a_failed_command_waits_five_seconds() {
    let mut h = lamp();
    h.queue_on(1_000);
    assert!(!h.poll_done(1, false, 1_000));
    assert!(h.poll(5_999).is_none());
    assert!(h.poll(6_000).is_some());
    // A new request does not wait.
    h.queue_off(2_000);
    assert!(h.poll(2_000).is_some());
}

#[test]
fn the_lamp_is_not_asked_right_after_a_request() {
    let mut h = lamp();
    h.queue_on(1_000);
    assert!(!h.refresh_due(10_999));
    assert!(h.refresh_due(11_000));
    h.poll_done(1, true, 2_000);
    assert!(!h.refresh_due(6_999));
    assert!(h.refresh_due(7_000));
}

#[test]
fn sessions_end_on_failure() {
    let mut h = lamp();
    assert!(!h.connect_if_needed(Connect::Refused));
    assert!(!h.connect_if_needed(Connect::NoKey));
    assert_eq!(h.do_query_status(Some(r#"{"dps":{"20":true}}"#)), None);
    assert_eq!(h.do_send_dps(true), None);
    assert!(h.connect_if_needed(Connect::Ready));
    assert!(h.connect_if_needed(Connect::Refused));
    assert_eq!(h.do_query_status(Some(r#"{"dps":{"20":true}}"#)), Some(true));
    assert_eq!(h.do_send_dps(true), Some(()));
    assert!(h.connected);
    assert_eq!(h.do_query_status(None), None);
    assert!(!h.connected);
    h.connect_if_needed(Connect::Ready);
    assert_eq!(h.do_send_dps(false), None);
    assert!(!h.connected);
}

#[test]
fn status_replies_come_in_two_shapes() {
    assert_eq!(parse_dps20(r#"{"dps":{"20":false}}"#), Some(false));
    assert_eq!(parse_dps20(r#"{"data":{"dps":{"20":true}}}"#), Some(true));
    assert_eq!(parse_dps20(r#"{"dps":{"20":1}}"#), Some(true));
    assert_eq!(parse_dps20(r#"{"dps":{"20":0}}"#), Some(false));
    assert_eq!(parse_dps20(r#"{"dps":{"21":1},"data":{"dps":{"20":0}}}"#), Some(false));
    // What stands first counts, even if it says nothing.
    assert_eq!(parse_dps20(r#"{"dps":{"20":"on"},"data":{"dps":{"20":true}}}"#), None);
    assert_eq!(parse_dps20("{}"), None);
    assert_eq!(parse_dps20("junk"), None);
    assert_eq!(power(Some(false), Some(1)), Some(false));
    assert_eq!(power(None, Some(-3)), Some(true));
    assert_eq!(power(None, None), None);
}

#[test]
fn percentages_come_back() {
    let mut h = lamp();
    for pct in [0u32, 1, 33, 50, 99, 100] {
        h.queue_brightness_temp((pct * 990 / 100 + 10) as u16, (pct * 10) as u16, 0);
        assert_eq!(h.temp_pct(), pct as u16);
        assert!(h.brightness_pct() as u32 <= 100);
    }
    h.queue_brightness_temp(1000, 0, 0);
    assert_eq!(h.brightness_pct(), 100);
    h.queue_brightness_temp(10, 0, 0);
    assert_eq!(h.brightness_pct(), 0);
}

#[test]
fn the_clock_wraps() {
    assert_eq!(now_ms(1_234_567), 1_234);
    assert_eq!(now_ms(0x1_0000_0000 * 1000 + 5_000), 5);
    assert_eq!(millis(1_234_567), 1_234);
    assert_eq!(ms_since(5, u32::MAX), 6);
    assert_eq!(ms_later(u32::MAX, 6), 5);
    assert!(is_ahead(u32::MAX - 1, 5));
    assert!(!is_ahead(5, u32::MAX - 1));
    assert!(!is_ahead(7, 7));
}

/// The pulses of a frame with these four bytes, least significant bit first.
fn frame(bytes: [u8; 4]) -> Vec<Option<i64>> {
    let mut p = vec![Some(9_000), Some(4_500)];
    for b in bytes {
        for k in 0..8 {
            p.push(Some(562));
            p.push(Some(if b >> k & 1 == 1 { 1_687 } else { 562 }));
        }
    }
    p
}

#[test]
fn frames_come_back() {
    for (a, c) in [(0x00, 0x45), (0x5A, 0xFF), (0xFF, 0x00)] {
        let p = frame([a, !a, c, !c]);
        assert_eq!(p.len(), PULSES);
        assert_eq!(read_nec_frame(&p), Ok((a, c)));
    }
}

#[test]
fn broken_frames_are_refused() {
    assert_eq!(read_nec_frame(&frame([1, 0xFF, 2, !2])), Err(IrError::ChecksumMismatch));
    assert_eq!(read_nec_frame(&frame([1, !1, 2, 2])), Err(IrError::ChecksumMismatch));
    let mut p = frame([1, !1, 2, !2]);
    p[40] = None;
    assert_eq!(read_nec_frame(&p), Err(IrError::Timeout));
    // A repeat code times out in its header.
    let mut p = frame([1, !1, 2, !2]);
    p[0] = None;
    assert_eq!(read_nec_frame(&p), Err(IrError::Timeout));
    // The limit is exclusive.
    let mut p = frame([0, 0xFF, 0, 0xFF]);
    p[3] = Some(1_000);
    assert_eq!(read_nec_frame(&p), Ok((0, 0)));
}

#[test]
fn pulses_alternate() {
    assert_eq!(pulse_at(0), (false, 11_000));
    assert_eq!(pulse_at(1), (true, 6_000));
    assert_eq!(pulse_at(2), (false, 700));
    assert_eq!(pulse_at(3), (true, 2_200));
    assert_eq!(pulse_at(64), (false, 700));
    assert_eq!(wait_while(true, true, 5, 10), Wait::Again);
    assert_eq!(wait_while(false, true, 5, 10), Wait::Done(5));
    assert_eq!(wait_while(true, true, 11, 10), Wait::Timeout);
    assert_eq!(wait_while(true, true, 10, 10), Wait::Again);
    assert_eq!(wait_while(false, true, 11, 10), Wait::Done(11));
    assert_eq!(collect(&[Some(1), Some(2)]), Some(vec![1, 2]));
    assert_eq!(collect(&[Some(1), None]), None);
}

#[test]
fn echoes_are_dropped() {
    let mut r = IrRemote::new();
    assert_eq!(r.decode_status(), (0, 0xFFFF));
    assert!(r.receive(0, 0x45, 10_000));
    assert!(!r.receive(0, 0x45, 10_299));
    assert!(!r.receive(0, 0x45, 10_500));
    assert!(r.receive(0, 0x46, 10_501));
    assert!(r.receive(0, 0x45, 10_502));
    assert!(r.receive(0, 0x45, 10_802));
    assert_eq!(r.decode_status(), (6, 0x0045));
}

fn press(r: &mut IrRemote, h: &mut LampHandle, v: &mut Targets<u8>, command: u8) -> bool {
    let mut ready = false;
    r.dispatch(command, h, v, &mut ready, 0);
    ready
}

#[test]
fn keys_do_what_they_say() {
    let (mut r, mut h, mut v) = (IrRemote::new(), lamp(), Targets::new());
    assert!(!press(&mut r, &mut h, &mut v, 0x45));
    assert_eq!(h.target, 1);
    press(&mut r, &mut h, &mut v, 0x16);
    assert_eq!(h.target, 2);
    press(&mut r, &mut h, &mut v, 0x0D);
    assert_eq!(h.target, 3);
    press(&mut r, &mut h, &mut v, 0x18);
    assert_eq!((h.target, h.last_brightness, h.last_temp), (4, 580, 500));
    press(&mut r, &mut h, &mut v, 0x52);
    press(&mut r, &mut h, &mut v, 0x52);
    assert_eq!(h.last_brightness, 420);
    assert!(press(&mut r, &mut h, &mut v, 0x19));
    press(&mut r, &mut h, &mut v, 0x5A);
    assert_eq!(peek_volume_target(&v, "silent-ms7e56"), Some(87));
    press(&mut r, &mut h, &mut v, 0x08);
    press(&mut r, &mut h, &mut v, 0x08);
    assert_eq!(peek_volume_target(&v, "silent-ms7e56"), Some(65));
    let before = h.target;
    assert!(!press(&mut r, &mut h, &mut v, 0x1C));
    assert!(!press(&mut r, &mut h, &mut v, 0xEE));
    assert_eq!(h.target, before);
}

#[test]
fn brightness_keeps_a_colour() {
    let (mut r, mut h, mut v) = (IrRemote::new(), lamp(), Targets::new());
    press(&mut r, &mut h, &mut v, 0x15);
    assert_eq!((h.target, h.colour), (5, (240, 1000, 1000)));
    press(&mut r, &mut h, &mut v, 0x52);
    assert_eq!((h.target, h.colour), (5, (240, 1000, 920)));
    press(&mut r, &mut h, &mut v, 0x18);
    press(&mut r, &mut h, &mut v, 0x18);
    assert_eq!(h.colour, (240, 1000, 1000));
    press(&mut r, &mut h, &mut v, 0x16);
    press(&mut r, &mut h, &mut v, 0x18);
    assert_eq!(h.target, 4);
}

#[test]
fn steps_stay_in_range() {
    let (mut r, mut h, mut v) = (IrRemote::new(), lamp(), Targets::new());
    for _ in 0..20 {
        press(&mut r, &mut h, &mut v, 0x52);
        press(&mut r, &mut h, &mut v, 0x08);
    }
    assert_eq!(h.last_brightness, 10);
    assert_eq!(peek_volume_target(&v, "silent-ms7e56"), Some(0));
    for _ in 0..20 {
        press(&mut r, &mut h, &mut v, 0x18);
        press(&mut r, &mut h, &mut v, 0x5A);
    }
    assert_eq!(h.last_brightness, 1000);
    assert_eq!(peek_volume_target(&v, "silent-ms7e56"), Some(153));
    step_brightness_temp(&mut h, -2_000, -2_000, 0);
    assert_eq!((h.last_brightness, h.last_temp), (10, 0));
    r.step_colour_value(&mut h, -5_000, 0);
    assert_eq!(h.colour.2, 10);
    r.step_desktop_volume(&mut v, -1);
    assert_eq!(r.desktop_volume, 152);
}

#[test]
fn digits_have_colours() {
    let codes = [0x46, 0x47, 0x44, 0x40, 0x43, 0x07, 0x15, 0x09];
    for (i, c) in codes.iter().enumerate() {
        assert_eq!(digit_hue(*c), Some(i as u16 * 40));
    }
    assert_eq!(digit_hue(0x45), None);
    assert_eq!(digit_hue(0x19), None);
}
