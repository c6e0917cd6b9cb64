use fin_esp::led::LedState;
use fin_esp::media::{
    free_slot, handle_mic_line, peek_volume_target, queue_media_for_machine,
    queue_volume_for_machine, room_for_id, take_media_target, MediaConn, MicInput, MicLines, Targets,
    TURNS,
};
use fin_esp::tuya::{LampHandle, LampState};

#[test]
fn a_request_is_served_once() {
    let mut t: Targets<bool> = Targets::new();
    assert!(!take_media_target(&mut t, "desk"));
    queue_media_for_machine(&mut t, "desk");
    queue_media_for_machine(&mut t, "desk");
    assert!(!take_media_target(&mut t, "laptop"));
    assert!(take_media_target(&mut t, "desk"));
    assert!(!take_media_target(&mut t, "desk"));
    queue_media_for_machine(&mut t, "desk");
    assert!(take_media_target(&mut t, "desk"));
}

#[test]
fn volumes_stay_apart() {
    let mut t: Targets<u8> = Targets::new();
    assert_eq!(peek_volume_target(&t, "desk"), None);
    queue_volume_for_machine(&mut t, "desk", 10);
    queue_volume_for_machine(&mut t, "laptop", 20);
    queue_volume_for_machine(&mut t, "desk", 30);
    assert_eq!(peek_volume_target(&t, "desk"), Some(30));
    assert_eq!(peek_volume_target(&t, "laptop"), Some(20));
    assert_eq!(t.get("other"), None);
    t.set("other", 1);
    assert_eq!(t.get("other"), Some(1));
}

fn named(name: &str) -> MediaConn {
    let mut c = MediaConn::new(255);
    assert!(!c.read(format!("id:{name}\n").as_bytes(), true));
    assert!(c.identified);
    c
}

#[test]
fn machines_name_themselves() {
    let mut c = MediaConn::new(255);
    assert!(!c.read(b" id:sil", true));
    assert!(!c.identified);
    assert!(!c.read(b"ent \r\n", true));
    assert!(c.identified);
    assert_eq!(c.machine_id, "silent");
    assert_eq!(named("café").machine_id, "café");
}

#[test]
fn bad_handshakes_are_dropped() {
    for bad in [&b"id:\n"[..], b"name\n", b"\n", b"id:\xFF\n", b"id: \n"] {
        let mut c = MediaConn::new(255);
        assert!(c.read(bad, true));
        assert!(!c.identified);
    }
    let mut c = MediaConn::new(255);
    assert!(c.read(b"id:desk\n", false));
    assert!(!c.identified);
    let mut c = MediaConn::new(255);
    assert!(!c.read(&[b'x'; 128], true));
    assert!(c.read(b"x", true));
    assert!(room_for_id(512) && !room_for_id(511));
}

#[test]
fn play_pause_goes_to_the_owner() {
    let desk = named("desk");
    let laptop = named("laptop");
    let owner = Some("desk".to_string());
    let mut ready = true;
    assert_eq!(laptop.owner_message(&owner, &mut ready), None);
    assert!(ready);
    assert_eq!(desk.owner_message(&owner, &mut ready).as_deref(), Some("p\n"));
    assert!(!ready);
    assert_eq!(desk.owner_message(&owner, &mut ready), None);
    ready = true;
    assert_eq!(desk.owner_message(&None, &mut ready), None);
    let mut t = Targets::new();
    queue_media_for_machine(&mut t, "laptop");
    assert_eq!(desk.target_message(&mut t), None);
    assert_eq!(laptop.target_message(&mut t).as_deref(), Some("p\n"));
    assert_eq!(laptop.target_message(&mut t), None);
}

#[test]
fn volumes_are_sent_when_they_change() {
    let mut c = named("desk");
    assert_eq!(c.common_volume_message(255), None);
    assert_eq!(c.common_volume_message(153).as_deref(), Some("v:100\n"));
    assert_eq!(c.common_volume_message(153), None);
    assert_eq!(c.common_volume_message(76).as_deref(), Some("v:49\n"));
    assert_eq!(c.common_volume_message(200).as_deref(), Some("v:100\n"));
    assert_eq!(c.common_volume_message(0).as_deref(), Some("v:0\n"));
    let mut t = Targets::new();
    assert_eq!(c.own_volume_message(&t), None);
    queue_volume_for_machine(&mut t, "desk", 77);
    assert_eq!(c.own_volume_message(&t).as_deref(), Some("v:50\n"));
    assert_eq!(c.own_volume_message(&t), None);
    queue_volume_for_machine(&mut t, "desk", 78);
    assert_eq!(c.own_volume_message(&t).as_deref(), Some("v:50\n"));
}

#[test]
fn connections_show_signs_of_life() {
    let mut c = named("desk");
    for _ in 0..299 {
        assert_eq!(c.keepalive_message(), None);
    }
    assert_eq!(c.keepalive_message().as_deref(), Some("k\n"));
    assert_eq!(c.keepalive_message(), None);
}

#[test]
fn three_connections_fit() {
    assert_eq!(free_slot(&[false, false, false]), Some(0));
    assert_eq!(free_slot(&[true, false, false]), Some(1));
    assert_eq!(free_slot(&[true, true, false]), Some(2));
    assert_eq!(free_slot(&[false, true, true]), Some(0));
    assert_eq!(free_slot(&[true, true, true]), None);
}

#[test]
fn lines_end_with_a_newline() {
    let mut l = MicLines::new();
    for b in b"m:1" {
        assert!(matches!(l.feed(*b), MicInput::More));
    }
    match l.feed(b'\n') {
        MicInput::Line(s) => assert_eq!(s, "m:1"),
        _ => unreachable!(),
    }
    l.feed(0xFF);
    assert!(matches!(l.feed(b'\n'), MicInput::NoText));
    for _ in 0..300 {
        l.feed(b'a');
    }
    match l.feed(b'\n') {
        MicInput::Line(s) => assert_eq!(s.len(), 256),
        _ => unreachable!(),
    }
}

struct Room {
    handle: LampHandle,
    lamp: LampState,
    leds: LedState,
    owner: Option<String>,
}

fn room() -> Room {
    Room {
        handle: LampHandle::new([0; 4], [0; 16]),
        lamp: LampState { on: false, known: false },
        leds: LedState::new(),
        owner: None,
    }
}

fn say(r: &mut Room, line: &str, memory: bool) {
    handle_mic_line(line, &mut r.handle, &mut r.lamp, &mut r.leds, &mut r.owner, memory, 9);
}

#[test]
fn microphones_claim_ownership() {
    let mut r = room();
    say(&mut r, "m:1:desk", true);
    assert!(r.leds.blue);
    assert_eq!(r.owner.as_deref(), Some("desk"));
    say(&mut r, " m:0:laptop:x \r", true);
    assert!(!r.leds.blue);
    assert_eq!(r.owner.as_deref(), Some("laptop:x"));
    say(&mut r, "m:1:desk", false);
    assert!(r.leds.blue);
    assert_eq!(r.owner.as_deref(), Some("laptop:x"));
    say(&mut r, "m:yes", true);
    assert!(!r.leds.blue);
    say(&mut r, "m:1", true);
    assert!(r.leds.blue);
    assert_eq!(r.handle.target, 0);
}

#[test]
fn the_laptop_toggles_the_lamp() {
    let mut r = room();
    say(&mut r, "l:t", true);
    assert_eq!(r.handle.target, 1);
    assert_eq!(r.lamp, LampState { on: true, known: true });
    say(&mut r, "l:t", true);
    assert_eq!(r.handle.target, -1);
    for other in ["l:t:x", "l:x", "l", "", "x:1", "t"] {
        say(&mut r, other, true);
        assert_eq!(r.handle.target, -1);
        assert_eq!(r.owner, None);
    }
}

#[test]
fn leds_are_set_one_by_one() {
    let mut l = LedState::new();
    l.set_green(true);
    l.set_red(true);
    l.set_blue(true);
    assert_eq!(l, LedState { green: true, red: true, blue: true });
    l.set_yellow(false);
    assert!(!l.blue);
    let before = l;
    l.on_screen_on(true);
    l.on_screen_off();
    l.on_wifi_connect(true);
    l.on_wifi_disconnect(true);
    assert_eq!(l, before);
}

#[test]
fn a_tick_sends_in_turns() {
    let mut c = named("desk");
    c.keepalive = 299;
    let owner = Some("desk".to_string());
    let mut ready = true;
    let mut media = Targets::new();
    queue_media_for_machine(&mut media, "desk");
    let mut volumes = Targets::new();
    queue_volume_for_machine(&mut volumes, "desk", 153);
    let tick = |c: &mut MediaConn, ready: &mut bool, media: &mut Targets<bool>| {
        (0..TURNS)
            .filter_map(|k| c.turn(k, &owner, ready, media, 77, &volumes))
            .collect::<Vec<String>>()
    };
    assert_eq!(tick(&mut c, &mut ready, &mut media), ["p\n", "p\n", "v:50\n", "v:100\n", "k\n"]);
    assert!(tick(&mut c, &mut ready, &mut media).is_empty());
    assert!(!ready);
}
