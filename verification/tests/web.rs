use fin_esp::dht22::{Activity, ChartCache};
use fin_esp::led::LedState;
use fin_esp::media::Targets;
use fin_esp::screen::UiState;
use fin_esp::text::{
    begins_with, chars_of, push_decimal, push_signed, read_number, split_words, string_of, trim,
};
use fin_esp::tuya::{LampHandle, LampState};
use fin_esp::web::{
    answer, build_status, chart_body, classify_origin, get_param, get_param_str, handle, header_line,
    is_external, parse_request, range_body, report_for, route, write_header, Action, BodyWriter,
    Controls, HeaderLine, Reply, StatusText, WebTriggers,
};

struct Desk {
    controls: Controls,
    charts: ChartCache,
    activity: Activity,
    media: Targets<bool>,
    volumes: Targets<u8>,
}

fn desk() -> Desk {
    Desk {
        controls: Controls {
            triggers: WebTriggers::new(),
            ui: UiState::default(),
            screen_forced_off: false,
            lamp: LampHandle::new([0; 4], [0; 16]),
            auto_rotate: true,
            leds: LedState::new(),
        },
        charts: ChartCache::new(),
        activity: Activity::new(),
        media: Targets::new(),
        volumes: Targets::new(),
    }
}

fn ask(d: &mut Desk, line: &str) -> Reply {
    ask_from(d, line, "192.168.1.20:5000", 4096)
}

fn ask_from(d: &mut Desk, line: &str, peer: &str, memory: usize) -> Reply {
    let r = parse_request(line).unwrap();
    handle(
        &r,
        peer,
        &mut d.controls,
        &mut d.charts,
        &mut d.activity,
        &mut d.media,
        &mut d.volumes,
        memory,
        777,
    )
}

#[test]
fn request_lines_are_taken_apart() {
    let r = parse_request("POST /action/volume?v=50&x?y HTTP/1.1\r\n").unwrap();
    assert_eq!(r.method, "POST");
    assert_eq!(r.path, "/action/volume");
    assert_eq!(r.query, "v=50&x?y");
    let r = parse_request("  GET\t/ ").unwrap();
    assert_eq!((r.method.as_str(), r.path.as_str(), r.query.as_str()), ("GET", "/", ""));
    assert!(parse_request("GET").is_none());
    assert!(parse_request("").is_none());
}

#[test]
fn header_lines_are_told_apart() {
    assert_eq!(header_line("\r\n"), HeaderLine::End);
    assert_eq!(header_line(""), HeaderLine::End);
    assert_eq!(header_line("X-FinESP: 1\r\n"), HeaderLine::FromApp);
    assert_eq!(header_line(" x-finesp: 1"), HeaderLine::Other);
    assert_eq!(header_line("Host: x\r\n"), HeaderLine::Other);
}

#[test]
fn parameters_are_found() {
    assert_eq!(get_param("a=1&b=-20", "b"), Some(-20));
    assert_eq!(get_param("a=1&a=2", "a"), Some(1));
    // The first one decides, even if it is no number.
    assert_eq!(get_param("a=x&a=2", "a"), None);
    assert_eq!(get_param("a&a=2", "a"), Some(2));
    assert_eq!(get_param("", "a"), None);
    assert_eq!(get_param("a=+7", "a"), Some(7));
    assert_eq!(get_param("a=2147483648", "a"), None);
    assert_eq!(get_param_str("machine=&machine=desk=1", "machine").as_deref(), Some("desk=1"));
    assert_eq!(get_param_str("machine=", "machine"), None);
}

#[test]
fn paths_lead_to_actions() {
    let post = |p: &str, q: &str| route("POST", p, q);
    assert_eq!(route("GET", "/", ""), Action::Page);
    assert_eq!(route("GET", "/status", ""), Action::Status);
    assert_eq!(route("GET", "/dht/chart", ""), Action::Chart);
    assert_eq!(route("GET", "/dht/chart/range", "hours=6"), Action::Range(6));
    assert_eq!(route("GET", "/dht/chart/range", ""), Action::Range(0));
    assert_eq!(post("/dht/chart/request", "hours=24"), Action::RequestRange(24));
    assert_eq!(post("/dht/chart/request", "hours=-1"), Action::RequestRange(u32::MAX));
    assert_eq!(post("/action/lamp/on", ""), Action::LampOn);
    assert_eq!(post("/action/lamp/off", ""), Action::LampOff);
    assert_eq!(post("/action/lamp/toggle", ""), Action::LampToggle);
    assert_eq!(post("/action/lamp", ""), Action::LampToggle);
    assert_eq!(post("/action/lamp/warm", ""), Action::LampWarm);
    assert_eq!(post("/action/lamp/bright", ""), Action::LampBright);
    assert_eq!(post("/action/lamp/set", "brightness=50&temp=200"), Action::LampSet(50, 100));
    assert_eq!(post("/action/lamp/set", ""), Action::LampSet(50, 50));
    assert_eq!(post("/action/screen", ""), Action::ScreenNext);
    assert_eq!(post("/action/screen/next", ""), Action::ScreenNext);
    assert_eq!(post("/action/screen/set", "s=3"), Action::ScreenSet(3));
    assert_eq!(post("/action/screen/set", "s=9"), Action::ScreenSet(4));
    assert_eq!(post("/action/screen/set", ""), Action::ScreenSet(-1));
    assert_eq!(post("/action/autorotate/on", ""), Action::AutoRotate(true));
    assert_eq!(post("/action/autorotate/off", ""), Action::AutoRotate(false));
    assert_eq!(post("/action/display/on", ""), Action::Display(true));
    assert_eq!(post("/action/display/off", ""), Action::Display(false));
    assert_eq!(post("/action/pot/on", ""), Action::Pot(true));
    assert_eq!(post("/action/pot/off", ""), Action::Pot(false));
    assert_eq!(post("/action/media", ""), Action::Media);
    assert_eq!(post("/action/volume", "v=70"), Action::Volume(70));
    assert_eq!(post("/action/volume", "v=700"), Action::Volume(100));
    assert_eq!(post("/action/volume", ""), Action::Volume(0));
    assert_eq!(post("/action/media/target", ""), Action::MediaTarget);
    assert_eq!(post("/action/volume/target", "v=7"), Action::VolumeTarget(7));
    assert_eq!(post("/action/lamp/colour", ""), Action::Colour(30, 1000, 500));
    assert_eq!(post("/action/lamp/colour", "h=400&s=1&v=-2"), Action::Colour(360, 1, 0));
    assert_eq!(post("/action/led/green/on", ""), Action::Green(true));
    assert_eq!(post("/action/led/red/off", ""), Action::Red(false));
    assert_eq!(post("/action/led/yellow/on", ""), Action::Yellow(true));
    assert_eq!(post("/action/reboot", ""), Action::Reboot);
    assert_eq!(route("GET", "/action/lamp/on", ""), Action::NotFound);
    assert_eq!(post("/", ""), Action::NotFound);
    assert_eq!(route("GET", "/favicon.ico", ""), Action::NotFound);
}

#[test]
fn lamp_actions_reach_the_lamp() {
    let mut d = desk();
    assert_eq!(ask(&mut d, "POST /action/lamp/on HTTP/1.1"), Reply::Done);
    assert_eq!(d.controls.lamp.target, 1);
    assert_eq!(d.controls.ui.lamp, LampState { on: true, known: true });
    ask(&mut d, "POST /action/lamp HTTP/1.1");
    assert_eq!(d.controls.lamp.target, -1);
    assert!(!d.controls.ui.lamp.on);
    ask(&mut d, "POST /action/lamp/set?brightness=50&temp=20 HTTP/1.1");
    assert_eq!(
        (d.controls.lamp.target, d.controls.lamp.last_brightness, d.controls.lamp.last_temp),
        (4, 505, 200)
    );
    ask(&mut d, "POST /action/lamp/colour?h=240 HTTP/1.1");
    assert_eq!((d.controls.lamp.target, d.controls.lamp.colour), (5, (240, 1000, 500)));
    assert!(d.controls.ui.lamp.on);
    ask(&mut d, "POST /action/lamp/off HTTP/1.1");
    assert!(!d.controls.ui.lamp.on);
    ask(&mut d, "POST /action/lamp/warm HTTP/1.1");
    assert_eq!(d.controls.lamp.target, 2);
    assert!(!d.controls.ui.lamp.on);
}

#[test]
fn orders_wait_for_the_main_loop() {
    let mut d = desk();
    ask(&mut d, "POST /action/screen HTTP/1.1");
    ask(&mut d, "POST /action/screen/set?s=2 HTTP/1.1");
    ask(&mut d, "POST /action/display/off HTTP/1.1");
    ask(&mut d, "POST /action/pot/off HTTP/1.1");
    ask(&mut d, "POST /action/media HTTP/1.1");
    ask(&mut d, "POST /action/volume?v=50 HTTP/1.1");
    ask(&mut d, "POST /action/autorotate/off HTTP/1.1");
    ask(&mut d, "POST /action/led/red/on HTTP/1.1");
    let t = d.controls.triggers;
    assert!(t.screen && t.media && !t.weather && !t.last_origin_external);
    assert_eq!((t.screen_select, t.display, t.pot, t.volume), (2, 0, 0, 50));
    assert!(d.controls.screen_forced_off);
    assert!(!d.controls.ui.pot_enabled);
    assert_eq!(d.controls.ui.volume_pct, 76);
    assert!(!d.controls.auto_rotate);
    assert!(d.controls.leds.red);
}

#[test]
fn pages_and_charts_are_answered() {
    let mut d = desk();
    assert_eq!(ask_from(&mut d, "GET / HTTP/1.1", "192.168.1.105:1", 0), Reply::Page);
    assert!(d.controls.triggers.weather);
    assert!(d.controls.triggers.last_origin_external);
    assert_eq!(ask(&mut d, "GET /status HTTP/1.1"), Reply::Status);
    assert_eq!(d.activity.last_active_ms, 777);
    assert_eq!(ask_from(&mut d, "GET /status HTTP/1.1", "x", 2047), Reply::Closed);
    assert_eq!(ask(&mut d, "GET /dht/chart HTTP/1.1"), Reply::Chart);
    assert_eq!(ask(&mut d, "POST /dht/chart/request?hours=6 HTTP/1.1"), Reply::Done);
    assert_eq!(d.charts.wanted, [false, true, false]);
    assert_eq!(ask(&mut d, "POST /dht/chart/request?hours=7 HTTP/1.1"), Reply::BadHours);
    assert_eq!(ask(&mut d, "GET /dht/chart/range?hours=6 HTTP/1.1"), Reply::Range(6));
    assert_eq!(ask(&mut d, "POST /action/reboot HTTP/1.1"), Reply::Restart);
    assert_eq!(ask(&mut d, "GET /nothing HTTP/1.1"), Reply::NotFound);
}

#[test]
fn a_get_changes_nothing() {
    let mut d = desk();
    for path in ["/status", "/dht/chart", "/dht/chart/range?hours=6", "/action/lamp/on", "/x"] {
        ask(&mut d, &format!("GET {path} HTTP/1.1"));
        ask(&mut d, &format!("PUT {path} HTTP/1.1"));
    }
    assert_eq!(d.controls.triggers, WebTriggers::new());
    assert_eq!(d.controls.lamp.target, 0);
    assert_eq!(d.controls.leds, LedState::new());
    assert!(d.controls.auto_rotate && !d.controls.screen_forced_off);
}

#[test]
fn machines_are_addressed_by_name() {
    let mut d = desk();
    ask(&mut d, "POST /action/media/target?machine=desk HTTP/1.1");
    ask(&mut d, "POST /action/media/target HTTP/1.1");
    assert_eq!(d.media.get("desk"), Some(true));
    ask(&mut d, "POST /action/volume/target?machine=desk&v=100 HTTP/1.1");
    ask(&mut d, "POST /action/volume/target?machine=lap HTTP/1.1");
    assert_eq!(d.volumes.get("desk"), Some(153));
    assert_eq!(d.volumes.get("lap"), Some(0));
}

#[test]
fn answers_have_a_head() {
    assert_eq!(
        write_header("200 OK", "text/plain", 2),
        "HTTP/1.1 200 OK\r\nContent-Type: text/plain\r\nContent-Length: 2\r\nCache-Control: no-store\r\nConnection: close\r\n\r\n"
    );
    assert_eq!(answer(Reply::Done), ("200 OK", "text/plain", Some("ok")));
    assert_eq!(answer(Reply::Restart), ("200 OK", "text/plain", Some("ok")));
    assert_eq!(answer(Reply::Page), ("200 OK", "text/html; charset=utf-8", None));
    assert_eq!(answer(Reply::Chart), ("200 OK", "application/json", None));
    assert_eq!(answer(Reply::BadHours), ("400 Bad Request", "text/plain", Some("invalid hours")));
    assert_eq!(answer(Reply::NotFound), ("404 Not Found", "text/plain", Some("not found")));
    assert_eq!(chart_body(None), "{\"points\":[]}");
    assert_eq!(chart_body(Some("x")), "x");
    assert_eq!(range_body(None), "{\"pending\":true}");
    assert_eq!(range_body(Some("y")), "y");
}

#[test]
fn bodies_go_out_in_pieces() {
    let mut w = BodyWriter::new(2_500, true);
    assert_eq!(w.piece(), Some((0, 1024)));
    assert_eq!(w.sent(true), 5);
    assert_eq!(w.piece(), Some((1024, 2048)));
    for _ in 0..3 {
        assert_eq!(w.sent(false), 200);
        assert_eq!(w.piece(), Some((1024, 2048)));
    }
    assert_eq!(w.sent(true), 5);
    assert_eq!(w.piece(), Some((2048, 2500)));
    for _ in 0..3 {
        w.sent(false);
    }
    assert_eq!(w.sent(false), 0);
    assert_eq!(w.piece(), None);
    assert!(w.failed);
    let mut w = BodyWriter::new(10, false);
    assert_eq!(w.sent(false), 0);
    assert_eq!(w.piece(), None);
    assert_eq!(w.written, 0);
    let mut w = BodyWriter::new(10, false);
    assert_eq!(w.sent(true), 0);
    assert_eq!((w.piece(), w.failed), (None, false));
    assert_eq!(BodyWriter::new(0, true).piece(), None);
}

#[test]
fn presses_on_the_page_are_reported() {
    assert_eq!(report_for(Action::LampOn), Some("lamp button (web)"));
    assert_eq!(report_for(Action::LampToggle), Some("lamp button (web)"));
    assert_eq!(report_for(Action::LampWarm), Some("warm dim button (web)"));
    assert_eq!(report_for(Action::LampBright), Some("bright white button (web)"));
    assert_eq!(report_for(Action::Media), None);
    assert!(is_external("192.168.1.105:4711"));
    assert!(!is_external("192.168.1.10:4711"));
    assert_eq!(classify_origin("192.168.1.105"), "web-external");
    assert_eq!(classify_origin("10.0.0.1"), "web-internal");
}

#[test]
fn the_status_is_a_document() {
    let d = desk();
    let n = |s: &str| s.to_string();
    let text = StatusText {
        weather_temp: n("26.4"),
        dht: Some((n("24.1"), n("61.0"))),
        btc: n("67123.5"),
        btc_chg: n("-1.25"),
        sol: n("151"),
        sol_chg: n("0.5"),
        gold: n("0"),
        gold_chg: n("0"),
        oil: n("0"),
        oil_chg: n("0"),
        usd_brl: n("5.4321"),
        usd_brl_chg: n("0.3"),
    };
    let c = &d.controls;
    let s = build_status(&c.ui, true, &c.lamp, true, &c.leds, &text);
    assert_eq!(
        s,
        concat_status(&[
            r#"{"screen":"BTC / USD","screen_idx":0,"lamp_on":false,"lamp_known":false,"#,
            r#""lamp_brightness":null,"lamp_temp":null,"display_on":false,"pot_on":true,"#,
            r#""volume":null,"fetching":false,"wifi":false,"auto_rotate":true,"#,
            r#""weather_temp":null,"weather_code":null,"dht_temp":24.1,"dht_humidity":61.0,"#,
            r#""led_green":false,"led_red":false,"led_yellow":false,"#,
            r#""prices":{"btc":67123.5,"btc_chg":-1.25,"sol":151,"sol_chg":0.5,"#,
            r#""gold":0,"gold_chg":0,"oil":0,"oil_chg":0,"usd_brl":5.4321,"usd_brl_chg":0.3}}"#,
        ])
    );
    let v: serde_json::Value = serde_json::from_str(&s).unwrap();
    assert_eq!(v["prices"]["usd_brl"].as_f64(), Some(5.4321));
}

fn concat_status(parts: &[&str]) -> String {
    parts.concat()
}

#[test]
fn texts_are_taken_apart() {
    let c = chars_of(" \t hi  there\u{2003}x ");
    assert_eq!(string_of(trim(&c)), "hi  there\u{2003}x");
    let words: Vec<String> = split_words(&c).iter().map(|w| string_of(w)).collect();
    assert_eq!(words, vec!["hi", "there", "x"]);
    let number = |s: &str| read_number(&chars_of(s));
    assert_eq!(number("0"), Some(0));
    assert_eq!(number("-0012"), Some(-12));
    assert_eq!(number("+5"), Some(5));
    assert_eq!(number("2147483647"), Some(i32::MAX));
    assert_eq!(number("-2147483648"), Some(i32::MIN));
    assert_eq!(number("2147483648"), None);
    assert_eq!(number("-2147483649"), None);
    for bad in ["", "-", "+", "1 ", " 1", "1.0", "0x1", "--1", "١"] {
        assert_eq!(number(bad), None);
    }
    for n in [0, 7, -7, i32::MAX, i32::MIN] {
        let mut s = String::new();
        push_signed(&mut s, n);
        assert_eq!(s, n.to_string());
        assert_eq!(number(&s), Some(n));
    }
    let mut s = String::from("x");
    push_decimal(&mut s, u64::MAX);
    assert_eq!(s, "x18446744073709551615");
    assert!(begins_with("abc", "ab") && !begins_with("ab", "abc"));
}
