use fin_esp::api::{
    after_response, apply_weather, event_body, fetch_all, fetch_crypto, fetch_gold_and_oil,
    fetch_usd_brl, fetch_weather, may_report, mechanism_metadata, merge, parse_stooq_body, reported,
    stooq_columns, usd_brl_texts, value_or_zero, wmo_is_rain, wmo_label, FetchWorker, HttpStep,
    MarketData, StooqError,
};
use fin_esp::cache::{decode, encode, load, save, CacheKey, CacheRecord, CacheValue};
use fin_esp::config::{
    ip_from_env, key_from_env, laptop_ip_from_env, url_dht_timeseries, url_weather, Screen,
};
use fin_esp::double::Double;
use fin_esp::json::Document;
use fin_esp::persist::Persist;

fn d(v: f64) -> Double {
    Double { bits: v.to_bits() }
}

const CRYPTO: &str = r#"{"bitcoin":{"usd":67123.5,"usd_24h_change":-1.25},
    "solana":{"usd":151,"usd_24h_change":0.5}}"#;

#[test]
fn crypto_answers_are_taken_over() {
    let mut m = MarketData::default();
    fetch_crypto(&mut m, Some(CRYPTO));
    assert!(m.ok_crypto);
    assert_eq!(m.price_btc, d(67123.5));
    assert_eq!(m.chg_btc_pct, d(-1.25));
    // A whole number is a number, too.
    assert_eq!(m.price_sol, d(151.0));
    assert_eq!(m.chg_sol_pct, d(0.5));
    fetch_crypto(&mut m, Some(r#"{"solana":{"usd":"151"}}"#));
    assert!(!m.ok_crypto);
    assert_eq!(m.price_sol, d(0.0));
    assert_eq!(m.price_btc, d(0.0));
    fetch_crypto(&mut m, Some(r#"{"bitcoin":{"usd":-2.0}}"#));
    assert!(!m.ok_crypto);
    assert_eq!(m.price_btc, d(-2.0));
}

#[test]
fn bad_answers_change_nothing() {
    let mut m = MarketData::default();
    fetch_crypto(&mut m, Some(CRYPTO));
    for bad in [None, Some(""), Some("{"), Some("<html>"), Some("{} x")] {
        fetch_crypto(&mut m, bad);
        assert!(m.ok_crypto);
        assert_eq!(m.price_btc, d(67123.5));
        fetch_weather(&mut m, bad);
        assert!(!m.ok_weather);
    }
}

#[test]
fn weather_answers_are_taken_over() {
    let mut m = MarketData::default();
    fetch_weather(&mut m, Some(r#"{"current":{"temperature_2m":26.4,"weather_code":61}}"#));
    assert!(m.ok_weather);
    assert_eq!(m.weather_temp, Some(d(26.4)));
    assert_eq!(m.weather_code, Some(61));
    fetch_weather(&mut m, Some(r#"{"current":{"temperature_2m":-3,"weather_code":1.5}}"#));
    assert!(m.ok_weather);
    assert_eq!(m.weather_temp, Some(d(-3.0)));
    assert_eq!(m.weather_code, None);
    fetch_weather(&mut m, Some("[]"));
    assert!(!m.ok_weather);
    assert_eq!(m.weather_temp, None);
    apply_weather(&mut m, None, Some(0x1_0000_0003));
    assert_eq!(m.weather_code, Some(3));
}

#[test]
fn usd_brl_comes_as_text() {
    let q = usd_brl_texts(r#"{"USDBRL":{"bid":"5.4321","pctChange":"0.3"}}"#).unwrap();
    assert_eq!(q.bid.as_deref(), Some("5.4321"));
    assert_eq!(q.pct_change.as_deref(), Some("0.3"));
    let q = usd_brl_texts(r#"{"USDBRL":{"bid":5.4}}"#).unwrap();
    assert_eq!(q.bid, None);
    assert_eq!(q.pct_change, None);
    assert!(usd_brl_texts("no").is_none());
    let mut m = MarketData::default();
    fetch_usd_brl(&mut m, Some((Some(d(5.4321)), None)));
    assert!(m.ok_usd_brl);
    assert_eq!(m.price_usd_brl, d(5.4321));
    assert_eq!(m.chg_usd_brl_pct, d(0.0));
    fetch_usd_brl(&mut m, None);
    assert!(m.ok_usd_brl);
    fetch_usd_brl(&mut m, Some((None, Some(d(1.0)))));
    assert!(!m.ok_usd_brl);
    assert_eq!(value_or_zero(None), d(0.0));
}

#[test]
fn quotes_have_seven_columns() {
    let line = "GC.F,20260830,235959,2400.5,2410,2390,2412.25,,\r\nmore";
    assert_eq!(stooq_columns(line), Ok(("2400.5".to_string(), "2412.25".to_string())));
    assert_eq!(stooq_columns("a,b,c,1,2,3,4"), Ok(("1".to_string(), "4".to_string())));
    assert_eq!(stooq_columns("a,b,c,1,2,3,4\r\n"), Ok(("1".to_string(), "4".to_string())));
    assert_eq!(stooq_columns(""), Err(StooqError::Empty));
    assert_eq!(stooq_columns("\n"), Err(StooqError::NotEnoughColumns));
    assert_eq!(stooq_columns("a,b,c,1,2,3\n,,,,,,,,"), Err(StooqError::NotEnoughColumns));
}

#[test]
fn quotes_are_checked() {
    let (o, c, g) = (Some(d(2.0)), Some(d(3.0)), d(50.0));
    assert_eq!(parse_stooq_body(o, c, g), Ok((d(3.0), d(50.0), true)));
    assert_eq!(parse_stooq_body(None, None, g), Err(StooqError::BadOpen));
    assert_eq!(parse_stooq_body(o, None, g), Err(StooqError::BadClose));
    for v in [0.0, -0.0, -1.0, f64::NEG_INFINITY] {
        assert_eq!(parse_stooq_body(o, Some(d(v)), g), Err(StooqError::CloseNotPositive));
    }
    // Not a number is not at most zero.
    assert!(parse_stooq_body(o, Some(d(f64::NAN)), g).is_ok());
    assert_eq!(StooqError::Empty.message(), "empty response");
    assert_eq!(StooqError::NotEnoughColumns.message(), "not enough columns");
    assert_eq!(StooqError::BadOpen.message(), "bad open");
    assert_eq!(StooqError::BadClose.message(), "bad close");
    assert_eq!(StooqError::CloseNotPositive.message(), "close <= 0");
}

#[test]
fn gold_and_oil_stand_alone() {
    let mut m = MarketData::default();
    fetch_gold_and_oil(&mut m, None, Some((d(70.0), d(1.0), true)));
    assert!(!m.ok_gold && m.ok_oil && m.has_chg_oil);
    fetch_gold_and_oil(&mut m, Some((d(2400.0), d(-1.0), true)), None);
    assert!(m.ok_gold && m.ok_oil);
    assert_eq!(m.price_gold, d(2400.0));
    assert_eq!(m.chg_oil_pct, d(1.0));
    assert!(!m.all_markets_ok());
    m.ok_crypto = true;
    m.ok_usd_brl = true;
    assert!(m.all_markets_ok());
}

#[test]
fn merging_keeps_the_last_good_values() {
    let mut a = MarketData::default();
    a.price_btc = d(1.0);
    a.ok_crypto = true;
    a.weather_temp = Some(d(20.0));
    let mut b = MarketData::default();
    b.price_btc = d(9.0);
    b.price_oil = d(70.0);
    b.ok_oil = true;
    b.weather_temp = Some(d(30.0));
    b.ok_weather = true;
    merge(&mut a, b);
    assert_eq!(a.price_btc, d(1.0));
    assert_eq!(a.price_oil, d(70.0));
    assert!(a.ok_crypto && a.ok_oil && !a.ok_weather);
    assert_eq!(a.weather_temp, Some(d(20.0)));
    let mut c = MarketData::default();
    c.price_btc = d(2.0);
    c.ok_crypto = true;
    fetch_all(&mut a, c, None);
    assert_eq!(a.price_btc, d(2.0));
    c.price_gold = d(3.0);
    c.ok_gold = true;
    c.ok_crypto = false;
    fetch_all(&mut a, MarketData::default(), Some(c));
    assert_eq!(a.price_gold, d(3.0));
    assert_eq!(a.price_btc, d(2.0));
}

#[test]
fn workers_hand_over_once() {
    let mut w = FetchWorker::new();
    assert!(!w.wait_go());
    w.trigger();
    w.trigger();
    assert!(w.wait_go());
    assert!(!w.wait_go());
    assert!(w.collect().is_none());
    let mut m = MarketData::default();
    m.ok_oil = true;
    w.post(m);
    assert!(w.collect().unwrap().ok_oil);
    assert!(w.collect().is_none());
}

#[test]
fn http_answers_decide_the_next_step() {
    assert_eq!(after_response(0, 200, 1), HttpStep::ReadBody);
    assert_eq!(after_response(0, 404, 1), HttpStep::GiveUp { wait_ms: 0 });
    assert_eq!(after_response(0, 429, 1), HttpStep::GiveUp { wait_ms: 20_000 });
    assert_eq!(after_response(0, 503, 3), HttpStep::Again { wait_ms: 20_000 });
    assert_eq!(after_response(0, 500, 3), HttpStep::Again { wait_ms: 800 });
    assert_eq!(after_response(1, 500, 3), HttpStep::Again { wait_ms: 1600 });
    assert_eq!(after_response(2, 500, 3), HttpStep::GiveUp { wait_ms: 0 });
}

#[test]
fn events_are_quoted_json() {
    let meta = mechanism_metadata("web-\"x\"");
    assert_eq!(meta, r#"{"mechanism":"web-\"x\""}"#);
    let body = event_body("boot", "info", "line\nbreak", &meta);
    assert_eq!(
        body,
        r#"{"message":{"event_type":"boot","message":"line\nbreak","metadata":{"mechanism":"web-\"x\""},"severity":"info","source":"fin-esp"},"queue":"device-events"}"#
    );
    let doc = Document::parse(&body).unwrap();
    assert_eq!(doc.text_at(&["message", "message"]).as_deref(), Some("line\nbreak"));
    assert_eq!(doc.text_at(&["queue"]).as_deref(), Some("device-events"));
    let direct: serde_json::Value = serde_json::from_str(&body).unwrap();
    assert_eq!(direct.to_string(), body);
    assert!(may_report(2048));
    assert!(!may_report(2047));
    assert!(reported(200) && reported(299) && !reported(199) && !reported(300));
}

#[test]
fn control_characters_are_escaped() {
    let all: String = (0u8..0x20).map(|b| b as char).collect();
    assert_eq!(
        mechanism_metadata(&all),
        concat_texts(&[
            r#"{"mechanism":"\u0000\u0001\u0002\u0003\u0004\u0005\u0006\u0007"#,
            r#"\b\t\n\u000b\f\r\u000e\u000f"#,
            r#"\u0010\u0011\u0012\u0013\u0014\u0015\u0016\u0017"#,
            r#"\u0018\u0019\u001a\u001b\u001c\u001d\u001e\u001f"}"#,
        ])
    );
    assert_eq!(mechanism_metadata("a\\b/\"\u{7f}é"), "{\"mechanism\":\"a\\\\b/\\\"\u{7f}é\"}");
    assert_eq!(mechanism_metadata(""), "{\"mechanism\":\"\"}");
}

fn concat_texts(parts: &[&str]) -> String {
    parts.concat()
}

#[test]
fn documents_are_read_by_path() {
    let doc = Document::parse(r#"{"a":{"t":true,"n":-7,"x":1.5,"s":"é"},"l":[1]}"#).unwrap();
    assert_eq!(doc.bool_at(&["a", "t"]), Some(true));
    assert_eq!(doc.bool_at(&["a", "n"]), None);
    assert_eq!(doc.whole_at(&["a", "n"]), Some(-7));
    assert_eq!(doc.whole_at(&["a", "x"]), None);
    assert_eq!(doc.double_at(&["a", "x"]), Some(d(1.5)));
    assert_eq!(doc.double_at(&["a", "n"]), Some(d(-7.0)));
    assert_eq!(doc.double_at(&["a", "s"]), None);
    assert_eq!(doc.text_at(&["a", "s"]).as_deref(), Some("é"));
    assert!(doc.has(&["a"]));
    assert!(!doc.has(&["l", "0"]));
    assert!(!doc.has(&["a", "t", "u"]));
    assert!(doc.has(&[]));
    assert!(Document::parse("{").is_none());
}

#[test]
fn weather_codes_have_labels() {
    let cases = [
        (0, "clear", false),
        (1, "fine", false),
        (2, "p.cld", false),
        (3, "cloud", false),
        (45, "fog", false),
        (48, "fog", false),
        (53, "drzl", true),
        (65, "rain", true),
        (67, "wx", true),
        (71, "snow", false),
        (82, "shwr", true),
        (86, "wx", true),
        (95, "wx", true),
        (96, "storm", true),
        (99, "storm", true),
        (100, "wx", true),
        (-1, "wx", false),
        (50, "wx", false),
        (68, "wx", false),
    ];
    for (code, label, rain) in cases {
        assert_eq!(wmo_label(code), label);
        assert_eq!(wmo_is_rain(code), rain);
    }
}

fn put(rec: &mut CacheRecord, w: &[(CacheKey, CacheValue)]) {
    for (k, v) in w {
        match (k, v) {
            (CacheKey::WeatherCode, CacheValue::Whole(c)) => rec.w_code = Some(*c),
            (k, CacheValue::Real(v)) => {
                let blob = encode(*v);
                let back = decode(&blob);
                assert_eq!(back, Some(*v));
                match k {
                    CacheKey::PriceBtc => rec.p_btc = back,
                    CacheKey::PriceSol => rec.p_sol = back,
                    CacheKey::ChangeBtc => rec.c_btc = back,
                    CacheKey::ChangeSol => rec.c_sol = back,
                    CacheKey::PriceUsd => rec.p_usd = back,
                    CacheKey::ChangeUsd => rec.c_usd = back,
                    CacheKey::PriceGold => rec.p_gold = back,
                    CacheKey::ChangeGold => rec.c_gold = back,
                    CacheKey::PriceOil => rec.p_oil = back,
                    CacheKey::ChangeOil => rec.c_oil = back,
                    _ => rec.w_temp = back,
                }
            }
            _ => unreachable!(),
        }
    }
}

fn empty_record() -> CacheRecord {
    CacheRecord {
        p_btc: None,
        p_sol: None,
        c_btc: None,
        c_sol: None,
        p_usd: None,
        c_usd: None,
        p_gold: None,
        c_gold: None,
        p_oil: None,
        c_oil: None,
        w_temp: None,
        w_code: None,
    }
}

#[test]
fn the_cache_gives_back_what_was_saved() {
    let mut m = MarketData::default();
    fetch_crypto(&mut m, Some(CRYPTO));
    fetch_gold_and_oil(&mut m, Some((d(2400.0), d(-1.0), true)), None);
    m.weather_temp = Some(d(26.5));
    m.weather_code = Some(61);
    m.ok_weather = true;
    let mut rec = empty_record();
    put(&mut rec, &save(&m));
    let back = load(&rec).unwrap();
    assert!(back.ok_crypto && back.ok_gold && back.has_chg_gold && back.ok_weather);
    assert!(!back.ok_oil && !back.ok_usd_brl);
    assert_eq!(back.price_btc, m.price_btc);
    assert_eq!(back.chg_sol_pct, m.chg_sol_pct);
    assert_eq!(back.chg_gold_pct, d(-1.0));
    assert_eq!(back.weather_code, Some(61));
    assert_eq!(CacheKey::PriceGold.name(), "p_gold");
    assert_eq!(CacheKey::WeatherCode.name(), "w_code");
}

#[test]
fn the_cache_ignores_what_is_missing() {
    assert!(load(&empty_record()).is_none());
    assert!(save(&MarketData::default()).is_empty());
    let mut rec = empty_record();
    rec.w_temp = Some(d(20.0));
    rec.w_code = Some(0);
    assert!(load(&rec).is_none());
    rec.p_oil = Some(d(70.0));
    let m = load(&rec).unwrap();
    assert!(m.ok_oil && m.has_chg_oil && m.ok_weather);
    assert_eq!(m.chg_oil_pct, d(0.0));
    rec.p_oil = Some(d(-70.0));
    assert!(load(&rec).is_none());
    assert_eq!(encode(d(1.0)), vec![0, 0, 0, 0, 0, 0, 0xF0, 0x3F]);
    assert_eq!(decode(&[0; 7]), None);
    assert_eq!(decode(&[0; 9]), None);
}

#[test]
fn settings_come_back() {
    let mut p = Persist::new(None, None, None);
    assert!(!p.load_screen_forced());
    assert!(p.load_pot_enabled());
    assert_eq!(p.load_screen(), None);
    p.save_screen_forced(true);
    p.save_pot_enabled(false);
    p.save_screen(Screen::Oil);
    assert!(p.load_screen_forced());
    assert!(!p.load_pot_enabled());
    assert_eq!(p.load_screen(), Some(Screen::Oil));
    let p = Persist::new(Some(7), Some(2), Some(5));
    assert!(p.load_screen_forced());
    assert!(p.load_pot_enabled());
    assert_eq!(p.load_screen(), None);
}

#[test]
fn screens_go_round() {
    let mut s = Screen::Btc;
    for i in 0..Screen::COUNT as u8 {
        assert_eq!(s.to_u8(), i);
        assert_eq!(Screen::from_u8(i), Some(s));
        s = s.next();
    }
    assert_eq!(s, Screen::Btc);
    assert_eq!(Screen::from_u8(5), None);
    assert_eq!(Screen::Gold.name(), " GOLD USD/oz");
    assert_eq!(Screen::Oil.name(), " OIL WTI/bbl");
    assert_eq!(Screen::Btc.decimals(), 0);
    assert_eq!(Screen::Sol.decimals(), 2);
    assert_eq!(Screen::UsdBrl.decimals(), 4);
}

#[test]
fn settings_are_read_from_text() {
    assert_eq!(ip_from_env(b"192.168.1.77"), [192, 168, 1, 77]);
    assert_eq!(laptop_ip_from_env(b"10.0.0.1"), [10, 0, 0, 1]);
    assert_eq!(ip_from_env(b"300.1"), [44, 1, 0, 0]);
    assert_eq!(ip_from_env(b""), [0, 0, 0, 0]);
    assert_eq!(&key_from_env(b"0123456789abcdef"), b"0123456789abcdef");
}

#[test]
fn addresses_are_written_out() {
    assert_eq!(
        url_dht_timeseries(24),
        "http://192.168.1.105:30081/api/events/timeseries?event_type=dht22_reading&keys=temp_c,humidity_pct&hours=24"
    );
    assert_eq!(
        url_weather(),
        "https://api.open-meteo.com/v1/forecast?latitude=-27.5954&longitude=-48.548&current=temperature_2m,weather_code&timezone=America%2FSao_Paulo"
    );
}

#[test]
fn doubles_know_their_sign() {
    assert!(d(0.1).is_positive() && d(f64::INFINITY).is_positive());
    assert!(!d(0.0).is_positive() && !d(-0.1).is_positive() && !d(f64::NAN).is_positive());
    assert!(d(-0.0).at_most_zero() && d(0.0).at_most_zero() && d(-5.0).at_most_zero());
    assert!(!d(5.0).at_most_zero() && !d(f64::NAN).at_most_zero());
    assert!(d(-0.0).at_least_zero() && d(1.0).at_least_zero());
    assert!(!d(-1.0).at_least_zero() && !d(f64::NAN).at_least_zero());
    assert!(!d(-f64::NAN).at_least_zero() && !d(-f64::NAN).at_most_zero());
}
