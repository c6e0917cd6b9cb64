use fin_esp::api::MarketData;
use fin_esp::calendar::{day_and_month, get_date_string, get_time_string};
use fin_esp::cgram::{SLOT_ASSET, SLOT_DEGREE, SLOT_HOURGLASS, SLOT_LAMP, SLOT_SUN_CLOUD, SLOT_WIFI};
use fin_esp::chart::{
    build_chart, current_price, draw, last_samples, line_glyph, render as render_chart,
    short_price, slot_for, ChartText,
};
use fin_esp::config::Screen;
use fin_esp::double::Double;
use fin_esp::fmt::{format_change_row, format_price, format_price_row, insert_commas, pad_to_20};
use fin_esp::glyphs::{
    countdown_glyph, GLYPH_LAMP_OFF, GLYPH_LAMP_ON, GLYPH_LAMP_UNK, GLYPH_RAIN, GLYPH_SUN_CLOUD,
    GLYPH_WIFI_OFF, GLYPH_WIFI_ON, HOURGLASS,
};
use fin_esp::history::PriceHistory;
use fin_esp::lcd::Lcd;
use fin_esp::screen::{RowCache, UiState};
use fin_esp::ticker::{
    all_glyphs, build_asset_row, build_change_row, build_header, build_price_row, paint_header,
    prime_cgram, render, str_to_row, TickerText,
};
use fin_esp::tuya::LampState;

fn d(v: f64) -> Double {
    Double { bits: v.to_bits() }
}

fn state() -> UiState {
    let mut st = UiState::default();
    st.data = MarketData {
        price_btc: d(67123.4),
        chg_btc_pct: d(-1.26),
        ok_crypto: true,
        price_usd_brl: d(5.4321),
        chg_usd_brl_pct: d(0.3),
        ok_usd_brl: true,
        weather_temp: Some(d(26.4)),
        weather_code: Some(0),
        ok_weather: true,
        ..MarketData::default()
    };
    st
}

fn words(scaled: u64, change: &str, temp: &str) -> TickerText {
    TickerText { scaled, change: change.to_string(), temp: temp.to_string() }
}

#[test]
fn commas_stand_between_groups_of_three() {
    assert_eq!(insert_commas("12345678"), "12,345,678");
    assert_eq!(insert_commas(""), "");
    assert_eq!(insert_commas("123"), "123");
    assert_eq!(insert_commas("1234"), "1,234");
    assert_eq!(insert_commas("123456"), "123,456");
    assert_eq!(insert_commas("-123"), "-,123");
}

#[test]
fn prices_have_their_decimals() {
    assert_eq!(format_price(d(67123.4), 67123, 0), "67,123");
    assert_eq!(format_price(d(151.07), 15107, 2), "151.07");
    assert_eq!(format_price(d(5.4321), 54321, 4), "5.4321");
    assert_eq!(format_price(d(1234567.5), 123456750, 2), "1,234,567.50");
    assert_eq!(format_price(d(0.0), 0, 2), "--");
    assert_eq!(format_price(d(-0.0), 0, 2), "--");
    assert_eq!(format_price(d(-3.0), 0, 2), "--");
}

#[test]
fn price_rows_are_twenty_wide() {
    assert_eq!(format_price_row(d(67123.4), 67123, 0), "Price: $ 67,123     ");
    assert_eq!(format_price_row(d(0.0), 0, 0), "Price: $ --         ");
}

#[test]
fn change_rows_show_arrow_and_weather() {
    assert_eq!(
        format_change_row(d(2.34), "2.34", true, Some("26"), "clear"),
        "^+2.34%  26C clear  "
    );
    assert_eq!(format_change_row(d(-0.5), "0.50", true, None, "clear"), "v-0.50%             ");
    assert_eq!(format_change_row(d(0.0), "0.00", true, None, ""), "^+0.00%             ");
    assert_eq!(format_change_row(d(1.0), "1.00", false, Some("-3"), "fog"), "         -3C fog    ");
    assert_eq!(format_change_row(d(1.0), "1.00", false, None, "fog"), " ".repeat(20));
    // A long change pushes the weather on, and the row is cut.
    assert_eq!(
        format_change_row(d(-1234.5), "1234.50", true, Some("26"), "clear"),
        "v-1234.50%26C clear "
    );
    assert_eq!(
        format_change_row(d(-1234567.5), "1234567.50", true, Some("26"), "clear"),
        "v-1234567.50%26C cle"
    );
}

#[test]
fn padding_counts_characters() {
    assert_eq!(pad_to_20("abc"), "abc                 ");
    assert_eq!(pad_to_20("0123456789012345678901234"), "01234567890123456789");
    let padded = pad_to_20("ção");
    assert_eq!(padded.chars().count(), 20);
    assert!(padded.starts_with("ção "));
}

#[test]
fn dates_are_local() {
    assert_eq!(get_date_string(1_700_000_000), "14/11");
    assert_eq!(get_time_string(1_700_000_000), " 7:13:20p");
    // Three hours behind: still the last day of the year.
    assert_eq!(get_date_string(1_704_067_200), "31/12");
    assert_eq!(get_time_string(1_704_067_200), " 9:00:00p");
    assert_eq!(get_date_string(1_709_218_800), "29/02");
    assert_eq!(get_time_string(1_709_218_800), "12:00:00p");
    assert_eq!(get_time_string(10_800), "12:00:00a");
    assert_eq!(get_date_string(0), "01/01");
    assert_eq!(get_time_string(0), " 9:00:00p");
}

#[test]
fn days_follow_each_other() {
    assert_eq!(day_and_month(0), (1, 1));
    assert_eq!(day_and_month(58), (28, 2));
    assert_eq!(day_and_month(59), (1, 3));
    assert_eq!(day_and_month(364), (31, 12));
    assert_eq!(day_and_month(365), (1, 1));
    // 29 February 2000 and the day after.
    assert_eq!(day_and_month(11_016), (29, 2));
    assert_eq!(day_and_month(11_017), (1, 3));
}

#[test]
fn header_shows_clock_and_icons() {
    let mut st = state();
    let row = build_header(&st, 1_700_000_000);
    assert_eq!(row[0], SLOT_WIFI);
    assert_eq!(row[3], b'!');
    assert_eq!(row[4], SLOT_LAMP);
    assert_eq!(&row[6..11], b"14/11");
    assert_eq!(&row[12..20], b" 7:13:20");
    st.fetch_completed_at = 5;
    assert_eq!(build_header(&st, 1_700_000_000)[3], SLOT_HOURGLASS);
    st.fetch_completed_at = 0;
    st.fetching = true;
    assert_eq!(build_header(&st, 1_700_000_000)[3], SLOT_HOURGLASS);
}

#[test]
fn asset_rows_name_the_screen() {
    let mut st = state();
    assert_eq!(build_asset_row(&st)[0], SLOT_ASSET);
    assert_eq!(&build_asset_row(&st)[1..], b" BTC / USD         ");
    st.screen = Screen::UsdBrl;
    assert_eq!(&build_asset_row(&st), b"$ USD / BRL         ");
}

#[test]
fn price_row_follows_the_screen() {
    let mut st = state();
    assert_eq!(&build_price_row(&st, 67123), b"Price: $ 67,123     ");
    st.screen = Screen::UsdBrl;
    assert_eq!(&build_price_row(&st, 54321), b"Price: $ 5.4321     ");
    st.screen = Screen::Gold;
    assert_eq!(&build_price_row(&st, 0), b"Price: $ --         ");
    assert_eq!(&str_to_row("0123456789012345678901"), b"01234567890123456789");
}

#[test]
fn change_row_has_change_left_and_weather_right() {
    let mut st = state();
    let row = build_change_row(&st, &words(0, "-1.3%", "26"));
    assert_eq!(row[0], 3);
    assert_eq!(&row[1..8], b"-1.3%  ");
    assert_eq!(row[8], SLOT_SUN_CLOUD);
    assert_eq!(&row[9..12], b" 26");
    assert_eq!(row[12], SLOT_DEGREE);
    assert_eq!(&row[13..], b"C clear");
    st.data.ok_weather = false;
    let row = build_change_row(&st, &words(0, "-1234567.8%", "26"));
    assert_eq!(&row[1..], b"-123456            ");
    st.screen = Screen::Gold;
    assert_eq!(&build_change_row(&st, &words(0, "", "")), b"--%                 ");
    st.screen = Screen::UsdBrl;
    assert_eq!(build_change_row(&st, &words(0, "0.3%", ""))[0], 2);
}

#[test]
fn glyphs_follow_the_state() {
    let mut st = state();
    let g = all_glyphs(&st, 0);
    assert_eq!(g[0], GLYPH_LAMP_UNK);
    assert_eq!(g[1], GLYPH_WIFI_OFF);
    assert_eq!(g[4], GLYPH_SUN_CLOUD);
    assert_eq!(g[6], countdown_glyph(30));
    st.lamp = LampState { on: true, known: true };
    st.wifi_connected = true;
    st.data.weather_code = Some(61);
    let g = all_glyphs(&st, 0);
    assert_eq!(g[0], GLYPH_LAMP_ON);
    assert_eq!(g[1], GLYPH_WIFI_ON);
    assert_eq!(g[4], GLYPH_RAIN);
    st.lamp.on = false;
    assert_eq!(all_glyphs(&st, 0)[0], GLYPH_LAMP_OFF);
    st.lamp_anim_until = 100;
    st.lamp_loading_frame = 18;
    assert_eq!(all_glyphs(&st, 99)[0], HOURGLASS[1]);
    assert_eq!(all_glyphs(&st, 100)[0], GLYPH_LAMP_OFF);
    st.fetching = true;
    st.loading_frame = 16;
    assert_eq!(all_glyphs(&st, 0)[6], HOURGLASS[16]);
    st.fetching = false;
    st.fetch_completed_at = 1_000;
    assert_eq!(all_glyphs(&st, 999)[6], countdown_glyph(30));
    assert_eq!(all_glyphs(&st, 2_999)[6], countdown_glyph(30));
    assert_eq!(all_glyphs(&st, 3_000)[6], countdown_glyph(29));
    assert_eq!(all_glyphs(&st, 6_000)[6], countdown_glyph(27));
    assert_eq!(all_glyphs(&st, 9_000)[6], countdown_glyph(25));
    // The product of seconds and dots wraps at one byte.
    assert_eq!(all_glyphs(&st, 10_000)[6], countdown_glyph(30));
    assert_eq!(all_glyphs(&st, 17_999)[6], countdown_glyph(25));
    assert_eq!(all_glyphs(&st, 45_000)[6], countdown_glyph(30));
    assert_eq!(all_glyphs(&st, 900_000)[6], countdown_glyph(30));
}

#[test]
fn shown_slots_are_loaded_before_the_rows() {
    let st = state();
    let text = words(67123, "-1.3%", "26");
    let mut lcd = Lcd::new(0x27);
    let mut cache = RowCache::new();
    render(&mut lcd, &mut cache, &st, &text, 0, 1_700_000_000);
    assert!(!lcd.take_ops().is_empty());
    // Everything but the first row stands.
    render(&mut lcd, &mut cache, &st, &text, 0, 1_700_000_000);
    let again = lcd.take_ops().len();
    paint_header(&mut lcd, &mut cache, &st, 0, 1_700_000_000);
    assert_eq!(lcd.take_ops().len(), again);
    // The slots that the rows do not use are still to be loaded: up arrow and hourglass.
    prime_cgram(&mut lcd, &mut cache, &st, 0);
    assert_eq!(lcd.take_ops().len(), 2 * 9 * 6);
    prime_cgram(&mut lcd, &mut cache, &st, 0);
    assert!(lcd.take_ops().is_empty());
}

#[test]
fn short_prices_are_five_wide() {
    assert_eq!(&short_price("67.1k"), b"67.1k");
    assert_eq!(&short_price("5.4"), b"  5.4");
    assert_eq!(&short_price("1234.56"), b"34.56");
    assert_eq!(&short_price(""), b"     ");
}

#[test]
fn lines_are_drawn_without_gaps() {
    assert_eq!(line_glyph(3, 3, 0), [0, 0, 0, 0, 31, 0, 0, 0]);
    assert_eq!(line_glyph(3, 3, 8), [0; 8]);
    // A climb of four: one pixel per column.
    assert_eq!(line_glyph(0, 4, 0), [0, 0, 0, 1, 2, 4, 8, 16]);
    // A steep climb fills every row of the cell.
    for row in line_glyph(0, 23, 8) {
        assert!(row != 0);
    }
    assert_eq!(line_glyph(23, 23, 16), [31, 0, 0, 0, 0, 0, 0, 0]);
}

#[test]
fn segments_of_a_chart_meet() {
    // Heights 2, 6 and 4: the segments of neighbours end and begin at 4, then at 5.
    let (a, b, c) = (line_glyph(2, 4, 0), line_glyph(4, 5, 0), line_glyph(5, 4, 0));
    let left = |g: [u8; 8]| g.iter().position(|r| r & 0b10000 != 0);
    let right = |g: [u8; 8]| g.iter().position(|r| r & 0b00001 != 0);
    assert_eq!(right(a), left(b));
    assert_eq!(right(b), left(c));
}

#[test]
fn chart_slots_are_shared() {
    let mut reg = [[0u8; 8]; 8];
    let mut count = 0usize;
    assert_eq!(slot_for(&mut reg, &mut count, [1; 8]), 0);
    assert_eq!(slot_for(&mut reg, &mut count, [2; 8]), 1);
    assert_eq!(slot_for(&mut reg, &mut count, [1; 8]), 0);
    assert_eq!(count, 2);
    for i in 3..9u8 {
        slot_for(&mut reg, &mut count, [i; 8]);
    }
    assert_eq!(count, 8);
    // Full: the closest if at most ten bits differ, else a bar.
    assert_eq!(slot_for(&mut reg, &mut count, [1, 1, 1, 1, 1, 1, 1, 3]), 0);
    assert_eq!(slot_for(&mut reg, &mut count, [31; 8]), b'|');
}

#[test]
fn charts_show_the_last_eight_samples() {
    let prices: Vec<Double> = (0..10).map(|i| d(i as f64)).collect();
    let last = last_samples(&prices);
    assert_eq!(last.len(), 8);
    assert_eq!(last[0], d(2.0));
    assert_eq!(last[7], d(9.0));
    assert_eq!(last_samples(&prices[..3]).len(), 3);
}

#[test]
fn older_samples_make_no_difference() {
    let st = state();
    let describe = |s: &[Double]| ChartText {
        change: None,
        price: format!("{}", s.len()),
        labels: None,
        heights: s.iter().map(|p| f64::from_bits(p.bits) as i32 % 24).collect(),
    };
    let prices: Vec<Double> = (1..=20).map(|i| d(i as f64)).collect();
    let drawn = |p: &[Double]| {
        let (mut lcd, mut cache) = (Lcd::new(0x27), RowCache::new());
        render_chart(&mut lcd, &mut cache, &st, p, describe);
        let first = lcd.take_ops();
        // What the cache holds shows in what is sent next.
        render_chart(&mut lcd, &mut cache, &st, p, describe);
        (first, lcd.take_ops())
    };
    assert_eq!(drawn(&prices), drawn(&prices[12..]));
    assert_ne!(drawn(&prices), drawn(&prices[13..]));
    let (mut lcd, mut cache) = (Lcd::new(0x27), RowCache::new());
    draw(&mut lcd, &mut cache, &st, &describe(&prices[12..]));
    assert_eq!(lcd.take_ops(), drawn(&prices).0);
}

#[test]
fn charts_have_header_labels_and_line() {
    let st = state();
    assert_eq!(current_price(&st), d(67123.4));
    let text = ChartText {
        change: Some("+1.5%".to_string()),
        price: "67.1k".to_string(),
        labels: Some(("67.1k".to_string(), "66.1k".to_string())),
        heights: vec![0, 23],
    };
    let (rows, cgram) = build_chart(&st, &text);
    assert_eq!(&rows[0], b"BTC     +1.5%  67.1k");
    assert_eq!(&rows[1][..5], b"67.1k");
    assert_eq!(&rows[3][..5], b"66.1k");
    // Two columns, centred: the line rises from the bottom row to the top row.
    assert_eq!(rows[3][11], 1);
    assert_eq!(rows[2][11], 0);
    assert_eq!(rows[1][12], 2);
    assert_eq!(cgram[0], line_glyph(0, 11, 8));
    assert_eq!(cgram[1], line_glyph(0, 11, 0));
    let text = ChartText { change: None, price: "67.1k".to_string(), labels: None, heights: vec![7] };
    let (rows, _) = build_chart(&st, &text);
    assert_eq!(&rows[0], b"BTC            67.1k");
    assert_eq!(&rows[2], b"  not enough data   ");
}

#[test]
fn history_keeps_the_last_sixty() {
    let mut h = PriceHistory::new();
    let mut out = [Double::zero(); 100];
    assert_eq!(h.get(Screen::Oil, &mut out), 0);
    for i in 1..=70 {
        h.push(Screen::Oil, d(i as f64));
    }
    h.push(Screen::Oil, d(0.0));
    h.push(Screen::Oil, d(-5.0));
    assert_eq!(h.get(Screen::Oil, &mut out), 60);
    assert_eq!(out[0], d(11.0));
    assert_eq!(out[59], d(70.0));
    let mut few = [Double::zero(); 3];
    assert_eq!(h.get(Screen::Oil, &mut few), 3);
    assert_eq!(few, [d(68.0), d(69.0), d(70.0)]);
    assert_eq!(h.get(Screen::Btc, &mut out), 0);
}
