//! The ticker screen: header with clock and icons, asset, price, change and weather.

use vstd::prelude::*;

use crate::api;
use crate::calendar;
use crate::cgram::{
    SLOT_ASSET, SLOT_DEGREE, SLOT_DOWN_ARROW, SLOT_HOURGLASS, SLOT_LAMP, SLOT_SUN_CLOUD,
    SLOT_UP_ARROW, SLOT_WIFI,
};
use crate::chart;
use crate::config;
use crate::config::Screen;
use crate::double::Double;
use crate::fmt;
use crate::glyphs;
use crate::glyphs::Glyph;
use crate::lcd;
use crate::lcd::Lcd;
use crate::screen;
use crate::screen::{RowCache, UiState};

verus! {

/// Seconds that the countdown runs over: the fetch interval, cut to one byte.
pub const COUNTDOWN_SECS: u64 = config::FETCH_INTERVAL_MS / 1000 % 256;

/// What the rows show, where it took real arithmetic to get it.
pub struct TickerText {
    /// The price of the screen as a whole number of its last decimal place.
    pub scaled: u64,
    /// The change of the screen, one decimal place and a percent sign.
    pub change: String,
    /// The temperature, rounded. Of no account where there is none.
    pub temp: String,
}

/// A label and a temperature are there to be shown.
pub open spec fn shows_weather(state: UiState) -> bool {
    state.data.ok_weather && state.data.weather_temp is Some && state.data.weather_code is Some
}

/// The weather fits the row: temperature and label leave room for the icon, the degree sign and
/// what stands between.
pub open spec fn weather_fits(state: UiState, text: TickerText) -> bool {
    shows_weather(state) ==> vstd::utf8::encode_utf8(text.temp@).len() + vstd::utf8::encode_utf8(
        api::weather_word(state.data.weather_code->0),
    ).len() <= 15
}

// ── Glyph computation ─────────────────────────────────────────────────────────
/// Whole seconds since the last fetch, at most the length of the countdown.
pub open spec fn elapsed_secs(state: UiState, now_ms: u64) -> int {
    if state.fetch_completed_at > 0 && now_ms >= state.fetch_completed_at {
        chart::least((now_ms - state.fetch_completed_at) / 1000, COUNTDOWN_SECS as int)
    } else {
        0
    }
}

/// Dots that the countdown has lost after this many seconds, where all 30 last for the 44 seconds
/// of the countdown. The product is taken in one byte and wraps, so from the ninth second on the
/// dots come back and go again.
pub open spec fn dots_gone(secs: int) -> int {
    (secs * 30) % 256 / 44
}

/// The glyph of each slot.
pub open spec fn glyph_for(state: UiState, now_ms: u64, slot: int) -> Seq<u8> {
    if slot == SLOT_LAMP {
        if state.lamp_anim_until > 0 && now_ms < state.lamp_anim_until {
            glyphs::HOURGLASS[state.lamp_loading_frame as int % 17]@
        } else if !state.lamp.known {
            glyphs::GLYPH_LAMP_UNK@
        } else if state.lamp.on {
            glyphs::GLYPH_LAMP_ON@
        } else {
            glyphs::GLYPH_LAMP_OFF@
        }
    } else if slot == SLOT_WIFI {
        if state.wifi_connected {
            glyphs::GLYPH_WIFI_ON@
        } else {
            glyphs::GLYPH_WIFI_OFF@
        }
    } else if slot == SLOT_UP_ARROW {
        glyphs::GLYPH_UP_ARROW@
    } else if slot == SLOT_DOWN_ARROW {
        glyphs::GLYPH_DOWN_ARROW@
    } else if slot == SLOT_SUN_CLOUD {
        if state.data.weather_code is Some && api::rainy(state.data.weather_code->0) {
            glyphs::GLYPH_RAIN@
        } else {
            glyphs::GLYPH_SUN_CLOUD@
        }
    } else if slot == SLOT_DEGREE {
        glyphs::GLYPH_DEGREE@
    } else if slot == SLOT_HOURGLASS {
        if state.fetching {
            glyphs::HOURGLASS[state.loading_frame as int % 17]@
        } else {
            glyphs::countdown(30 - dots_gone(elapsed_secs(state, now_ms)))
        }
    } else {
        glyphs::asset_icon(state.screen)@
    }
}

/// The glyphs of all slots.
pub open spec fn ticker_glyphs(state: UiState, now_ms: u64) -> Seq<Seq<u8>> {
    Seq::new(8, |slot: int| glyph_for(state, now_ms, slot))
}

pub fn all_glyphs(state: &UiState, now_ms: u64) -> (g: [Glyph; 8])
    ensures
        screen::glyph_views(g) == ticker_glyphs(*state, now_ms),
{
    let lamp_anim: bool = state.lamp_anim_until > 0 && now_ms < state.lamp_anim_until;
    let lamp: Glyph = if lamp_anim {
        glyphs::HOURGLASS[state.lamp_loading_frame as usize % 17]
    } else if !state.lamp.known {
        glyphs::GLYPH_LAMP_UNK
    } else if state.lamp.on {
        glyphs::GLYPH_LAMP_ON
    } else {
        glyphs::GLYPH_LAMP_OFF
    };
    let wifi: Glyph = if state.wifi_connected {
        glyphs::GLYPH_WIFI_ON
    } else {
        glyphs::GLYPH_WIFI_OFF
    };
    let rain: bool = match state.data.weather_code {
        Some(code) => api::wmo_is_rain(code),
        None => false,
    };
    let sky: Glyph = if rain {
        glyphs::GLYPH_RAIN
    } else {
        glyphs::GLYPH_SUN_CLOUD
    };
    let wait: Glyph = if state.fetching {
        glyphs::HOURGLASS[state.loading_frame as usize % 17]
    } else {
        let elapsed: u64 = if state.fetch_completed_at > 0 && now_ms >= state.fetch_completed_at {
            let secs: u64 = (now_ms - state.fetch_completed_at) / 1000;
            if secs < COUNTDOWN_SECS {
                secs
            } else {
                COUNTDOWN_SECS
            }
        } else {
            0
        };
        assert(COUNTDOWN_SECS == 44);
        let dots: u8 = (30 - (elapsed * 30) % 256 / COUNTDOWN_SECS) as u8;
        glyphs::countdown_glyph(dots)
    };
    let g: [Glyph; 8] = [
        lamp,
        wifi,
        glyphs::GLYPH_UP_ARROW,
        glyphs::GLYPH_DOWN_ARROW,
        sky,
        glyphs::GLYPH_DEGREE,
        wait,
        *glyphs::asset_glyph(state.screen),
    ];
    assert(screen::glyph_views(g) =~= ticker_glyphs(*state, now_ms));
    g
}

// ── Row builders ──────────────────────────────────────────────────────────────
/// Wifi icon, fetch state, lamp icon, date, and the time without its last letter.
pub open spec fn header_row(state: UiState, unix: u64) -> Seq<u8> {
    Seq::new(
        20,
        |k: int|
            if k == 0 {
                SLOT_WIFI
            } else if k == 3 {
                if state.fetching || state.fetch_completed_at > 0 {
                    SLOT_HOURGLASS
                } else {
                    0x21
                }
            } else if k == 4 {
                SLOT_LAMP
            } else if 6 <= k < 11 {
                calendar::date_text(unix)[k - 6] as u8
            } else if k >= 12 {
                calendar::time_text(unix)[k - 12] as u8
            } else {
                0x20
            },
    )
}

pub fn build_header(state: &UiState, unix: u64) -> (row: [u8; 20])
    requires
        unix <= i64::MAX,
    ensures
        row@ == header_row(*state, unix),
{
    let mut row: [u8; 20] = [0x20u8; 20];
    row[0] = SLOT_WIFI;
    row[3] = if state.fetching || state.fetch_completed_at > 0 {
        SLOT_HOURGLASS
    } else {
        0x21
    };
    row[4] = SLOT_LAMP;
    let date: String = calendar::get_date_string(unix);
    let time: String = calendar::get_time_string(unix);
    let d: &[u8] = date.as_str().as_bytes();
    let t: &[u8] = time.as_str().as_bytes();
    proof {
        vstd::utf8::is_ascii_chars_encode_utf8(date@);
        vstd::utf8::is_ascii_chars_encode_utf8(time@);
    }
    let mut i: usize = 0;
    while i < 5
        invariant
            i <= 5,
            d@.len() == 5,
            row[0] == SLOT_WIFI,
            row[3] == header_row(*state, unix)[3],
            row[4] == SLOT_LAMP,
            forall|k: int| 0 <= k < 20 && k != 0 && k != 3 && k != 4 ==> #[trigger] row[k] == if 6
                <= k < 6 + i {
                d@[k - 6]
            } else {
                0x20
            },
        decreases 5 - i,
    {
        row[6 + i] = d[i];
        i += 1;
    }
    let mut j: usize = 0;
    while j < 8
        invariant
            j <= 8,
            t@.len() == 9,
            d@.len() == 5,
            row[0] == SLOT_WIFI,
            row[3] == header_row(*state, unix)[3],
            row[4] == SLOT_LAMP,
            forall|k: int| 0 <= k < 20 && k != 0 && k != 3 && k != 4 ==> #[trigger] row[k] == if 6
                <= k < 11 {
                d@[k - 6]
            } else if 12 <= k < 12 + j {
                t@[k - 12]
            } else {
                0x20
            },
        decreases 8 - j,
    {
        row[12 + j] = t[j];
        j += 1;
    }
    proof {
        assert forall|k: int| 0 <= k < 20 implies #[trigger] row@[k] == header_row(
            *state,
            unix,
        )[k] by {
            if 6 <= k < 11 {
                assert(date@[k - 6] as u8 == d@[k - 6]);
            }
            if 12 <= k {
                assert(time@[k - 12] as u8 == t@[k - 12]);
            }
        }
        assert(row@ =~= header_row(*state, unix));
    }
    row
}

/// A text, cut at the end of the row, and blanks behind it.
pub open spec fn text_row(bytes: Seq<u8>) -> Seq<u8> {
    Seq::new(
        20,
        |i: int|
            if i < bytes.len() {
                bytes[i]
            } else {
                0x20
            },
    )
}

/// The first twenty bytes of a text, and blanks where it has fewer.
pub fn str_to_row(s: &str) -> (row: [u8; 20])
    ensures
        row@ == text_row(vstd::utf8::encode_utf8(s@)),
{
    let bytes: &[u8] = s.as_bytes();
    let mut row: [u8; 20] = [0x20u8; 20];
    let mut i: usize = 0;
    while i < 20 && i < bytes.len()
        invariant
            i <= 20,
            i <= bytes@.len(),
            forall|k: int| 0 <= k < 20 ==> #[trigger] row[k] == if k < i {
                bytes@[k]
            } else {
                0x20
            },
        decreases 20 - i,
    {
        row[i] = bytes[i];
        i += 1;
    }
    assert(row@ =~= text_row(bytes@));
    row
}

/// The asset's icon and name.
pub open spec fn asset_row(screen: Screen) -> Seq<u8> {
    text_row(
        seq![
            if screen == Screen::UsdBrl {
                0x24u8
            } else {
                SLOT_ASSET
            },
        ] + vstd::utf8::encode_utf8(screen.title()),
    )
}

pub fn build_asset_row(state: &UiState) -> (row: [u8; 20])
    ensures
        row@ == asset_row(state.screen),
{
    let mut row: [u8; 20] = [0x20u8; 20];
    row[0] = if state.screen == Screen::UsdBrl {
        0x24
    } else {
        SLOT_ASSET
    };
    let name: &str = state.screen.name();
    let bytes: &[u8] = name.as_bytes();
    let mut i: usize = 0;
    while i < bytes.len() && i < 19
        invariant
            i <= bytes@.len(),
            i <= 19,
            row[0] == (if state.screen == Screen::UsdBrl { 0x24u8 } else { SLOT_ASSET }),
            forall|k: int| 1 <= k < 20 ==> #[trigger] row[k] == if k - 1 < i {
                bytes@[k - 1]
            } else {
                0x20
            },
        decreases 19 - i,
    {
        row[i + 1] = bytes[i];
        i += 1;
    }
    assert(row@ =~= asset_row(state.screen));
    row
}

pub open spec fn price_row(state: UiState, scaled: u64) -> Seq<u8> {
    text_row(
        vstd::utf8::encode_utf8(
            fmt::twenty(
                "Price: $ "@ + fmt::price_text(
                    chart::price_of(state),
                    scaled,
                    state.screen.places(),
                ),
            ),
        ),
    )
}

pub fn build_price_row(state: &UiState, scaled: u64) -> (row: [u8; 20])
    ensures
        row@ == price_row(*state, scaled),
{
    let price: Double = chart::current_price(state);
    let s: String = fmt::format_price_row(price, scaled, state.screen.decimals());
    str_to_row(s.as_str())
}

/// The change that a screen shows, and whether there is one.
pub open spec fn change_of(state: UiState) -> (Double, bool) {
    match state.screen {
        Screen::Btc => (state.data.chg_btc_pct, state.data.ok_crypto),
        Screen::Sol => (state.data.chg_sol_pct, state.data.ok_crypto),
        Screen::Gold => (state.data.chg_gold_pct, state.data.has_chg_gold),
        Screen::Oil => (state.data.chg_oil_pct, state.data.has_chg_oil),
        Screen::UsdBrl => (state.data.chg_usd_brl_pct, state.data.ok_usd_brl),
    }
}

/// Change: an arrow and at most seven bytes of text, or `--%`.
pub open spec fn change_cells(state: UiState, change: Seq<u8>) -> Seq<u8> {
    let (chg, has) = change_of(state);
    if has {
        seq![
            if chg.above_zero() || chg.equals_zero() {
                SLOT_UP_ARROW
            } else {
                SLOT_DOWN_ARROW
            },
        ] + change.take(chart::least(change.len() as int, 7))
    } else {
        seq![0x2Du8, 0x2D, 0x25]
    }
}

/// Weather: icon, temperature, degree sign and label.
pub open spec fn weather_cells(temp: Seq<u8>, label: Seq<u8>) -> Seq<u8> {
    seq![SLOT_SUN_CLOUD, 0x20u8] + temp + seq![SLOT_DEGREE, 0x43u8, 0x20u8] + label
}

/// `left` with `right` laid over its end.
pub open spec fn over_end(left: Seq<u8>, right: Seq<u8>) -> Seq<u8> {
    left.take(left.len() - right.len()) + right
}

/// Change on the left, weather on the right. Where they meet, the weather is on top.
pub open spec fn change_row(state: UiState, change: Seq<u8>, temp: Seq<u8>) -> Seq<u8> {
    let left = text_row(change_cells(state, change));
    if shows_weather(state) {
        over_end(
            left,
            weather_cells(
                temp,
                vstd::utf8::encode_utf8(api::weather_word(state.data.weather_code->0)),
            ),
        )
    } else {
        left
    }
}

/// A temperature of up to ten bytes fits the row, whatever the weather.
pub proof fn law_ten_bytes_fit(state: UiState, text: TickerText)
    requires
        vstd::utf8::encode_utf8(text.temp@).len() <= 10,
    ensures
        weather_fits(state, text),
{
    let code = state.data.weather_code->0;
    reveal_strlit("clear");
    reveal_strlit("fine");
    reveal_strlit("p.cld");
    reveal_strlit("cloud");
    reveal_strlit("fog");
    reveal_strlit("drzl");
    reveal_strlit("rain");
    reveal_strlit("snow");
    reveal_strlit("shwr");
    reveal_strlit("storm");
    reveal_strlit("wx");
    let w = api::weather_word(code);
    assert(w.len() <= 5);
    assert(vstd::utf8::is_ascii_chars(w));
    vstd::utf8::is_ascii_chars_encode_utf8(w);
}

/// Writes bytes into a row from a column on.
fn place(row: &mut [u8; 20], start: usize, bytes: &[u8])
    requires
        start + bytes@.len() <= 20,
    ensures
        final(row)@ == old(row)@.take(start as int) + bytes@ + old(row)@.skip(start + bytes@.len()),
{
    let mut i: usize = 0;
    while i < bytes.len()
        invariant
            i <= bytes@.len(),
            start + bytes@.len() <= 20,
            forall|k: int| 0 <= k < 20 ==> #[trigger] row[k] == if start <= k < start + i {
                bytes@[k - start]
            } else {
                old(row)[k]
            },
        decreases bytes@.len() - i,
    {
        row[start + i] = bytes[i];
        i += 1;
    }
    assert(row@ =~= old(row)@.take(start as int) + bytes@ + old(row)@.skip(start + bytes@.len()));
}

/// Writes the weather at the end of a row.
fn place_weather(row: &mut [u8; 20], temp: &[u8], label: &[u8])
    requires
        5 + temp@.len() + label@.len() <= 20,
    ensures
        final(row)@ == over_end(old(row)@, weather_cells(temp@, label@)),
{
    let start: usize = 20 - (5 + temp.len() + label.len());
    let icon: [u8; 2] = [SLOT_SUN_CLOUD, 0x20];
    let unit: [u8; 3] = [SLOT_DEGREE, 0x43, 0x20];
    let ghost before = row@;
    place(row, start, icon.as_slice());
    assert(row@.take(start + 2) =~= before.take(start as int) + icon@);
    place(row, start + 2, temp);
    assert(row@.take(start + 2 + temp@.len()) =~= before.take(start as int) + icon@ + temp@);
    let behind: usize = start + 2 + temp.len();
    place(row, behind, unit.as_slice());
    assert(row@.take(behind + 3) =~= before.take(start as int) + icon@ + temp@ + unit@);
    place(row, behind + 3, label);
    assert(row@ =~= before.take(start as int) + icon@ + temp@ + unit@ + label@);
    assert(icon@ =~= seq![SLOT_SUN_CLOUD, 0x20u8]);
    assert(unit@ =~= seq![SLOT_DEGREE, 0x43u8, 0x20u8]);
    assert(row@ =~= over_end(before, weather_cells(temp@, label@)));
}

fn build_change_cells(state: &UiState, change: &str) -> (row: [u8; 20])
    ensures
        row@ == text_row(change_cells(*state, vstd::utf8::encode_utf8(change@))),
{
    let (chg, has): (Double, bool) = match state.screen {
        Screen::Btc => (state.data.chg_btc_pct, state.data.ok_crypto),
        Screen::Sol => (state.data.chg_sol_pct, state.data.ok_crypto),
        Screen::Gold => (state.data.chg_gold_pct, state.data.has_chg_gold),
        Screen::Oil => (state.data.chg_oil_pct, state.data.has_chg_oil),
        Screen::UsdBrl => (state.data.chg_usd_brl_pct, state.data.ok_usd_brl),
    };
    let mut row: [u8; 20] = [0x20u8; 20];
    if has {
        row[0] = if chg.at_least_zero() {
            SLOT_UP_ARROW
        } else {
            SLOT_DOWN_ARROW
        };
        let bytes: &[u8] = change.as_bytes();
        let n: usize = if bytes.len() < 7 {
            bytes.len()
        } else {
            7
        };
        place(&mut row, 1, vstd::slice::slice_subrange(bytes, 0, n));
    } else {
        row[0] = 0x2D;
        row[1] = 0x2D;
        row[2] = 0x25;
    }
    assert(row@ =~= text_row(change_cells(*state, vstd::utf8::encode_utf8(change@))));
    row
}

pub fn build_change_row(state: &UiState, text: &TickerText) -> (row: [u8; 20])
    requires
        weather_fits(*state, *text),
    ensures
        row@ == change_row(
            *state,
            vstd::utf8::encode_utf8(text.change@),
            vstd::utf8::encode_utf8(text.temp@),
        ),
{
    let mut row: [u8; 20] = build_change_cells(state, text.change.as_str());
    if state.data.ok_weather {
        if let (Some(_temp), Some(code)) = (state.data.weather_temp, state.data.weather_code) {
            let temp: &[u8] = text.temp.as_str().as_bytes();
            let name: &str = api::wmo_label(code);
            let label: &[u8] = name.as_bytes();
            place_weather(&mut row, temp, label);
            assert(row@ =~= change_row(
                *state,
                vstd::utf8::encode_utf8(text.change@),
                vstd::utf8::encode_utf8(text.temp@),
            ));
        }
    }
    row
}

// ── Rendering ─────────────────────────────────────────────────────────────────
/// All four rows.
pub open spec fn ticker_rows(state: UiState, text: TickerText, unix: u64) -> Seq<Seq<u8>> {
    seq![
        header_row(state, unix),
        asset_row(state.screen),
        price_row(state, text.scaled),
        change_row(
            state,
            vstd::utf8::encode_utf8(text.change@),
            vstd::utf8::encode_utf8(text.temp@),
        ),
    ]
}

/// The slots whose character occurs in one of the rows.
pub open spec fn slots_in(rows: Seq<Seq<u8>>) -> Seq<bool> {
    Seq::new(8, |s: int| exists|r: int| 0 <= r < rows.len() && #[trigger] rows[r].contains(s as u8))
}

fn mark_used(row: &[u8; 20], used: &mut [bool; 8])
    ensures
        forall|s: int|
            0 <= s < 8 ==> #[trigger] final(used)[s] == (old(used)[s] || row@.contains(s as u8)),
{
    let mut i: usize = 0;
    while i < 20
        invariant
            i <= 20,
            forall|s: int|
                0 <= s < 8 ==> #[trigger] used[s] == (old(used)[s] || row@.take(
                    i as int,
                ).contains(s as u8)),
        decreases 20 - i,
    {
        let b: u8 = row[i];
        let ghost before = *used;
        if b < 8 {
            used[b as usize] = true;
        }
        proof {
            let p = row@.take(i as int);
            let q = row@.take(i + 1);
            assert(q =~= p.push(b));
            assert forall|s: int| 0 <= s < 8 implies #[trigger] used[s] == (old(used)[s]
                || q.contains(s as u8)) by {
                assert(before[s] == (old(used)[s] || p.contains(s as u8)));
                if p.contains(s as u8) {
                    let j = choose|j: int| 0 <= j < p.len() && p[j] == s as u8;
                    assert(q[j] == s as u8);
                }
                if q.contains(s as u8) && s != b {
                    let j = choose|j: int| 0 <= j < q.len() && q[j] == s as u8;
                    assert(p[j] == s as u8);
                }
                if s == b {
                    assert(q[i as int] == s as u8);
                }
            }
        }
        i += 1;
    }
    assert(row@.take(20) =~= row@);
}

/// Render all four ticker rows to the LCD (CGRAM before DDRAM).
pub fn render(
    lcd: &mut Lcd,
    cache: &mut RowCache,
    state: &UiState,
    text: &TickerText,
    now_ms: u64,
    unix: u64,
)
    requires
        weather_fits(*state, *text),
        unix <= i64::MAX,
    ensures
        final(cache)@ == old(cache)@.loaded(
            ticker_glyphs(*state, now_ms),
            slots_in(ticker_rows(*state, *text, unix)),
            8,
        ).filled(ticker_rows(*state, *text, unix), 4),
        lcd::queued(
            *old(lcd),
            *final(lcd),
            old(cache)@.load_ops(
                ticker_glyphs(*state, now_ms),
                slots_in(ticker_rows(*state, *text, unix)),
                8,
                old(lcd).backlight,
            ) + old(cache)@.loaded(
                ticker_glyphs(*state, now_ms),
                slots_in(ticker_rows(*state, *text, unix)),
                8,
            ).fill_ops(ticker_rows(*state, *text, unix), 4, old(lcd).backlight),
        ),
{
    let r0: [u8; 20] = build_header(state, unix);
    let r1: [u8; 20] = build_asset_row(state);
    let r2: [u8; 20] = build_price_row(state, text.scaled);
    let r3: [u8; 20] = build_change_row(state, text);
    let mut used: [bool; 8] = [false; 8];
    mark_used(&r0, &mut used);
    mark_used(&r1, &mut used);
    mark_used(&r2, &mut used);
    mark_used(&r3, &mut used);
    let ghost rows = ticker_rows(*state, *text, unix);
    proof {
        assert forall|s: int| 0 <= s < 8 implies #[trigger] used@[s] == slots_in(rows)[s] by {
            assert(rows[0] == r0@ && rows[1] == r1@ && rows[2] == r2@ && rows[3] == r3@);
            if slots_in(rows)[s] {
                let r = choose|r: int| 0 <= r < rows.len() && #[trigger] rows[r].contains(s as u8);
                assert(r == 0 || r == 1 || r == 2 || r == 3);
            }
        }
        assert(used@ =~= slots_in(rows));
    }
    let g: [Glyph; 8] = all_glyphs(state, now_ms);
    cache.load(lcd, &g, &used);
    let body: [[u8; 20]; 4] = [r0, r1, r2, r3];
    assert(screen::row_views(body) =~= rows);
    cache.fill(lcd, &body);
    assert(lcd.ops@ =~= old(lcd).ops@ + (old(cache)@.load_ops(
        ticker_glyphs(*state, now_ms),
        slots_in(rows),
        8,
        old(lcd).backlight,
    ) + old(cache)@.loaded(ticker_glyphs(*state, now_ms), slots_in(rows), 8).fill_ops(
        rows,
        4,
        old(lcd).backlight,
    )));
}

/// Update only the header row (clock tick or lamp animation).
pub fn paint_header(lcd: &mut Lcd, cache: &mut RowCache, state: &UiState, now_ms: u64, unix: u64)
    requires
        unix <= i64::MAX,
    ensures
        final(cache)@ == old(cache)@.loaded(
            ticker_glyphs(*state, now_ms),
            slots_in(seq![header_row(*state, unix)]),
            8,
        ).with_row(0, header_row(*state, unix)),
        lcd::queued(
            *old(lcd),
            *final(lcd),
            old(cache)@.load_ops(
                ticker_glyphs(*state, now_ms),
                slots_in(seq![header_row(*state, unix)]),
                8,
                old(lcd).backlight,
            ) + lcd::cursor_ops(0, 0, old(lcd).backlight) + lcd::data_ops(
                header_row(*state, unix),
                old(lcd).backlight,
            ),
        ),
{
    let r0: [u8; 20] = build_header(state, unix);
    let mut used: [bool; 8] = [false; 8];
    mark_used(&r0, &mut used);
    let ghost rows = seq![header_row(*state, unix)];
    proof {
        assert forall|s: int| 0 <= s < 8 implies #[trigger] used@[s] == slots_in(rows)[s] by {
            assert(rows[0] == r0@);
        }
        assert(used@ =~= slots_in(rows));
    }
    let g: [Glyph; 8] = all_glyphs(state, now_ms);
    cache.load(lcd, &g, &used);
    cache.commit(lcd, 0, &r0);
    assert(lcd.ops@ =~= old(lcd).ops@ + (old(cache)@.load_ops(
        ticker_glyphs(*state, now_ms),
        slots_in(rows),
        8,
        old(lcd).backlight,
    ) + lcd::cursor_ops(0, 0, old(lcd).backlight) + lcd::data_ops(
        header_row(*state, unix),
        old(lcd).backlight,
    )));
}

/// Pre-load all CGRAM slots with correct ticker glyphs before the first render. Call once after
/// the sand animation blanks CGRAM, to prevent a blank-icon flash.
pub fn prime_cgram(lcd: &mut Lcd, cache: &mut RowCache, state: &UiState, now_ms: u64)
    ensures
        final(cache)@ == old(cache)@.loaded(ticker_glyphs(*state, now_ms), chart::all_eight(), 8),
        lcd::queued(
            *old(lcd),
            *final(lcd),
            old(cache)@.load_ops(
                ticker_glyphs(*state, now_ms),
                chart::all_eight(),
                8,
                old(lcd).backlight,
            ),
        ),
{
    let g: [Glyph; 8] = all_glyphs(state, now_ms);
    let all: [bool; 8] = [true; 8];
    assert(all@ =~= chart::all_eight());
    cache.load(lcd, &g, &all);
}

/// Every custom character that the rows show has its glyph in the display's memory by the time the
/// rows are written.
pub proof fn law_shown_slots_are_loaded(
    m: screen::Shown,
    glyphs: Seq<Seq<u8>>,
    rows: Seq<Seq<u8>>,
    r: int,
    k: int,
)
    requires
        m.valid(),
        glyphs.len() == 8,
        0 <= r < rows.len(),
        0 <= k < rows[r].len(),
        rows[r][k] < 8,
    ensures
        m.loaded(glyphs, slots_in(rows), 8).cgram[rows[r][k] as int] == glyphs[rows[r][k] as int],
{
    let s = rows[r][k];
    assert(rows[r].contains(s as u8));
    assert(slots_in(rows)[s as int]);
    lemma_wanted_loaded(m, glyphs, slots_in(rows), 8, s as int);
}

proof fn lemma_wanted_loaded(
    m: screen::Shown,
    glyphs: Seq<Seq<u8>>,
    want: Seq<bool>,
    n: nat,
    s: int,
)
    requires
        m.valid(),
        n <= 8,
        0 <= s < 8,
        want[s],
    ensures
        m.loaded(glyphs, want, n).valid(),
        s < n ==> m.loaded(glyphs, want, n).cgram[s] == glyphs[s],
    decreases n,
{
    if n > 0 {
        lemma_wanted_loaded(m, glyphs, want, (n - 1) as nat, s);
    }
}

} // verus!
