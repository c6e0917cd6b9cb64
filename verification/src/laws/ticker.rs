//! The ticker's rows say what they are drawn from.

use vstd::prelude::*;

use crate::api;
use crate::calendar;
use crate::chart;
use crate::config::Screen;
use crate::double::Double;
use crate::fmt;
use crate::glyphs;
use crate::glyphs::Glyph;
use crate::screen;
use crate::screen::UiState;
use crate::text;
use crate::ticker;
use crate::ticker::TickerText;

verus! {

// ── Rows ──────────────────────────────────────────────────────────────────────
/// The header has the icons of the connection, of the fetch and of the lamp, then the date, and in its
/// last eight columns the time without its letter. Before the first fetch a mark stands for the fetch.
pub proof fn law_header(
    state: UiState,
    unix: u64,
    row: [u8; 20],
    date: String,
    time: String,
    k: int,
)
    requires
        unix <= i64::MAX,
        call_ensures(ticker::build_header, (&state, unix), row),
        call_ensures(calendar::get_date_string, (unix,), date),
        call_ensures(calendar::get_time_string, (unix,), time),
    ensures
        row[0] == 1,
        row[3] == if state.fetching || state.fetch_completed_at > 0 {
            6u8
        } else {
            '!' as u8
        },
        row[4] == 0,
        0 <= k < 5 ==> row[6 + k] == date@[k] as u8,
        0 <= k < 8 ==> row[12 + k] == time@[k] as u8,
        row[1] == 0x20 && row[2] == 0x20 && row[5] == 0x20 && row[11] == 0x20,
{
}

/// The asset row has the asset's icon, or a dollar sign, and behind it the name of the screen.
pub proof fn law_asset_row(state: UiState, row: [u8; 20], name: &'static str, k: int)
    requires
        call_ensures(ticker::build_asset_row, (&state,), row),
        call_ensures(Screen::name, (state.screen,), name),
    ensures
        row[0] == if state.screen == Screen::UsdBrl {
            '$' as u8
        } else {
            7u8
        },
        0 <= k < name@.len() && k < 19 ==> row[1 + k] == name@[k] as u8,
        name@.len() <= k < 19 ==> row[1 + k] == 0x20,
{
    reveal_strlit(" BTC / USD");
    reveal_strlit(" SOL / USD");
    reveal_strlit(" GOLD USD/oz");
    reveal_strlit(" OIL WTI/bbl");
    reveal_strlit(" USD / BRL");
    let t = state.screen.title();
    assert(vstd::utf8::is_ascii_chars(t));
    vstd::utf8::is_ascii_chars_encode_utf8(t);
    if 0 <= k < t.len() {
        assert(vstd::utf8::encode_utf8(t)[k] == t[k] as u8);
    }
}

/// Each screen's name begins with the name of its asset, and no two are the same.
pub proof fn law_names(a: Screen, b: Screen, name_a: &'static str, name_b: &'static str)
    requires
        call_ensures(Screen::name, (a,), name_a),
        call_ensures(Screen::name, (b,), name_b),
    ensures
        name_a@ == name_b@ ==> a == b,
        a == Screen::Btc ==> name_a@.take(4) == seq![' ', 'B', 'T', 'C'],
        a == Screen::Sol ==> name_a@.take(4) == seq![' ', 'S', 'O', 'L'],
        a == Screen::Gold ==> name_a@.take(5) == seq![' ', 'G', 'O', 'L', 'D'],
        a == Screen::Oil ==> name_a@.take(4) == seq![' ', 'O', 'I', 'L'],
        a == Screen::UsdBrl ==> name_a@.take(4) == seq![' ', 'U', 'S', 'D'],
{
    reveal_strlit(" BTC / USD");
    reveal_strlit(" SOL / USD");
    reveal_strlit(" GOLD USD/oz");
    reveal_strlit(" OIL WTI/bbl");
    reveal_strlit(" USD / BRL");
    assert(" BTC / USD"@.take(4) =~= seq![' ', 'B', 'T', 'C']);
    assert(" SOL / USD"@.take(4) =~= seq![' ', 'S', 'O', 'L']);
    assert(" GOLD USD/oz"@.take(5) =~= seq![' ', 'G', 'O', 'L', 'D']);
    assert(" OIL WTI/bbl"@.take(4) =~= seq![' ', 'O', 'I', 'L']);
    assert(" USD / BRL"@.take(4) =~= seq![' ', 'U', 'S', 'D']);
    assert(" BTC / USD"@[1] == 'B' && " SOL / USD"@[1] == 'S' && " GOLD USD/oz"@[1] == 'G');
    assert(" OIL WTI/bbl"@[1] == 'O' && " USD / BRL"@[1] == 'U');
}

/// The price row is the asset's price with as many decimal places as its screen has, as it is
/// formatted for a row.
pub proof fn law_price_row(
    state: UiState,
    scaled: u64,
    row: [u8; 20],
    price: Double,
    places: u8,
    line: String,
    same_line: &str,
    same: [u8; 20],
)
    requires
        call_ensures(ticker::build_price_row, (&state, scaled), row),
        call_ensures(chart::current_price, (&state,), price),
        call_ensures(Screen::decimals, (state.screen,), places),
        call_ensures(fmt::format_price_row, (price, scaled, places), line),
        same_line@ == line@,
        call_ensures(ticker::str_to_row, (same_line,), same),
    ensures
        row@ == same@,
        places == (if state.screen == Screen::Btc {
            0int
        } else if state.screen == Screen::UsdBrl {
            4
        } else {
            2
        }),
{
}

/// A row of text is the text's bytes, cut at the twentieth, and blanks behind them.
pub proof fn law_text_row(s: &str, row: [u8; 20], k: int)
    requires
        call_ensures(ticker::str_to_row, (s,), row),
        0 <= k < 20,
    ensures
        row[k] == if k < vstd::utf8::encode_utf8(s@).len() {
            vstd::utf8::encode_utf8(s@)[k]
        } else {
            0x20
        },
{
}

/// The change of the asset that is shown, and whether there is one.
pub open spec fn own_change(state: UiState) -> (Double, bool) {
    let d = state.data;
    if state.screen == Screen::Btc {
        (d.chg_btc_pct, d.ok_crypto)
    } else if state.screen == Screen::Sol {
        (d.chg_sol_pct, d.ok_crypto)
    } else if state.screen == Screen::Gold {
        (d.chg_gold_pct, d.has_chg_gold)
    } else if state.screen == Screen::Oil {
        (d.chg_oil_pct, d.has_chg_oil)
    } else {
        (d.chg_usd_brl_pct, d.ok_usd_brl)
    }
}

/// The change row begins with an arrow up where the change is not below zero and an arrow down where
/// it is, and goes on with up to seven bytes of the percentage; two dashes and a percent sign stand
/// where there is no change.
pub proof fn law_change_row(state: UiState, text: TickerText, row: [u8; 20], k: int)
    requires
        ticker::weather_fits(state, text),
        call_ensures(ticker::build_change_row, (&state, &text), row),
        !(state.data.ok_weather && state.data.weather_temp is Some && state.data.weather_code is Some),
    ensures
        ({
            let chg = own_change(state).0;
            let known = own_change(state).1;
            let t = vstd::utf8::encode_utf8(text.change@);
            &&& known && (chg.above_zero() || chg.equals_zero()) ==> row[0] == 2
            &&& known && chg.below_zero() ==> row[0] == 3
            &&& known && 0 <= k < t.len() && k < 7 ==> row[1 + k] == t[k]
            &&& known && t.len() <= k < 19 ==> row[1 + k] == 0x20
            &&& !known ==> row[0] == '-' as u8 && row[1] == '-' as u8 && row[2] == '%' as u8
            &&& !known && 3 <= k < 20 ==> row[k] == 0x20
        }),
{
}

/// Weather stands at the end of the change row: icon, temperature, degree sign and label, the last
/// letter of the label in the last column.
pub proof fn law_weather_at_end(
    state: UiState,
    text: TickerText,
    row: [u8; 20],
    label: &'static str,
    k: int,
)
    requires
        ticker::weather_fits(state, text),
        call_ensures(ticker::build_change_row, (&state, &text), row),
        state.data.ok_weather,
        state.data.weather_temp is Some,
        state.data.weather_code is Some,
        call_ensures(api::wmo_label, (state.data.weather_code->0,), label),
    ensures
        ({
            let t = vstd::utf8::encode_utf8(text.temp@);
            let l = vstd::utf8::encode_utf8(label@);
            let at = 15 - t.len() - l.len();
            &&& row[at] == 4 && row[at + 1] == 0x20
            &&& 0 <= k < t.len() ==> row[at + 2 + k] == t[k]
            &&& row[at + 2 + t.len()] == 5 && row[at + 3 + t.len()] == 'C' as u8 && row[at + 4
                + t.len()] == 0x20
            &&& 0 <= k < l.len() ==> row[20 - l.len() + k] == l[k]
        }),
{
    let t = vstd::utf8::encode_utf8(text.temp@);
    let l = vstd::utf8::encode_utf8(label@);
    let right = ticker::weather_cells(t, l);
    assert(right.len() == 5 + t.len() + l.len());
    let at = 20 - right.len();
    assert forall|j: int| 0 <= j < right.len() implies #[trigger] row[at + j] == right[j] by {}
    assert(row[at + 0] == right[0] && row[at + 1] == right[1]);
    if 0 <= k < t.len() {
        assert(row[at + (2 + k)] == right[2 + k]);
    }
    assert(row[at + (2 + t.len())] == right[2 + t.len() as int]);
    assert(row[at + (3 + t.len())] == right[3 + t.len() as int]);
    assert(row[at + (4 + t.len())] == right[4 + t.len() as int]);
    if 0 <= k < l.len() {
        assert(row[at + (5 + t.len() + k)] == right[5 + t.len() + k]);
    }
}

// ── Icons ─────────────────────────────────────────────────────────────────────
/// The icons tell what they stand for: the lamp on, off or unknown, or its animation while it lasts;
/// the connection up or down; rain or none; the fetch that runs, frame by frame; the arrows; the
/// asset of the screen.
pub proof fn law_icons(state: UiState, now: u64, g: [Glyph; 8], rain: bool, asset: &'static Glyph)
    requires
        call_ensures(ticker::all_glyphs, (&state, now), g),
        state.data.weather_code is Some ==> call_ensures(
            api::wmo_is_rain,
            (state.data.weather_code->0,),
            rain,
        ),
        call_ensures(glyphs::asset_glyph, (state.screen,), asset),
    ensures
        now >= state.lamp_anim_until && state.lamp.known && state.lamp.on ==> g[0]@
            == glyphs::GLYPH_LAMP_ON@,
        now >= state.lamp_anim_until && state.lamp.known && !state.lamp.on ==> g[0]@
            == glyphs::GLYPH_LAMP_OFF@,
        now >= state.lamp_anim_until && !state.lamp.known ==> g[0]@ == glyphs::GLYPH_LAMP_UNK@,
        now < state.lamp_anim_until ==> g[0]@ == glyphs::HOURGLASS[state.lamp_loading_frame as int
            % 17]@,
        state.wifi_connected ==> g[1]@ == glyphs::GLYPH_WIFI_ON@,
        !state.wifi_connected ==> g[1]@ == glyphs::GLYPH_WIFI_OFF@,
        g[2]@ == glyphs::GLYPH_UP_ARROW@,
        g[3]@ == glyphs::GLYPH_DOWN_ARROW@,
        state.data.weather_code is Some && rain ==> g[4]@ == glyphs::GLYPH_RAIN@,
        state.data.weather_code is None || !rain ==> g[4]@ == glyphs::GLYPH_SUN_CLOUD@,
        g[5]@ == glyphs::GLYPH_DEGREE@,
        state.fetching ==> g[6]@ == glyphs::HOURGLASS[state.loading_frame as int % 17]@,
        g[7]@ == asset@,
{
    assert(screen::glyph_views(g)[0] == g[0]@);
    assert(screen::glyph_views(g)[1] == g[1]@);
    assert(screen::glyph_views(g)[2] == g[2]@);
    assert(screen::glyph_views(g)[3] == g[3]@);
    assert(screen::glyph_views(g)[4] == g[4]@);
    assert(screen::glyph_views(g)[5] == g[5]@);
    assert(screen::glyph_views(g)[6] == g[6]@);
    assert(screen::glyph_views(g)[7] == g[7]@);
}

/// The arrows point: each has a tip of one pixel, the one up above its broad side and the one down
/// below it, and they are each other upside down. The lamp has light in it where it is on, and none
/// where it is off. The connection that is up is not drawn as the one that is down.
pub proof fn law_shapes(r: int)
    requires
        1 <= r <= 3,
    ensures
        glyphs::GLYPH_UP_ARROW[r] == glyphs::GLYPH_DOWN_ARROW[4 - r],
        glyphs::GLYPH_UP_ARROW[1] == 0b00100 && glyphs::GLYPH_UP_ARROW[3] == 0b11111,
        glyphs::GLYPH_LAMP_ON[1 + r] == 0b11111 && glyphs::GLYPH_LAMP_OFF[1 + r] == 0b10001,
        glyphs::GLYPH_LAMP_ON[0] == glyphs::GLYPH_LAMP_OFF[0],
        glyphs::GLYPH_WIFI_ON@ != glyphs::GLYPH_WIFI_OFF@,
        glyphs::GLYPH_RAIN@ != glyphs::GLYPH_SUN_CLOUD@,
        glyphs::GLYPH_WIFI_ON[r] == (if r == 1 {
            0b00100u8
        } else if r == 2 {
            0b01110
        } else {
            0b11111
        }),
{
    assert(r == 1 || r == 2 || r == 3);
    assert(glyphs::GLYPH_WIFI_ON@[0] != glyphs::GLYPH_WIFI_OFF@[0]);
    assert(glyphs::GLYPH_RAIN@[0] != glyphs::GLYPH_SUN_CLOUD@[0]);
}

// ── Numbers ───────────────────────────────────────────────────────────────────
proof fn lemma_grouped(s: Seq<char>, k: int)
    requires
        0 <= k < fmt::grouped(s, ',').len(),
        !s.contains(','),
    ensures
        ({
            let g = fmt::grouped(s, ',');
            let j = g.len() - 1 - k;
            &&& 0 <= k - k / 4 < s.len()
            &&& g[j] == ',' <==> k % 4 == 3
            &&& k % 4 != 3 ==> g[j] == s[s.len() - 1 - (k - k / 4)]
        }),
    decreases s.len(),
{
    let g = fmt::grouped(s, ',');
    let j = g.len() - 1 - k;
    if s.len() <= 3 {
        assert(k / 4 == 0 && k % 4 == k);
        assert(s[j] != ',') by {
            assert(s.contains(s[j]));
        }
    } else {
        let n = s.len() - 3;
        let head = s.take(n);
        let tail = s.skip(n);
        let h = fmt::grouped(head, ',');
        assert(g == h.push(',') + tail);
        assert(!head.contains(',')) by {
            if head.contains(',') {
                let i = choose|i: int| 0 <= i < head.len() && head[i] == ',';
                assert(s[i] == ',');
            }
        }
        if k < 3 {
            assert(k / 4 == 0 && k % 4 == k);
            assert(g[j] == tail[2 - k]);
            assert(s.contains(s[s.len() - 1 - k]));
        } else if k == 3 {
            assert(g[j] == ',');
        } else {
            lemma_grouped(head, k - 4);
            assert(g[j] == h[h.len() - 1 - (k - 4)]);
            assert((k - 4) % 4 == k % 4 && (k - 4) / 4 == k / 4 - 1);
            let i = head.len() - 1 - (k - 4 - (k - 4) / 4);
            assert(head[i] == s[i]);
        }
    }
}

/// Commas stand before every third digit from the end, and nowhere else; between them stand the
/// digits in their order.
pub proof fn law_commas(digits: &str, r: String, k: int)
    requires
        vstd::utf8::is_ascii_chars(digits@),
        !digits@.contains(','),
        call_ensures(fmt::insert_commas, (digits,), r),
        0 <= k < r@.len(),
    ensures
        r@[r@.len() - 1 - k] == ',' <==> k % 4 == 3,
        k % 4 != 3 ==> r@[r@.len() - 1 - k] == digits@[digits@.len() - 1 - (k - k / 4)],
        digits@.len() > 0 ==> r@[0] != ',',
{
    lemma_grouped(digits@, k);
    fmt::law_commas_only_separate(digits@);
    if digits@.len() > 0 {
        let last = r@.len() - 1;
        lemma_grouped(digits@, last);
        let n = digits@.len() as int;
        assert(r@.len() == n + (n - 1) / 3);
        assert((n + (n - 1) / 3 - 1) % 4 != 3) by (nonlinear_arith)
            requires
                n > 0,
        ;
    }
}

proof fn lemma_decimal(n: nat)
    ensures
        text::digits_value(text::decimal(n)) == n,
        !text::decimal(n).contains(','),
        !text::decimal(n).contains('.'),
{
    text::lemma_decimal_digits(n);
    text::lemma_decimal_value(n);
    let d = text::decimal(n);
    if d.contains(',') {
        let i = choose|i: int| 0 <= i < d.len() && d[i] == ',';
        assert('0' <= d[i]);
    }
    if d.contains('.') {
        let i = choose|i: int| 0 <= i < d.len() && d[i] == '.';
        assert('0' <= d[i]);
    }
}

proof fn lemma_zeros(s: Seq<char>, n: nat)
    ensures
        text::digits_value(Seq::new(n, |i: int| '0') + s) == text::digits_value(s),
    decreases s.len(), n,
{
    let z = Seq::new(n, |i: int| '0');
    if s.len() > 0 {
        lemma_zeros(s.drop_last(), n);
        assert((z + s).drop_last() =~= z + s.drop_last());
    } else {
        assert(s =~= Seq::<char>::empty());
        if n > 0 {
            lemma_zeros(s, (n - 1) as nat);
            assert((z + s).drop_last() =~= Seq::new((n - 1) as nat, |i: int| '0') + s);
        } else {
            assert(z + s =~= s);
        }
    }
}

/// A price reads back as it was given: before the point, without commas, the whole units, and behind
/// it as many digits as there are decimal places. Where there is no price two dashes stand.
pub proof fn law_price_reads_back(value: Double, scaled: u64, places: u8, r: String)
    requires
        places <= 4,
        call_ensures(fmt::format_price, (value, scaled, places), r),
    ensures
        value.equals_zero() || value.below_zero() ==> r@ == seq!['-', '-'],
        value.above_zero() && places == 0 ==> text::digits_value(
            r@.filter(|c: char| c != ','),
        ) == scaled,
        value.above_zero() && places > 0 ==> r@.len() > places && ({
            let at = r@.len() - places - 1;
            let one: int = if places == 1 {
                10
            } else if places == 2 {
                100
            } else if places == 3 {
                1000
            } else {
                10000
            };
            &&& r@[at] == '.'
            &&& text::digits_value(r@.take(at).filter(|c: char| c != ',')) * one
                + text::digits_value(r@.skip(at + 1)) == scaled
        }),
{
    reveal_strlit("--");
    assert("--"@ =~= seq!['-', '-']);
    if value.above_zero() {
        let one = fmt::scale(places);
        vstd::arithmetic::power::lemma_pow0(10);
        vstd::arithmetic::power::lemma_pow1(10);
        reveal_with_fuel(vstd::arithmetic::power::pow, 5);
        assert(one == if places == 0 {
            1int
        } else if places == 1 {
            10
        } else if places == 2 {
            100
        } else if places == 3 {
            1000
        } else {
            10000
        });
        let whole = scaled as nat / one;
        let rest = scaled as nat % one;
        lemma_decimal(whole);
        lemma_decimal(rest);
        let g = fmt::grouped(text::decimal(whole), ',');
        fmt::law_commas_only_separate(text::decimal(whole));
        assert(whole * one + rest == scaled) by (nonlinear_arith)
            requires
                one > 0,
                whole == scaled as nat / one,
                rest == scaled as nat % one,
        ;
        if places == 0 {
            assert(whole == scaled) by (nonlinear_arith)
                requires
                    one == 1,
                    whole == scaled as nat / one,
            ;
        } else {
            let f = text::pad_left(text::decimal(rest), '0', places as nat);
            lemma_rest_fits(rest, places, one as int);
            assert(f.len() == places);
            lemma_zeros(text::decimal(rest), (places - text::decimal(rest).len()) as nat);
            assert(f =~= Seq::new((places - text::decimal(rest).len()) as nat, |i: int| '0')
                + text::decimal(rest));
            let at = r@.len() - places - 1;
            assert(r@ == g.push('.') + f);
            assert(r@.take(at) =~= g);
            assert(r@.skip(at + 1) =~= f);
        }
    }
}

proof fn lemma_rest_fits(n: nat, places: u8, one: int)
    requires
        1 <= places <= 4,
        one == if places == 1 {
            10int
        } else if places == 2 {
            100
        } else if places == 3 {
            1000
        } else {
            10000
        },
        n < one,
    ensures
        text::decimal(n).len() <= places,
{
    reveal_with_fuel(text::decimal, 5);
}

/// A text is brought to twenty characters: the first twenty of it, and blanks where it has fewer.
pub proof fn law_padded(s: &str, r: String, k: int)
    requires
        call_ensures(fmt::pad_to_20, (s,), r),
        0 <= k < 20,
    ensures
        r@.len() == 20,
        r@[k] == if k < s@.len() {
            s@[k]
        } else {
            ' '
        },
{
}

/// The change of a row goes up with a plus and down with a minus; the weather begins in the tenth
/// column where the change leaves room.
pub proof fn law_formatted_change(
    change: Double,
    magnitude: &str,
    temp: Option<&str>,
    label: &str,
    r: String,
    k: int,
)
    requires
        magnitude@.len() <= 6,
        call_ensures(fmt::format_change_row, (change, magnitude, true, temp, label), r),
    ensures
        r@.len() == 20,
        change.above_zero() || change.equals_zero() ==> r@[0] == '^' && r@[1] == '+',
        change.below_zero() ==> r@[0] == 'v' && r@[1] == '-',
        0 <= k < magnitude@.len() ==> r@[2 + k] == magnitude@[k],
        r@[2int + magnitude@.len()] == '%',
        temp is Some && 0 <= k < temp->0@.len() && k < 11 ==> r@[9 + k] == temp->0@[k],
        temp is Some && temp->0@.len() <= 9 ==> r@[9int + temp->0@.len()] == 'C' && r@[10int
            + temp->0@.len()] == ' ',
        temp is Some && 0 <= k < label@.len() && 11 + temp->0@.len() + k < 20 ==> r@[11
            + temp->0@.len() + k] == label@[k],
        temp is None && magnitude@.len() + 3 <= k < 20 ==> r@[k] == ' ',
{
}

// ── Date and time ─────────────────────────────────────────────────────────────
/// The number that two digits stand for, the first of which may be a blank.
pub open spec fn two_digits(a: char, b: char) -> int {
    (if a == ' ' {
        0
    } else {
        (a as int - 48) * 10
    }) + (b as int - 48)
}

/// The calendar begins on the first of January 1970.
pub proof fn law_epoch()
    ensures
        calendar::is_date((1970, 1, 1), 0),
{
    assert(calendar::before_year(1970) == 719162);
}

/// The date that is shown is the day and the month, in this order, of the day that it is three hours
/// west of Greenwich.
pub proof fn law_date_reads_back(unix: u64, r: String, day: (u64, u64))
    requires
        10_800 <= unix <= i64::MAX,
        call_ensures(calendar::get_date_string, (unix,), r),
        call_ensures(calendar::day_and_month, (((unix - 10_800) / 86_400) as u64,), day),
    ensures
        two_digits(r@[0], r@[1]) == day.0,
        r@[2] == '/',
        two_digits(r@[3], r@[4]) == day.1,
        r@.len() == 5,
{
    assert(calendar::local_days(unix) == (unix - 10_800) / 86_400);
    let t = calendar::date_of(calendar::local_days(unix));
    assert(calendar::two(t.2).len() == 2 && calendar::two(t.1).len() == 2);
}

/// The time that is shown is the time of day three hours west of Greenwich: hours on a clock of
/// twelve, minutes and seconds, and whether it is before or after noon.
pub proof fn law_time_reads_back(unix: u64, r: String)
    requires
        10_800 <= unix <= i64::MAX,
        call_ensures(calendar::get_time_string, (unix,), r),
    ensures
        ({
            let hour = two_digits(r@[0], r@[1]);
            let minute = two_digits(r@[3], r@[4]);
            let second = two_digits(r@[6], r@[7]);
            &&& 1 <= hour <= 12 && minute < 60 && second < 60
            &&& r@[2] == ':' && r@[5] == ':'
            &&& r@[8] == 'a' || r@[8] == 'p'
            &&& (hour % 12 + (if r@[8] == 'p' {
                12int
            } else {
                0
            })) * 3600 + minute * 60 + second == (unix - 10_800) % 86_400
        }),
{
    let s = calendar::local_seconds(unix);
    assert(s == (unix - 10_800) % 86_400);
    let h = calendar::clock_hour(s / 3600);
    assert(0 <= s < 86_400);
    assert(calendar::two(h).len() == 2);
    let m = s % 3600 / 60;
    let c = s % 60;
    assert(s == s / 3600 * 3600 + m * 60 + c);
    assert(calendar::two(m).len() == 2 && calendar::two(c).len() == 2);
    assert(r@[3] == calendar::two(m)[0] && r@[4] == calendar::two(m)[1]);
    assert(r@[6] == calendar::two(c)[0] && r@[7] == calendar::two(c)[1]);
}

// ── Countdown ─────────────────────────────────────────────────────────────────
/// Every dot less puts out one dot and no other: they go from the top row to the bottom one, from left
/// to right.
pub proof fn law_countdown(n: u8, more: Glyph, less: Glyph, row: int, col: int)
    requires
        n < 30,
        call_ensures(glyphs::countdown_glyph, ((n + 1) as u8,), more),
        call_ensures(glyphs::countdown_glyph, (n,), less),
        0 <= row < 8,
        0 <= col < 5,
    ensures
        crate::bits::lit(more@, row, col) == (crate::bits::lit(less@, row, col) || 5 * (row - 1) + col
            == 29 - n),
        5 * (row - 1) + col == 29 - n ==> !crate::bits::lit(less@, row, col),
        n == 0 ==> !crate::bits::lit(less@, row, col),
{
    let a = (n + 1) as int;
    let b = n as int;
    crate::bits::lemma_glyph_lit(|row: int, col: int| glyphs::dot_left(a, row, col), row, col);
    crate::bits::lemma_glyph_lit(|row: int, col: int| glyphs::dot_left(b, row, col), row, col);
}

/// After a fetch the dots go out as the seconds pass, up to the forty-fourth: thirty times the seconds,
/// as a byte, in forty-fourths.
pub proof fn law_countdown_follows_time(
    state: UiState,
    now: u64,
    secs: int,
    dots: u8,
    g: [Glyph; 8],
    c: Glyph,
)
    requires
        !state.fetching,
        state.fetch_completed_at > 0,
        now >= state.fetch_completed_at,
        0 <= secs <= 44,
        secs < 44 ==> 1000 * secs <= now - state.fetch_completed_at < 1000 * secs + 1000,
        secs == 44 ==> now - state.fetch_completed_at >= 44_000,
        dots <= 30,
        44 * (30 - dots) <= (30 * secs) % 256 < 44 * (31 - dots),
        call_ensures(ticker::all_glyphs, (&state, now), g),
        call_ensures(glyphs::countdown_glyph, (dots,), c),
    ensures
        g[6]@ == c@,
{
    assert(screen::glyph_views(g)[6] == g[6]@);
    assert(ticker::elapsed_secs(state, now) == secs);
    assert(ticker::dots_gone(secs) == 30 - dots);
}

/// Each asset has its own icon, but for the dollar, which stands under that of Bitcoin: a B, an S, a bar
/// and a drop, from the shapes of their rows.
pub proof fn law_asset_icons(
    btc: &'static Glyph,
    sol: &'static Glyph,
    gold: &'static Glyph,
    oil: &'static Glyph,
    usd: &'static Glyph,
)
    requires
        call_ensures(glyphs::asset_glyph, (Screen::Btc,), btc),
        call_ensures(glyphs::asset_glyph, (Screen::Sol,), sol),
        call_ensures(glyphs::asset_glyph, (Screen::Gold,), gold),
        call_ensures(glyphs::asset_glyph, (Screen::Oil,), oil),
        call_ensures(glyphs::asset_glyph, (Screen::UsdBrl,), usd),
    ensures
        *usd == *btc,
        btc[0] == btc[6] && btc[1] == btc[2] && btc[2] == btc[4] && btc[3] == 0x1E && btc[7] == 0,
        sol[0] == 0x0F && sol[1] == 0x10 && sol[3] == 0x01 && sol[4] == 0x1E,
        gold[0] == 0 && gold[1] == 0 && gold[5] == 0x1F && gold[2] < gold[3] && gold[6] == 0,
        oil[0] == oil[1] && oil[2] == oil[3] && oil[4] == oil[5] && oil[0] < oil[2] && oil[2] < oil[4],
{
}

} // verus!
