//! What goes over the wire: requests, queries, answers, the status and reports.

use vstd::prelude::*;

use crate::api;
use crate::json;
use crate::led::LedState;
use crate::screen::UiState;
use crate::text;
use crate::tuya;
use crate::tuya::LampHandle;
use crate::web;
use crate::web::{Action, BodyWriter, HeaderLine, Request, StatusText};

verus! {

/// What may follow a value in a document.
pub open spec fn ends_value(c: char) -> bool {
    c == ',' || c == '}' || c == '"'
}

pub open spec fn says_at(doc: Seq<char>, key: Seq<char>, value: Seq<char>, i: int) -> bool {
    &&& 0 <= i
    &&& i + key.len() + value.len() < doc.len()
    &&& doc.subrange(i, i + key.len() + value.len()) == key + value
    &&& ends_value(doc[i + key.len() + value.len()])
}

/// The document has the key, directly behind it the value, and behind that the end of the value.
pub open spec fn says(doc: Seq<char>, key: Seq<char>, value: Seq<char>) -> bool {
    exists|i: int| says_at(doc, key, value, i)
}


// ── Status ────────────────────────────────────────────────────────────────────
pub open spec fn yes_no(b: bool) -> Seq<char> {
    if b {
        "true"@
    } else {
        "false"@
    }
}

pub open spec fn percent_or_null(p: u16) -> Seq<char> {
    if p == 0xFFFF {
        "null"@
    } else {
        text::decimal(p as nat)
    }
}

/// A volume in percent of its range from 0 to 153, where it is known.
pub open spec fn volume_or_null(v: u8) -> Seq<char> {
    if v == 255 {
        "null"@
    } else {
        text::decimal((v * 100 / 153) as nat)
    }
}

/// The pieces of a text, one behind the other.
spec fn flat(pieces: Seq<Seq<char>>) -> Seq<char>
    decreases pieces.len(),
{
    if pieces.len() == 0 {
        Seq::empty()
    } else {
        flat(pieces.drop_last()) + pieces.last()
    }
}

proof fn lemma_flat_concat(a: Seq<Seq<char>>, b: Seq<Seq<char>>)
    ensures
        flat(a + b) == flat(a) + flat(b),
    decreases b.len(),
{
    if b.len() == 0 {
        assert(a + b =~= a);
        assert(flat(a) + flat(b) =~= flat(a));
    } else {
        lemma_flat_concat(a, b.drop_last());
        assert((a + b).drop_last() =~= a + b.drop_last());
        assert(flat(a) + flat(b) =~= flat(a) + flat(b.drop_last()) + b.last());
    }
}

proof fn lemma_flat_push(a: Seq<Seq<char>>, b: Seq<char>)
    ensures
        flat(a.push(b)) == flat(a) + b,
{
    assert(a.push(b).drop_last() =~= a);
}

/// Two pieces that follow one another stand in the text together, up to the next piece.
proof fn lemma_says(pieces: Seq<Seq<char>>, j: int)
    requires
        0 <= j,
        j + 2 < pieces.len(),
        pieces[j + 2].len() > 0,
        ends_value(pieces[j + 2][0]),
    ensures
        says(flat(pieces), pieces[j], pieces[j + 1]),
{
    let a = pieces.take(j);
    let b = pieces.subrange(j, j + 3);
    let c = pieces.skip(j + 3);
    assert(pieces =~= a + b + c);
    lemma_flat_concat(a + b, c);
    lemma_flat_concat(a, b);
    assert(b.drop_last().drop_last().drop_last() =~= Seq::<Seq<char>>::empty());
    assert(flat(b.drop_last().drop_last().drop_last()) =~= Seq::<char>::empty());
    assert(flat(b.drop_last().drop_last()) =~= pieces[j]);
    assert(flat(b.drop_last()) =~= pieces[j] + pieces[j + 1]);
    assert(flat(b) =~= pieces[j] + pieces[j + 1] + pieces[j + 2]);
    let i = flat(a).len() as int;
    let d = flat(pieces);
    assert(says_at(d, pieces[j], pieces[j + 1], i)) by {
        assert(d.subrange(i, i + pieces[j].len() + pieces[j + 1].len()) =~= pieces[j] + pieces[j + 1]);
        assert(d[i + pieces[j].len() + pieces[j + 1].len()] == pieces[j + 2][0]);
    }
}

spec fn switch_pieces(ui: UiState, off: bool, auto_rotate: bool, lamp_brightness: u16, lamp_temp: u16) -> Seq<Seq<char>> {
    seq![
        "{\"screen\":\""@,
        text::trimmed(ui.screen.title()),
        "\",\"screen_idx\":"@,
        text::decimal(ui.screen.number() as nat),
        ",\"lamp_on\":"@,
        yes_no(ui.lamp.on),
        ",\"lamp_known\":"@,
        yes_no(ui.lamp.known),
        ",\"lamp_brightness\":"@,
        percent_or_null(lamp_brightness),
        ",\"lamp_temp\":"@,
        percent_or_null(lamp_temp),
        ",\"display_on\":"@,
        yes_no(!off),
        ",\"pot_on\":"@,
        yes_no(ui.pot_enabled),
        ",\"volume\":"@,
        volume_or_null(ui.volume_pct),
        ",\"fetching\":"@,
        yes_no(ui.fetching),
        ",\"wifi\":"@,
        yes_no(ui.wifi_connected),
        ",\"auto_rotate\":"@,
        yes_no(auto_rotate),
    ]
}

spec fn climate_pieces(ui: UiState, leds: LedState, t: StatusText) -> Seq<Seq<char>> {
    seq![
        ",\"weather_temp\":"@,
        (if ui.data.weather_temp is Some {
            t.weather_temp@
        } else {
            "null"@
        }),
        ",\"weather_code\":"@,
        (if ui.data.weather_code is Some {
            text::signed_decimal(ui.data.weather_code->0 as int)
        } else {
            "null"@
        }),
        ",\"dht_temp\":"@,
        (if t.dht is Some {
            (t.dht->0).0@
        } else {
            "null"@
        }),
        ",\"dht_humidity\":"@,
        (if t.dht is Some {
            (t.dht->0).1@
        } else {
            "null"@
        }),
        ",\"led_green\":"@,
        yes_no(leds.green),
        ",\"led_red\":"@,
        yes_no(leds.red),
        ",\"led_yellow\":"@,
        yes_no(leds.blue),
    ]
}

spec fn price_pieces(t: StatusText) -> Seq<Seq<char>> {
    seq![
        ",\"prices\":{\"btc\":"@,
        t.btc@,
        ",\"btc_chg\":"@,
        t.btc_chg@,
        ",\"sol\":"@,
        t.sol@,
        ",\"sol_chg\":"@,
        t.sol_chg@,
        ",\"gold\":"@,
        t.gold@,
        ",\"gold_chg\":"@,
        t.gold_chg@,
        ",\"oil\":"@,
        t.oil@,
        ",\"oil_chg\":"@,
        t.oil_chg@,
        ",\"usd_brl\":"@,
        t.usd_brl@,
        ",\"usd_brl_chg\":"@,
        t.usd_brl_chg@,
        "}}"@,
    ]
}

#[verifier::spinoff_prover]
#[verifier::rlimit(50)]
proof fn lemma_switch_pieces(ui: UiState, off: bool, lamp: LampHandle, auto_rotate: bool)
    ensures
        flat(
            switch_pieces(
                ui,
                off,
                auto_rotate,
                tuya::brightness_percent(lamp.last_brightness),
                tuya::temp_percent(lamp.last_temp),
            ),
        ) == web::switches_text(ui, off, lamp, auto_rotate),
{
    let lamp_brightness = tuya::brightness_percent(lamp.last_brightness);
    let lamp_temp = tuya::temp_percent(lamp.last_temp);
    let x = Seq::<Seq<char>>::empty();
    lemma_flat_push(x, "{\"screen\":\""@);
    let x = x.push("{\"screen\":\""@);
    lemma_flat_push(x, text::trimmed(ui.screen.title()));
    let x = x.push(text::trimmed(ui.screen.title()));
    lemma_flat_push(x, "\",\"screen_idx\":"@);
    let x = x.push("\",\"screen_idx\":"@);
    lemma_flat_push(x, text::decimal(ui.screen.number() as nat));
    let x = x.push(text::decimal(ui.screen.number() as nat));
    lemma_flat_push(x, ",\"lamp_on\":"@);
    let x = x.push(",\"lamp_on\":"@);
    lemma_flat_push(x, yes_no(ui.lamp.on));
    let x = x.push(yes_no(ui.lamp.on));
    lemma_flat_push(x, ",\"lamp_known\":"@);
    let x = x.push(",\"lamp_known\":"@);
    lemma_flat_push(x, yes_no(ui.lamp.known));
    let x = x.push(yes_no(ui.lamp.known));
    lemma_flat_push(x, ",\"lamp_brightness\":"@);
    let x = x.push(",\"lamp_brightness\":"@);
    lemma_flat_push(x, percent_or_null(lamp_brightness));
    let x = x.push(percent_or_null(lamp_brightness));
    lemma_flat_push(x, ",\"lamp_temp\":"@);
    let x = x.push(",\"lamp_temp\":"@);
    lemma_flat_push(x, percent_or_null(lamp_temp));
    let x = x.push(percent_or_null(lamp_temp));
    lemma_flat_push(x, ",\"display_on\":"@);
    let x = x.push(",\"display_on\":"@);
    lemma_flat_push(x, yes_no(!off));
    let x = x.push(yes_no(!off));
    lemma_flat_push(x, ",\"pot_on\":"@);
    let x = x.push(",\"pot_on\":"@);
    lemma_flat_push(x, yes_no(ui.pot_enabled));
    let x = x.push(yes_no(ui.pot_enabled));
    lemma_flat_push(x, ",\"volume\":"@);
    let x = x.push(",\"volume\":"@);
    lemma_flat_push(x, volume_or_null(ui.volume_pct));
    let x = x.push(volume_or_null(ui.volume_pct));
    lemma_flat_push(x, ",\"fetching\":"@);
    let x = x.push(",\"fetching\":"@);
    lemma_flat_push(x, yes_no(ui.fetching));
    let x = x.push(yes_no(ui.fetching));
    lemma_flat_push(x, ",\"wifi\":"@);
    let x = x.push(",\"wifi\":"@);
    lemma_flat_push(x, yes_no(ui.wifi_connected));
    let x = x.push(yes_no(ui.wifi_connected));
    lemma_flat_push(x, ",\"auto_rotate\":"@);
    let x = x.push(",\"auto_rotate\":"@);
    lemma_flat_push(x, yes_no(auto_rotate));
    let x = x.push(yes_no(auto_rotate));
    assert(Seq::<char>::empty() + "{\"screen\":\""@ =~= "{\"screen\":\""@);
    assert(x == switch_pieces(ui, off, auto_rotate, lamp_brightness, lamp_temp));
}

proof fn lemma_climate_pieces(ui: UiState, leds: LedState, t: StatusText)
    ensures
        flat(climate_pieces(ui, leds, t)) == web::climate_and_leds_text(ui, leds, t),
{
    let x = Seq::<Seq<char>>::empty();
    lemma_flat_push(x, ",\"weather_temp\":"@);
    let x = x.push(",\"weather_temp\":"@);
    lemma_flat_push(x, (if ui.data.weather_temp is Some {
            t.weather_temp@
        } else {
            "null"@
        }));
    let x = x.push((if ui.data.weather_temp is Some {
            t.weather_temp@
        } else {
            "null"@
        }));
    lemma_flat_push(x, ",\"weather_code\":"@);
    let x = x.push(",\"weather_code\":"@);
    lemma_flat_push(x, (if ui.data.weather_code is Some {
            text::signed_decimal(ui.data.weather_code->0 as int)
        } else {
            "null"@
        }));
    let x = x.push((if ui.data.weather_code is Some {
            text::signed_decimal(ui.data.weather_code->0 as int)
        } else {
            "null"@
        }));
    lemma_flat_push(x, ",\"dht_temp\":"@);
    let x = x.push(",\"dht_temp\":"@);
    lemma_flat_push(x, (if t.dht is Some {
            (t.dht->0).0@
        } else {
            "null"@
        }));
    let x = x.push((if t.dht is Some {
            (t.dht->0).0@
        } else {
            "null"@
        }));
    lemma_flat_push(x, ",\"dht_humidity\":"@);
    let x = x.push(",\"dht_humidity\":"@);
    lemma_flat_push(x, (if t.dht is Some {
            (t.dht->0).1@
        } else {
            "null"@
        }));
    let x = x.push((if t.dht is Some {
            (t.dht->0).1@
        } else {
            "null"@
        }));
    lemma_flat_push(x, ",\"led_green\":"@);
    let x = x.push(",\"led_green\":"@);
    lemma_flat_push(x, yes_no(leds.green));
    let x = x.push(yes_no(leds.green));
    lemma_flat_push(x, ",\"led_red\":"@);
    let x = x.push(",\"led_red\":"@);
    lemma_flat_push(x, yes_no(leds.red));
    let x = x.push(yes_no(leds.red));
    lemma_flat_push(x, ",\"led_yellow\":"@);
    let x = x.push(",\"led_yellow\":"@);
    lemma_flat_push(x, yes_no(leds.blue));
    let x = x.push(yes_no(leds.blue));
    assert(Seq::<char>::empty() + ",\"weather_temp\":"@ =~= ",\"weather_temp\":"@);
    assert(x == climate_pieces(ui, leds, t));
}

proof fn lemma_price_pieces(t: StatusText)
    ensures
        flat(price_pieces(t)) == web::prices_text(t),
{
    let x = Seq::<Seq<char>>::empty();
    lemma_flat_push(x, ",\"prices\":{\"btc\":"@);
    let x = x.push(",\"prices\":{\"btc\":"@);
    lemma_flat_push(x, t.btc@);
    let x = x.push(t.btc@);
    lemma_flat_push(x, ",\"btc_chg\":"@);
    let x = x.push(",\"btc_chg\":"@);
    lemma_flat_push(x, t.btc_chg@);
    let x = x.push(t.btc_chg@);
    lemma_flat_push(x, ",\"sol\":"@);
    let x = x.push(",\"sol\":"@);
    lemma_flat_push(x, t.sol@);
    let x = x.push(t.sol@);
    lemma_flat_push(x, ",\"sol_chg\":"@);
    let x = x.push(",\"sol_chg\":"@);
    lemma_flat_push(x, t.sol_chg@);
    let x = x.push(t.sol_chg@);
    lemma_flat_push(x, ",\"gold\":"@);
    let x = x.push(",\"gold\":"@);
    lemma_flat_push(x, t.gold@);
    let x = x.push(t.gold@);
    lemma_flat_push(x, ",\"gold_chg\":"@);
    let x = x.push(",\"gold_chg\":"@);
    lemma_flat_push(x, t.gold_chg@);
    let x = x.push(t.gold_chg@);
    lemma_flat_push(x, ",\"oil\":"@);
    let x = x.push(",\"oil\":"@);
    lemma_flat_push(x, t.oil@);
    let x = x.push(t.oil@);
    lemma_flat_push(x, ",\"oil_chg\":"@);
    let x = x.push(",\"oil_chg\":"@);
    lemma_flat_push(x, t.oil_chg@);
    let x = x.push(t.oil_chg@);
    lemma_flat_push(x, ",\"usd_brl\":"@);
    let x = x.push(",\"usd_brl\":"@);
    lemma_flat_push(x, t.usd_brl@);
    let x = x.push(t.usd_brl@);
    lemma_flat_push(x, ",\"usd_brl_chg\":"@);
    let x = x.push(",\"usd_brl_chg\":"@);
    lemma_flat_push(x, t.usd_brl_chg@);
    let x = x.push(t.usd_brl_chg@);
    lemma_flat_push(x, "}}"@);
    let x = x.push("}}"@);
    assert(Seq::<char>::empty() + ",\"prices\":{\"btc\":"@ =~= ",\"prices\":{\"btc\":"@);
    assert(x == price_pieces(t));
}

/// What a part of a text says the whole says.
proof fn lemma_says_within(a: Seq<char>, d: Seq<char>, b: Seq<char>, key: Seq<char>, value: Seq<char>)
    requires
        says(d, key, value),
    ensures
        says(a + d + b, key, value),
{
    let i = choose|i: int| says_at(d, key, value, i);
    let w = a + d + b;
    let n = key.len() + value.len();
    assert(w.subrange(a.len() + i, a.len() + i + n) =~= d.subrange(i, i + n));
    assert(says_at(w, key, value, a.len() + i));
}

#[verifier::spinoff_prover]
#[verifier::rlimit(50)]
proof fn lemma_switches_say(ui: UiState, off: bool, auto_rotate: bool, lamp_brightness: u16, lamp_temp: u16)
    ensures
        says(flat(switch_pieces(ui, off, auto_rotate, lamp_brightness, lamp_temp)) + ",\"weather_temp\":"@, "{\"screen\":\""@, text::trimmed(ui.screen.title())),
        says(flat(switch_pieces(ui, off, auto_rotate, lamp_brightness, lamp_temp)) + ",\"weather_temp\":"@, "\",\"screen_idx\":"@, text::decimal(ui.screen.number() as nat)),
        says(flat(switch_pieces(ui, off, auto_rotate, lamp_brightness, lamp_temp)) + ",\"weather_temp\":"@, ",\"lamp_on\":"@, yes_no(ui.lamp.on)),
        says(flat(switch_pieces(ui, off, auto_rotate, lamp_brightness, lamp_temp)) + ",\"weather_temp\":"@, ",\"lamp_known\":"@, yes_no(ui.lamp.known)),
        says(flat(switch_pieces(ui, off, auto_rotate, lamp_brightness, lamp_temp)) + ",\"weather_temp\":"@, ",\"lamp_brightness\":"@, percent_or_null(lamp_brightness)),
        says(flat(switch_pieces(ui, off, auto_rotate, lamp_brightness, lamp_temp)) + ",\"weather_temp\":"@, ",\"lamp_temp\":"@, percent_or_null(lamp_temp)),
        says(flat(switch_pieces(ui, off, auto_rotate, lamp_brightness, lamp_temp)) + ",\"weather_temp\":"@, ",\"display_on\":"@, yes_no(!off)),
        says(flat(switch_pieces(ui, off, auto_rotate, lamp_brightness, lamp_temp)) + ",\"weather_temp\":"@, ",\"pot_on\":"@, yes_no(ui.pot_enabled)),
        says(flat(switch_pieces(ui, off, auto_rotate, lamp_brightness, lamp_temp)) + ",\"weather_temp\":"@, ",\"volume\":"@, volume_or_null(ui.volume_pct)),
        says(flat(switch_pieces(ui, off, auto_rotate, lamp_brightness, lamp_temp)) + ",\"weather_temp\":"@, ",\"fetching\":"@, yes_no(ui.fetching)),
        says(flat(switch_pieces(ui, off, auto_rotate, lamp_brightness, lamp_temp)) + ",\"weather_temp\":"@, ",\"wifi\":"@, yes_no(ui.wifi_connected)),
        says(flat(switch_pieces(ui, off, auto_rotate, lamp_brightness, lamp_temp)) + ",\"weather_temp\":"@, ",\"auto_rotate\":"@, yes_no(auto_rotate)),
{
    let x = switch_pieces(ui, off, auto_rotate, lamp_brightness, lamp_temp);
    let all = x.push(",\"weather_temp\":"@);
    lemma_flat_push(x, ",\"weather_temp\":"@);
    reveal_strlit("{\"screen\":\"");
    reveal_strlit("\",\"screen_idx\":");
    reveal_strlit(",\"lamp_on\":");
    reveal_strlit(",\"lamp_known\":");
    reveal_strlit(",\"lamp_brightness\":");
    reveal_strlit(",\"lamp_temp\":");
    reveal_strlit(",\"display_on\":");
    reveal_strlit(",\"pot_on\":");
    reveal_strlit(",\"volume\":");
    reveal_strlit(",\"fetching\":");
    reveal_strlit(",\"wifi\":");
    reveal_strlit(",\"auto_rotate\":");
    reveal_strlit(",\"weather_temp\":");
    assert(all[0] == "{\"screen\":\""@ && all[1] == text::trimmed(ui.screen.title()));
    lemma_says(all, 0);
    assert(all[2] == "\",\"screen_idx\":"@ && all[3] == text::decimal(ui.screen.number() as nat));
    lemma_says(all, 2);
    assert(all[4] == ",\"lamp_on\":"@ && all[5] == yes_no(ui.lamp.on));
    lemma_says(all, 4);
    assert(all[6] == ",\"lamp_known\":"@ && all[7] == yes_no(ui.lamp.known));
    lemma_says(all, 6);
    assert(all[8] == ",\"lamp_brightness\":"@ && all[9] == percent_or_null(lamp_brightness));
    lemma_says(all, 8);
    assert(all[10] == ",\"lamp_temp\":"@ && all[11] == percent_or_null(lamp_temp));
    lemma_says(all, 10);
    assert(all[12] == ",\"display_on\":"@ && all[13] == yes_no(!off));
    lemma_says(all, 12);
    assert(all[14] == ",\"pot_on\":"@ && all[15] == yes_no(ui.pot_enabled));
    lemma_says(all, 14);
    assert(all[16] == ",\"volume\":"@ && all[17] == volume_or_null(ui.volume_pct));
    lemma_says(all, 16);
    assert(all[18] == ",\"fetching\":"@ && all[19] == yes_no(ui.fetching));
    lemma_says(all, 18);
    assert(all[20] == ",\"wifi\":"@ && all[21] == yes_no(ui.wifi_connected));
    lemma_says(all, 20);
    assert(all[22] == ",\"auto_rotate\":"@ && all[23] == yes_no(auto_rotate));
    lemma_says(all, 22);
}

#[verifier::spinoff_prover]
#[verifier::rlimit(50)]
proof fn lemma_climate_says(ui: UiState, leds: LedState, t: StatusText)
    ensures
        says(flat(climate_pieces(ui, leds, t)) + ",\"prices\":{\"btc\":"@, ",\"weather_temp\":"@, (if ui.data.weather_temp is Some {
            t.weather_temp@
        } else {
            "null"@
        })),
        says(flat(climate_pieces(ui, leds, t)) + ",\"prices\":{\"btc\":"@, ",\"weather_code\":"@, (if ui.data.weather_code is Some {
            text::signed_decimal(ui.data.weather_code->0 as int)
        } else {
            "null"@
        })),
        says(flat(climate_pieces(ui, leds, t)) + ",\"prices\":{\"btc\":"@, ",\"dht_temp\":"@, (if t.dht is Some {
            (t.dht->0).0@
        } else {
            "null"@
        })),
        says(flat(climate_pieces(ui, leds, t)) + ",\"prices\":{\"btc\":"@, ",\"dht_humidity\":"@, (if t.dht is Some {
            (t.dht->0).1@
        } else {
            "null"@
        })),
        says(flat(climate_pieces(ui, leds, t)) + ",\"prices\":{\"btc\":"@, ",\"led_green\":"@, yes_no(leds.green)),
        says(flat(climate_pieces(ui, leds, t)) + ",\"prices\":{\"btc\":"@, ",\"led_red\":"@, yes_no(leds.red)),
        says(flat(climate_pieces(ui, leds, t)) + ",\"prices\":{\"btc\":"@, ",\"led_yellow\":"@, yes_no(leds.blue)),
{
    let x = climate_pieces(ui, leds, t);
    let all = x.push(",\"prices\":{\"btc\":"@);
    lemma_flat_push(x, ",\"prices\":{\"btc\":"@);
    reveal_strlit(",\"weather_temp\":");
    reveal_strlit(",\"weather_code\":");
    reveal_strlit(",\"dht_temp\":");
    reveal_strlit(",\"dht_humidity\":");
    reveal_strlit(",\"led_green\":");
    reveal_strlit(",\"led_red\":");
    reveal_strlit(",\"led_yellow\":");
    reveal_strlit(",\"prices\":{\"btc\":");
    assert(all[0] == ",\"weather_temp\":"@ && all[1] == (if ui.data.weather_temp is Some {
            t.weather_temp@
        } else {
            "null"@
        }));
    lemma_says(all, 0);
    assert(all[2] == ",\"weather_code\":"@ && all[3] == (if ui.data.weather_code is Some {
            text::signed_decimal(ui.data.weather_code->0 as int)
        } else {
            "null"@
        }));
    lemma_says(all, 2);
    assert(all[4] == ",\"dht_temp\":"@ && all[5] == (if t.dht is Some {
            (t.dht->0).0@
        } else {
            "null"@
        }));
    lemma_says(all, 4);
    assert(all[6] == ",\"dht_humidity\":"@ && all[7] == (if t.dht is Some {
            (t.dht->0).1@
        } else {
            "null"@
        }));
    lemma_says(all, 6);
    assert(all[8] == ",\"led_green\":"@ && all[9] == yes_no(leds.green));
    lemma_says(all, 8);
    assert(all[10] == ",\"led_red\":"@ && all[11] == yes_no(leds.red));
    lemma_says(all, 10);
    assert(all[12] == ",\"led_yellow\":"@ && all[13] == yes_no(leds.blue));
    lemma_says(all, 12);
}

#[verifier::spinoff_prover]
#[verifier::rlimit(50)]
proof fn lemma_prices_say(t: StatusText)
    ensures
        says(flat(price_pieces(t)), ",\"prices\":{\"btc\":"@, t.btc@),
        says(flat(price_pieces(t)), ",\"btc_chg\":"@, t.btc_chg@),
        says(flat(price_pieces(t)), ",\"sol\":"@, t.sol@),
        says(flat(price_pieces(t)), ",\"sol_chg\":"@, t.sol_chg@),
        says(flat(price_pieces(t)), ",\"gold\":"@, t.gold@),
        says(flat(price_pieces(t)), ",\"gold_chg\":"@, t.gold_chg@),
        says(flat(price_pieces(t)), ",\"oil\":"@, t.oil@),
        says(flat(price_pieces(t)), ",\"oil_chg\":"@, t.oil_chg@),
        says(flat(price_pieces(t)), ",\"usd_brl\":"@, t.usd_brl@),
        says(flat(price_pieces(t)), ",\"usd_brl_chg\":"@, t.usd_brl_chg@),
{
    let all = price_pieces(t);
    reveal_strlit(",\"prices\":{\"btc\":");
    reveal_strlit(",\"btc_chg\":");
    reveal_strlit(",\"sol\":");
    reveal_strlit(",\"sol_chg\":");
    reveal_strlit(",\"gold\":");
    reveal_strlit(",\"gold_chg\":");
    reveal_strlit(",\"oil\":");
    reveal_strlit(",\"oil_chg\":");
    reveal_strlit(",\"usd_brl\":");
    reveal_strlit(",\"usd_brl_chg\":");
    reveal_strlit("}}");
    assert(all[0] == ",\"prices\":{\"btc\":"@ && all[1] == t.btc@);
    lemma_says(all, 0);
    assert(all[2] == ",\"btc_chg\":"@ && all[3] == t.btc_chg@);
    lemma_says(all, 2);
    assert(all[4] == ",\"sol\":"@ && all[5] == t.sol@);
    lemma_says(all, 4);
    assert(all[6] == ",\"sol_chg\":"@ && all[7] == t.sol_chg@);
    lemma_says(all, 6);
    assert(all[8] == ",\"gold\":"@ && all[9] == t.gold@);
    lemma_says(all, 8);
    assert(all[10] == ",\"gold_chg\":"@ && all[11] == t.gold_chg@);
    lemma_says(all, 10);
    assert(all[12] == ",\"oil\":"@ && all[13] == t.oil@);
    lemma_says(all, 12);
    assert(all[14] == ",\"oil_chg\":"@ && all[15] == t.oil_chg@);
    lemma_says(all, 14);
    assert(all[16] == ",\"usd_brl\":"@ && all[17] == t.usd_brl@);
    lemma_says(all, 16);
    assert(all[18] == ",\"usd_brl_chg\":"@ && all[19] == t.usd_brl_chg@);
    lemma_says(all, 18);
}

/// The status document says under each key what the key is named after: the screen that is shown and
/// its number, the lamp, the switches and the volume.
#[verifier::spinoff_prover]
#[verifier::rlimit(50)]
pub proof fn law_status_says_switches(
    ui: UiState,
    off: bool,
    lamp: LampHandle,
    auto_rotate: bool,
    leds: LedState,
    t: StatusText,
    lamp_brightness: u16,
    lamp_temp: u16,
    r: String,
)
    requires
        call_ensures(web::build_status, (&ui, off, &lamp, auto_rotate, &leds, &t), r),
        call_ensures(LampHandle::brightness_pct, (&lamp,), lamp_brightness),
        call_ensures(LampHandle::temp_pct, (&lamp,), lamp_temp),
    ensures
        says(r@, "{\"screen\":\""@, text::trimmed(ui.screen.title())),
        says(r@, "\",\"screen_idx\":"@, text::decimal(ui.screen.number() as nat)),
        says(r@, ",\"lamp_on\":"@, yes_no(ui.lamp.on)),
        says(r@, ",\"lamp_known\":"@, yes_no(ui.lamp.known)),
        says(r@, ",\"lamp_brightness\":"@, percent_or_null(lamp_brightness)),
        says(r@, ",\"lamp_temp\":"@, percent_or_null(lamp_temp)),
        says(r@, ",\"display_on\":"@, yes_no(!off)),
        says(r@, ",\"pot_on\":"@, yes_no(ui.pot_enabled)),
        says(r@, ",\"volume\":"@, volume_or_null(ui.volume_pct)),
        says(r@, ",\"fetching\":"@, yes_no(ui.fetching)),
        says(r@, ",\"wifi\":"@, yes_no(ui.wifi_connected)),
        says(r@, ",\"auto_rotate\":"@, yes_no(auto_rotate)),
{
    let s = web::switches_text(ui, off, lamp, auto_rotate);
    let c = web::climate_and_leds_text(ui, leds, t);
    let p = web::prices_text(t);
    lemma_switches_say(ui, off, auto_rotate, lamp_brightness, lamp_temp);
    lemma_switch_pieces(ui, off, lamp, auto_rotate);
    let rest = c.skip(",\"weather_temp\":"@.len() as int) + p;
    lemma_climate_begins(ui, leds, t);
    let d = s + ",\"weather_temp\":"@;
    lemma_regroup(s, ",\"weather_temp\":"@, c, p);
    lemma_says_within(Seq::empty(), d, rest, "{\"screen\":\""@, text::trimmed(ui.screen.title()));
    lemma_says_within(Seq::empty(), d, rest, "\",\"screen_idx\":"@, text::decimal(ui.screen.number() as nat));
    lemma_says_within(Seq::empty(), d, rest, ",\"lamp_on\":"@, yes_no(ui.lamp.on));
    lemma_says_within(Seq::empty(), d, rest, ",\"lamp_known\":"@, yes_no(ui.lamp.known));
    lemma_says_within(Seq::empty(), d, rest, ",\"lamp_brightness\":"@, percent_or_null(lamp_brightness));
    lemma_says_within(Seq::empty(), d, rest, ",\"lamp_temp\":"@, percent_or_null(lamp_temp));
    lemma_says_within(Seq::empty(), d, rest, ",\"display_on\":"@, yes_no(!off));
    lemma_says_within(Seq::empty(), d, rest, ",\"pot_on\":"@, yes_no(ui.pot_enabled));
    lemma_says_within(Seq::empty(), d, rest, ",\"volume\":"@, volume_or_null(ui.volume_pct));
    lemma_says_within(Seq::empty(), d, rest, ",\"fetching\":"@, yes_no(ui.fetching));
    lemma_says_within(Seq::empty(), d, rest, ",\"wifi\":"@, yes_no(ui.wifi_connected));
    lemma_says_within(Seq::empty(), d, rest, ",\"auto_rotate\":"@, yes_no(auto_rotate));
}

/// The status document says the weather, the climate of the room and the LEDs, each under its key.
#[verifier::spinoff_prover]
#[verifier::rlimit(50)]
pub proof fn law_status_says_climate(
    ui: UiState,
    off: bool,
    lamp: LampHandle,
    auto_rotate: bool,
    leds: LedState,
    t: StatusText,
    r: String,
)
    requires
        call_ensures(web::build_status, (&ui, off, &lamp, auto_rotate, &leds, &t), r),
    ensures
        says(r@, ",\"weather_temp\":"@, (if ui.data.weather_temp is Some {
            t.weather_temp@
        } else {
            "null"@
        })),
        says(r@, ",\"weather_code\":"@, (if ui.data.weather_code is Some {
            text::signed_decimal(ui.data.weather_code->0 as int)
        } else {
            "null"@
        })),
        says(r@, ",\"dht_temp\":"@, (if t.dht is Some {
            (t.dht->0).0@
        } else {
            "null"@
        })),
        says(r@, ",\"dht_humidity\":"@, (if t.dht is Some {
            (t.dht->0).1@
        } else {
            "null"@
        })),
        says(r@, ",\"led_green\":"@, yes_no(leds.green)),
        says(r@, ",\"led_red\":"@, yes_no(leds.red)),
        says(r@, ",\"led_yellow\":"@, yes_no(leds.blue)),
{
    let s = web::switches_text(ui, off, lamp, auto_rotate);
    let c = web::climate_and_leds_text(ui, leds, t);
    let p = web::prices_text(t);
    lemma_climate_says(ui, leds, t);
    lemma_climate_pieces(ui, leds, t);
    let rest = p.skip(",\"prices\":{\"btc\":"@.len() as int);
    lemma_prices_begin(t);
    let d = c + ",\"prices\":{\"btc\":"@;
    assert(r@ =~= s + d + rest);
    lemma_says_within(s, d, rest, ",\"weather_temp\":"@, (if ui.data.weather_temp is Some {
            t.weather_temp@
        } else {
            "null"@
        }));
    lemma_says_within(s, d, rest, ",\"weather_code\":"@, (if ui.data.weather_code is Some {
            text::signed_decimal(ui.data.weather_code->0 as int)
        } else {
            "null"@
        }));
    lemma_says_within(s, d, rest, ",\"dht_temp\":"@, (if t.dht is Some {
            (t.dht->0).0@
        } else {
            "null"@
        }));
    lemma_says_within(s, d, rest, ",\"dht_humidity\":"@, (if t.dht is Some {
            (t.dht->0).1@
        } else {
            "null"@
        }));
    lemma_says_within(s, d, rest, ",\"led_green\":"@, yes_no(leds.green));
    lemma_says_within(s, d, rest, ",\"led_red\":"@, yes_no(leds.red));
    lemma_says_within(s, d, rest, ",\"led_yellow\":"@, yes_no(leds.blue));
}

/// The status document says price and change of each asset under the asset's key.
#[verifier::spinoff_prover]
#[verifier::rlimit(50)]
pub proof fn law_status_says_prices(
    ui: UiState,
    off: bool,
    lamp: LampHandle,
    auto_rotate: bool,
    leds: LedState,
    t: StatusText,
    r: String,
)
    requires
        call_ensures(web::build_status, (&ui, off, &lamp, auto_rotate, &leds, &t), r),
    ensures
        says(r@, ",\"prices\":{\"btc\":"@, t.btc@),
        says(r@, ",\"btc_chg\":"@, t.btc_chg@),
        says(r@, ",\"sol\":"@, t.sol@),
        says(r@, ",\"sol_chg\":"@, t.sol_chg@),
        says(r@, ",\"gold\":"@, t.gold@),
        says(r@, ",\"gold_chg\":"@, t.gold_chg@),
        says(r@, ",\"oil\":"@, t.oil@),
        says(r@, ",\"oil_chg\":"@, t.oil_chg@),
        says(r@, ",\"usd_brl\":"@, t.usd_brl@),
        says(r@, ",\"usd_brl_chg\":"@, t.usd_brl_chg@),
{
    let s = web::switches_text(ui, off, lamp, auto_rotate);
    let c = web::climate_and_leds_text(ui, leds, t);
    let p = web::prices_text(t);
    lemma_prices_say(t);
    lemma_price_pieces(t);
    assert(r@ =~= (s + c) + p + Seq::empty());
    lemma_says_within(s + c, p, Seq::empty(), ",\"prices\":{\"btc\":"@, t.btc@);
    lemma_says_within(s + c, p, Seq::empty(), ",\"btc_chg\":"@, t.btc_chg@);
    lemma_says_within(s + c, p, Seq::empty(), ",\"sol\":"@, t.sol@);
    lemma_says_within(s + c, p, Seq::empty(), ",\"sol_chg\":"@, t.sol_chg@);
    lemma_says_within(s + c, p, Seq::empty(), ",\"gold\":"@, t.gold@);
    lemma_says_within(s + c, p, Seq::empty(), ",\"gold_chg\":"@, t.gold_chg@);
    lemma_says_within(s + c, p, Seq::empty(), ",\"oil\":"@, t.oil@);
    lemma_says_within(s + c, p, Seq::empty(), ",\"oil_chg\":"@, t.oil_chg@);
    lemma_says_within(s + c, p, Seq::empty(), ",\"usd_brl\":"@, t.usd_brl@);
    lemma_says_within(s + c, p, Seq::empty(), ",\"usd_brl_chg\":"@, t.usd_brl_chg@);
}

proof fn lemma_regroup(s: Seq<char>, f: Seq<char>, c: Seq<char>, p: Seq<char>)
    requires
        c == f + c.skip(f.len() as int),
    ensures
        s + c + p == Seq::<char>::empty() + (s + f) + (c.skip(f.len() as int) + p),
{
    let d = c.skip(f.len() as int);
    assert(s + (f + d) + p =~= Seq::<char>::empty() + (s + f) + (d + p));
}

proof fn lemma_climate_begins(ui: UiState, leds: LedState, t: StatusText)
    ensures
        ",\"weather_temp\":"@.is_prefix_of(web::climate_and_leds_text(ui, leds, t)),
        web::climate_and_leds_text(ui, leds, t) == ",\"weather_temp\":"@ + web::climate_and_leds_text(ui, leds, t).skip(",\"weather_temp\":"@.len() as int),
{
    let f = ",\"weather_temp\":"@;
    let c = web::climate_and_leds_text(ui, leds, t);
    assert(f =~= c.take(f.len() as int));
    assert(c =~= f + c.skip(f.len() as int));
}

proof fn lemma_prices_begin(t: StatusText)
    ensures
        web::prices_text(t) == ",\"prices\":{\"btc\":"@ + web::prices_text(t).skip(",\"prices\":{\"btc\":"@.len() as int),
{
    let f = ",\"prices\":{\"btc\":"@;
    let c = web::prices_text(t);
    assert(f =~= c.take(f.len() as int));
    assert(c =~= f + c.skip(f.len() as int));
}

// ── Queries ───────────────────────────────────────────────────────────────────
/// Splitting goes piece by piece.
pub proof fn lemma_split_concat<T>(a: Seq<T>, b: Seq<T>, sep: T)
    ensures
        text::split_on(a.push(sep) + b, sep) == text::split_on(a, sep) + text::split_on(b, sep),
    decreases b.len(),
{
    let s = a.push(sep) + b;
    text::lemma_split_nonempty(a, sep);
    text::lemma_split_nonempty(b, sep);
    if b.len() == 0 {
        assert(s =~= a.push(sep));
        assert(s.drop_last() =~= a);
        assert(text::split_on(a, sep).push(Seq::empty()) =~= text::split_on(a, sep)
            + text::split_on(b, sep));
    } else {
        let c = b.drop_last();
        lemma_split_concat(a, c, sep);
        text::lemma_split_nonempty(c, sep);
        assert(s.drop_last() =~= a.push(sep) + c);
        assert(s.last() == b.last());
        let f = text::split_on(a, sep);
        let g = text::split_on(c, sep);
        assert((f + g).last() == g.last());
        if b.last() == sep {
            assert((f + g).push(Seq::empty()) =~= f + g.push(Seq::empty()));
        } else {
            assert((f + g).drop_last().push(g.last().push(b.last())) =~= f + g.drop_last().push(
                g.last().push(b.last()),
            ));
        }
    }
}

/// Without a separator there is one piece.
pub proof fn lemma_split_whole<T>(a: Seq<T>, sep: T)
    requires
        !a.contains(sep),
    ensures
        text::split_on(a, sep) == seq![a],
    decreases a.len(),
{
    if a.len() == 0 {
        assert(a =~= Seq::<T>::empty());
    } else {
        let c = a.drop_last();
        assert(!c.contains(sep)) by {
            if c.contains(sep) {
                let i = choose|i: int| 0 <= i < c.len() && c[i] == sep;
                assert(a[i] == sep);
            }
        }
        lemma_split_whole(c, sep);
        assert(a[a.len() - 1] != sep);
        assert(c.push(a.last()) =~= a);
        assert(text::split_on(a, sep) =~= seq![a]);
    }
}

proof fn lemma_first_value(
    head: Seq<char>,
    parts: Seq<Seq<char>>,
    key: Seq<char>,
    some: bool,
    n: nat,
)
    requires
        n <= parts.len(),
    ensures
        web::first_value(seq![head] + parts, key, some, n + 1) == match web::value_in(head, key) {
            Some(v) if !(some && v.len() == 0) => Some(v),
            _ => web::first_value(parts, key, some, n),
        },
    decreases n,
{
    let all = seq![head] + parts;
    if n == 0 {
        assert(web::first_value(all, key, some, 0) is None);
        assert(all[0] == head);
    } else {
        lemma_first_value(head, parts, key, some, (n - 1) as nat);
        assert(all[n as int] == parts[n - 1]);
    }
}

/// A part of a query: the key, an equals sign and the value.
proof fn lemma_value_in(key: Seq<char>, value: Seq<char>)
    requires
        !key.contains('='),
    ensures
        web::value_in(key.push('=') + value, key) == Some(value),
{
    let s = key.push('=') + value;
    assert(text::first_at(s, '=', key.len() as int)) by {
        assert forall|k: int| 0 <= k < key.len() implies #[trigger] s[k] != '=' by {
            assert(key.contains(key[k]));
        }
    }
    text::lemma_first_at(s, '=', key.len() as int);
    assert(s.take(key.len() as int) =~= key);
    assert(s.skip(key.len() as int + 1) =~= value);
}

proof fn lemma_other_key(part: Seq<char>, key: Seq<char>)
    requires
        !key.push('=').is_prefix_of(part),
    ensures
        web::value_in(part, key) is None,
{
    if part.contains('=') {
        let i = part.index_of_first('=')->0;
        part.index_of_first_ensures('=');
        if part.take(i) == key {
            assert(part.take(i + 1) =~= key.push('='));
        }
    }
}

/// The parameters of a query are found by their keys, the first of a key first, whatever stands behind
/// it; parts with another key are passed over.
pub proof fn law_query_is_searched(
    query: &str,
    key: &str,
    value: Seq<char>,
    rest: &str,
    other: Seq<char>,
    longer: &str,
    found: Option<String>,
    in_rest: Option<String>,
    passed: Option<String>,
)
    requires
        key@.len() > 0,
        !key@.contains('=') && !key@.contains('&'),
        value.len() > 0 && !value.contains('&'),
        query@ == key@.push('=') + value + seq!['&'] + rest@,
        call_ensures(web::get_param_str, (query, key), found),
        !other.contains('&'),
        !key@.push('=').is_prefix_of(other),
        longer@ == other + seq!['&'] + rest@,
        call_ensures(web::get_param_str, (rest, key), in_rest),
        call_ensures(web::get_param_str, (longer, key), passed),
    ensures
        found is Some && found->0@ == value,
        passed is Some <==> in_rest is Some,
        passed is Some ==> passed->0@ == in_rest->0@,
{
    let part = key@.push('=') + value;
    assert(!part.contains('&')) by {
        if part.contains('&') {
            let i = choose|i: int| 0 <= i < part.len() && part[i] == '&';
            if i < key@.len() {
                assert(key@.contains(key@[i]));
            } else if i > key@.len() {
                assert(value.contains(value[i - key@.len() - 1]));
            }
        }
    }
    assert(query@ =~= part.push('&') + rest@);
    assert(longer@ =~= other.push('&') + rest@);
    lemma_split_concat(part, rest@, '&');
    lemma_split_concat(other, rest@, '&');
    lemma_split_whole(part, '&');
    lemma_split_whole(other, '&');
    let parts = text::split_on(rest@, '&');
    lemma_first_value(part, parts, key@, true, parts.len());
    lemma_first_value(other, parts, key@, true, parts.len());
    lemma_value_in(key@, value);
    lemma_other_key(other, key@);
}

/// A number in a query is read as it was written, sign and all, whether more follows or not.
pub proof fn law_query_number(
    query: &str,
    alone: &str,
    key: &str,
    n: i32,
    rest: Seq<char>,
    found: Option<i32>,
    single: Option<i32>,
)
    requires
        !key@.contains('=') && !key@.contains('&'),
        query@ == key@.push('=') + text::signed_decimal(n as int) + seq!['&'] + rest,
        alone@ == key@.push('=') + text::signed_decimal(n as int),
        call_ensures(web::get_param, (query, key), found),
        call_ensures(web::get_param, (alone, key), single),
    ensures
        found == Some(n),
        single == Some(n),
{
    let value = text::signed_decimal(n as int);
    let part = key@.push('=') + value;
    text::law_number_comes_back(n);
    let d = text::decimal(if n < 0 {
        (-n) as nat
    } else {
        n as nat
    });
    text::lemma_decimal_digits(
        if n < 0 {
            (-n) as nat
        } else {
            n as nat
        },
    );
    assert(!part.contains('&')) by {
        if part.contains('&') {
            let i = choose|i: int| 0 <= i < part.len() && part[i] == '&';
            if i < key@.len() {
                assert(key@.contains(key@[i]));
            } else if i > key@.len() {
                let j = i - key@.len() - 1;
                assert(value[j] == '&');
                if n < 0 {
                    if j > 0 {
                        assert(d[j - 1] == '&');
                    }
                } else {
                    assert(d[j] == '&');
                }
            }
        }
    }
    assert(query@ =~= part.push('&') + rest);
    lemma_split_concat(part, rest, '&');
    lemma_split_whole(part, '&');
    let parts = text::split_on(rest, '&');
    lemma_first_value(part, parts, key@, false, parts.len());
    lemma_value_in(key@, value);
    lemma_first_value(part, Seq::empty(), key@, false, 0);
    assert(seq![part] + Seq::<Seq<char>>::empty() =~= seq![part]);
}

/// The first part with a key decides: where it is no number there is none, whatever follows. A text
/// that is empty is passed over.
pub proof fn law_first_part_decides(
    query: &str,
    key: &str,
    value: &[char],
    rest: &str,
    read: Option<i32>,
    found: Option<i32>,
    text_found: Option<String>,
    text_rest: Option<String>,
)
    requires
        !key@.contains('=') && !key@.contains('&'),
        !value@.contains('&'),
        query@ == key@.push('=') + value@ + seq!['&'] + rest@,
        call_ensures(text::read_number, (value,), read),
        call_ensures(web::get_param, (query, key), found),
        call_ensures(web::get_param_str, (query, key), text_found),
        call_ensures(web::get_param_str, (rest, key), text_rest),
    ensures
        found == read,
        value@.len() == 0 ==> (text_found is Some <==> text_rest is Some),
        value@.len() == 0 && text_found is Some ==> text_found->0@ == text_rest->0@,
{
    let part = key@.push('=') + value@;
    assert(!part.contains('&')) by {
        if part.contains('&') {
            let i = choose|i: int| 0 <= i < part.len() && part[i] == '&';
            if i < key@.len() {
                assert(key@.contains(key@[i]));
            } else if i > key@.len() {
                assert(value@.contains(value@[i - key@.len() - 1]));
            }
        }
    }
    assert(query@ =~= part.push('&') + rest@);
    lemma_split_concat(part, rest@, '&');
    lemma_split_whole(part, '&');
    let parts = text::split_on(rest@, '&');
    lemma_first_value(part, parts, key@, false, parts.len());
    lemma_first_value(part, parts, key@, true, parts.len());
    lemma_value_in(key@, value@);
}

// ── Requests ──────────────────────────────────────────────────────────────────
proof fn lemma_words_behind(a: Seq<char>, b: Seq<char>)
    requires
        a.len() == 0 || text::white(a.last()),
        b.len() > 0,
        forall|i: int| 0 <= i < b.len() ==> !text::white(#[trigger] b[i]),
    ensures
        text::words(a + b) == text::words(a).push(b),
    decreases b.len(),
{
    let s = a + b;
    assert(!text::white(b[b.len() - 1]));
    assert(s.last() == b.last());
    if b.len() == 1 {
        assert(s.drop_last() =~= a);
        assert(seq![s.last()] =~= b);
        if s.len() > 1 {
            assert(s[s.len() - 2] == a.last());
        }
    } else {
        let c = b.drop_last();
        assert forall|i: int| 0 <= i < c.len() implies !text::white(#[trigger] c[i]) by {
            assert(c[i] == b[i]);
        }
        lemma_words_behind(a, c);
        assert(s.drop_last() =~= a + c);
        assert(s[s.len() - 2] == b[b.len() - 2]);
        let w = text::words(a).push(c);
        assert(w.drop_last() =~= text::words(a));
        assert(c.push(b.last()) =~= b);
    }
}

proof fn lemma_words_more(a: Seq<char>, b: Seq<char>)
    ensures
        text::words(a.push(' ') + b).len() >= text::words(a).len(),
        forall|i: int|
            0 <= i < text::words(a).len() ==> #[trigger] text::words(a.push(' ') + b)[i]
                == text::words(a)[i],
    decreases b.len(),
{
    let s = a.push(' ') + b;
    if b.len() == 0 {
        assert(s =~= a.push(' '));
        assert(s.drop_last() =~= a);
    } else {
        lemma_words_more(a, b.drop_last());
        assert(s.drop_last() =~= a.push(' ') + b.drop_last());
        let w = text::words(s.drop_last());
        if !text::white(s.last()) && s.len() > 1 && !text::white(s[s.len() - 2]) {
            // The last word grows; it stands behind the blank.
            lemma_last_word_is_behind(a, b.drop_last());
        }
    }
}

/// A text that goes on with a letter behind a blank has more words than what stands before the blank.
proof fn lemma_last_word_is_behind(a: Seq<char>, b: Seq<char>)
    requires
        (a.push(' ') + b).len() > 0,
        !text::white((a.push(' ') + b).last()),
    ensures
        text::words(a.push(' ') + b).len() > text::words(a).len(),
    decreases b.len(),
{
    let s = a.push(' ') + b;
    if b.len() == 0 {
        assert(s =~= a.push(' '));
        assert(text::white(' '));
    } else {
        assert(s.drop_last() =~= a.push(' ') + b.drop_last());
        if s.len() > 1 && !text::white(s[s.len() - 2]) {
            assert(s.drop_last().last() == s[s.len() - 2]);
            lemma_last_word_is_behind(a, b.drop_last());
        } else {
            lemma_words_more(a, b.drop_last());
        }
    }
}

/// A request line is taken apart: method, path and, behind a question mark, the query. What follows
/// does not matter.
pub proof fn law_request_line(
    line: &str,
    method: Seq<char>,
    path: Seq<char>,
    query: Option<Seq<char>>,
    rest: Seq<char>,
    r: Option<Request>,
)
    requires
        method.len() > 0,
        path.len() > 0,
        forall|i: int| 0 <= i < method.len() ==> !text::white(#[trigger] method[i]),
        forall|i: int| 0 <= i < path.len() ==> !text::white(#[trigger] path[i]) && path[i] != '?',
        query is Some ==> forall|i: int|
            0 <= i < query->0.len() ==> !text::white(#[trigger] query->0[i]),
        line@ == method.push(' ') + (path + match query {
            Some(q) => seq!['?'] + q,
            None => Seq::empty(),
        }).push(' ') + rest,
        call_ensures(web::parse_request, (line,), r),
    ensures
        r is Some,
        r->0.method@ == method,
        r->0.path@ == path,
        r->0.query@ == match query {
            Some(q) => q,
            None => Seq::empty(),
        },
{
    let target = path + match query {
        Some(q) => seq!['?'] + q,
        None => Seq::empty(),
    };
    assert forall|i: int| 0 <= i < target.len() implies !text::white(#[trigger] target[i]) by {
        if i < path.len() {
            assert(target[i] == path[i]);
        } else if i > path.len() {
            assert(target[i] == query->0[i - path.len() - 1]);
        }
    }
    let a = method.push(' ');
    lemma_words_behind(Seq::empty(), method);
    assert(Seq::<char>::empty() + method =~= method);
    assert(a.drop_last() =~= method);
    assert(text::white(' '));
    assert(text::words(a) == seq![method]);
    lemma_words_behind(a, target);
    let both = a + target;
    assert(line@ =~= both.push(' ') + rest);
    lemma_words_more(both, rest);
    assert(text::words(both) =~= seq![method, target]);
    assert(text::words(line@)[0] == method && text::words(line@)[1] == target);
    match query {
        Some(q) => {
            assert(text::first_at(target, '?', path.len() as int)) by {
                assert forall|k: int| 0 <= k < path.len() implies #[trigger] target[k] != '?' by {
                    assert(target[k] == path[k]);
                }
            }
            text::lemma_first_at(target, '?', path.len() as int);
            assert(target.take(path.len() as int) =~= path);
            assert(target.skip(path.len() as int + 1) =~= q);
        },
        None => {
            assert(target =~= path);
            assert(!target.contains('?'));
        },
    }
}

/// A line of nothing but white space ends the headers; one that is longer does not.
pub proof fn law_headers_end(line: &str, r: HeaderLine)
    requires
        call_ensures(web::header_line, (line,), r),
    ensures
        r == HeaderLine::End <==> forall|i: int|
            0 <= i < line@.len() ==> text::white(#[trigger] line@[i]),
{
    lemma_trimmed_away(line@);
}

proof fn lemma_trimmed_away(s: Seq<char>)
    ensures
        text::trimmed_end(s).len() == 0 <==> forall|i: int|
            0 <= i < s.len() ==> text::white(#[trigger] s[i]),
    decreases s.len(),
{
    if s.len() > 0 {
        let d = s.drop_last();
        if text::white(s.last()) {
            lemma_trimmed_away(d);
            if text::trimmed_end(d).len() == 0 {
                assert forall|i: int| 0 <= i < s.len() implies text::white(#[trigger] s[i]) by {
                    if i < d.len() {
                        assert(text::white(d[i]));
                    }
                }
            } else {
                let i = choose|i: int| 0 <= i < d.len() && !text::white(#[trigger] d[i]);
                assert(!text::white(s[i]));
            }
        } else {
            assert(!text::white(s[s.len() - 1]));
        }
    }
}

// ── Answers ───────────────────────────────────────────────────────────────────
/// The text has the part, somewhere.
pub open spec fn has_part(s: Seq<char>, part: Seq<char>) -> bool {
    exists|i: int| 0 <= i <= s.len() - part.len() && #[trigger] s.subrange(i, i + part.len()) == part
}

/// A text has its middle.
pub proof fn lemma_has_part(a: Seq<char>, part: Seq<char>, b: Seq<char>)
    ensures
        has_part(a + part + b, part),
{
    let s = a + part + b;
    assert(s.subrange(a.len() as int, (a.len() + part.len()) as int) =~= part);
}

/// The head of an answer has its status in the first line, says of what kind and how long the body is,
/// and ends with a blank line.
pub proof fn law_answer_head(status: &str, kind: &str, len: usize, r: String)
    requires
        call_ensures(web::write_header, (status, kind, len), r),
    ensures
        ("HTTP/1.1 "@ + status@ + "\r\n"@).is_prefix_of(r@),
        has_part(r@, "\r\nContent-Type: "@ + kind@ + "\r\n"@),
        has_part(r@, "\r\nContent-Length: "@ + text::decimal(len as nat) + "\r\n"@),
        r@.len() >= 4,
        r@.skip(r@.len() - 4) == "\r\n\r\n"@,
{
    reveal_strlit("\r\n");
    reveal_strlit("\r\n\r\n");
    reveal_strlit("\r\nContent-Type: ");
    reveal_strlit("\r\nContent-Length: ");
    reveal_strlit("\r\nCache-Control: no-store\r\nConnection: close\r\n\r\n");
    let a = "HTTP/1.1 "@ + status@;
    let t = "\r\nContent-Type: "@;
    let l = "\r\nContent-Length: "@;
    let d = text::decimal(len as nat);
    let e = "\r\nCache-Control: no-store\r\nConnection: close\r\n\r\n"@;
    assert(r@ == a + t + kind@ + l + d + e);
    assert((a + "\r\n"@) =~= r@.take((a.len() + 2) as int));
    assert(r@ =~= a + (t + kind@ + "\r\n"@) + (l.skip(2) + d + e));
    lemma_has_part(a, t + kind@ + "\r\n"@, l.skip(2) + d + e);
    assert(r@ =~= (a + t + kind@) + (l + d + "\r\n"@) + e.skip(2));
    lemma_has_part(a + t + kind@, l + d + "\r\n"@, e.skip(2));
    assert(r@.skip(r@.len() - 4) =~= "\r\n\r\n"@);
}

/// A body goes out from its first byte to its last: each piece begins where what went out ends, is not
/// empty, and has at most 1024 bytes; what failed is tried three times more where that is wanted, and
/// then given up.
pub proof fn law_body_goes_out(
    w: &mut BodyWriter,
    before: BodyWriter,
    piece: Option<(usize, usize)>,
    ok: bool,
    wait: u32,
)
    requires
        before == *old(w),
        before.valid(),
        call_ensures(BodyWriter::piece, (&before,), piece),
        call_ensures(BodyWriter::sent, (w, ok), wait),
    ensures
        piece is None <==> before.failed || before.written == before.len,
        piece matches Some(p) ==> p.0 == before.written && p.0 < p.1 <= before.len && p.1 - p.0 <= 1024
            && (p.1 - p.0 == 1024 || p.1 == before.len),
        piece is Some && ok ==> final(w).written == (piece->0).1 && final(w).attempt == 0
            && !final(w).failed,
        ok ==> wait == if before.retrying {
            5
        } else {
            0u32
        },
        !ok ==> final(w).written == before.written,
        !ok && before.retrying && before.attempt < 3 ==> final(w).attempt == before.attempt + 1 && wait
            == 200 && final(w).failed == before.failed,
        !ok && (!before.retrying || before.attempt >= 3) ==> final(w).failed && wait == 0,
        final(w).len == before.len,
{
}

/// A body starts at its first byte; an empty one has no pieces.
pub proof fn law_body_starts(len: usize, retrying: bool, w: BodyWriter, piece: Option<(usize, usize)>)
    requires
        call_ensures(BodyWriter::new, (len, retrying), w),
        call_ensures(BodyWriter::piece, (&w,), piece),
    ensures
        w.len == len && w.retrying == retrying && w.attempt == 0,
        piece is None <==> len == 0,
        piece matches Some(p) ==> p.0 == 0 && (p.1 == len || p.1 == 1024),
{
}

/// Where something is cached the page gets it as it is; else it is told that there is nothing yet.
pub proof fn law_cached_bodies(s: &str, chart: String, range: String, no_chart: String, no_range: String)
    requires
        call_ensures(web::chart_body, (Some(s),), chart),
        call_ensures(web::range_body, (Some(s),), range),
        call_ensures(web::chart_body, (None,), no_chart),
        call_ensures(web::range_body, (None,), no_range),
    ensures
        chart@ == s@,
        range@ == s@,
        no_chart@ == "{\"points\":[]}"@,
        no_range@ == "{\"pending\":true}"@,
{
}

// ── Reports ───────────────────────────────────────────────────────────────────
/// A report says what happened, how bad it is and what came with it, each under its key.
pub proof fn law_report_says(kind: &str, severity: &str, message: &str, metadata: &str, r: String)
    requires
        call_ensures(api::event_body, (kind, severity, message, metadata), r),
    ensures
        says(r@, "\"event_type\":"@, json::quoted(kind@)),
        says(r@, "\"severity\":"@, json::quoted(severity@)),
        says(r@, ",\"message\":"@, json::quoted(message@)),
        says(r@, "\"metadata\":"@, metadata@),
{
    reveal_strlit("{\"message\":{\"event_type\":");
    reveal_strlit("\"event_type\":");
    reveal_strlit(",\"message\":");
    reveal_strlit(",\"metadata\":");
    reveal_strlit("\"metadata\":");
    reveal_strlit(",\"severity\":");
    reveal_strlit("\"severity\":");
    reveal_strlit(",\"source\":\"fin-esp\"},\"queue\":\"device-events\"}");
    let a = "{\"message\":{\"event_type\":"@;
    let b = json::quoted(kind@);
    let c = ",\"message\":"@;
    let d = json::quoted(message@);
    let e = ",\"metadata\":"@;
    let f = metadata@;
    let g = ",\"severity\":"@;
    let h = json::quoted(severity@);
    let i = ",\"source\":\"fin-esp\"},\"queue\":\"device-events\"}"@;
    lemma_report(r@, a, b, c, d, e, f, g, h, i);
    assert(a.skip(12) =~= "\"event_type\":"@);
    assert(e.skip(1) =~= "\"metadata\":"@);
    assert(g.skip(1) =~= "\"severity\":"@);
}

proof fn lemma_report(
    r: Seq<char>,
    a: Seq<char>,
    b: Seq<char>,
    c: Seq<char>,
    d: Seq<char>,
    e: Seq<char>,
    f: Seq<char>,
    g: Seq<char>,
    h: Seq<char>,
    i: Seq<char>,
)
    requires
        r == a + b + c + d + e + f + g + h + i,
        a.len() > 12,
        c.len() > 0 && ends_value(c[0]),
        e.len() > 0 && ends_value(e[0]),
        g.len() > 0 && ends_value(g[0]),
        i.len() > 0 && ends_value(i[0]),
    ensures
        says(r, a.skip(12), b),
        says(r, c, d),
        says(r, e.skip(1), f),
        says(r, g.skip(1), h),
{
    let n = (a + b).len() as int;
    let m = (a + b + c + d).len() as int;
    let k = (a + b + c + d + e + f).len() as int;
    assert(r.subrange(12, n) =~= a.skip(12) + b);
    assert(says_at(r, a.skip(12), b, 12));
    assert(r.subrange(n, m) =~= c + d);
    assert(says_at(r, c, d, n));
    assert(r.subrange(m + 1, k) =~= e.skip(1) + f);
    assert(says_at(r, e.skip(1), f, m + 1));
    assert(r.subrange(k + 1, k + g.len() + h.len()) =~= g.skip(1) + h);
    assert(says_at(r, g.skip(1), h, k + 1));
}

/// What came with a report of a button says which it was.
pub proof fn law_mechanism_is_said(mechanism: &str, r: String)
    requires
        call_ensures(api::mechanism_metadata, (mechanism,), r),
    ensures
        says(r@, "\"mechanism\":"@, json::quoted(mechanism@)),
        r@[0] == '{' && r@.last() == '}',
{
    reveal_strlit("{\"mechanism\":");
    reveal_strlit("\"mechanism\":");
    reveal_strlit("}");
    let a = "{\"mechanism\":"@;
    let b = json::quoted(mechanism@);
    assert(a.skip(1) =~= "\"mechanism\":"@);
    assert(r@.subrange(1, (a.len() + b.len()) as int) =~= a.skip(1) + b);
    assert(says_at(r@, a.skip(1), b, 1));
}

/// A quoted text stands between quotation marks; letters, digits and blanks stand as they are, and no
/// quotation mark of the text can end it.
pub proof fn law_quoted(s: Seq<char>)
    ensures
        json::quoted(s).len() >= s.len() + 2,
        json::quoted(s)[0] == '"',
        json::quoted(s).last() == '"',
        (forall|i: int|
            0 <= i < s.len() ==> #[trigger] s[i] as int >= 32 && s[i] != '"' && s[i] != '\\')
            ==> json::quoted(s) == seq!['"'] + s + seq!['"'],
{
    lemma_escaped(s);
}

proof fn lemma_escaped(s: Seq<char>)
    ensures
        json::all_escaped(s).len() >= s.len(),
        (forall|i: int|
            0 <= i < s.len() ==> #[trigger] s[i] as int >= 32 && s[i] != '"' && s[i] != '\\')
            ==> json::all_escaped(s) == s,
    decreases s.len(),
{
    if s.len() > 0 {
        let d = s.drop_last();
        lemma_escaped(d);
        if forall|i: int|
            0 <= i < s.len() ==> #[trigger] s[i] as int >= 32 && s[i] != '"' && s[i] != '\\' {
            assert forall|i: int| 0 <= i < d.len() implies #[trigger] d[i] as int >= 32 && d[i] != '"'
                && d[i] != '\\' by {
                assert(s[i] as int >= 32);
            }
            assert(s[s.len() - 1] as int >= 32);
            assert(d + seq![s.last()] =~= s);
        }
    } else {
        assert(s =~= Seq::<char>::empty());
    }
}

/// Presses on the page are reported as what they are: the lamp's switches as one button, the presets
/// each as its own; other requests are not reported. A report counts as taken where the server says so.
pub proof fn law_presses_are_reported(
    on: Option<&'static str>,
    off: Option<&'static str>,
    toggle: Option<&'static str>,
    warm: Option<&'static str>,
    bright: Option<&'static str>,
    status: Option<&'static str>,
    code: u16,
    taken: bool,
)
    requires
        call_ensures(web::report_for, (Action::LampOn,), on),
        call_ensures(web::report_for, (Action::LampOff,), off),
        call_ensures(web::report_for, (Action::LampToggle,), toggle),
        call_ensures(web::report_for, (Action::LampWarm,), warm),
        call_ensures(web::report_for, (Action::LampBright,), bright),
        call_ensures(web::report_for, (Action::Status,), status),
        call_ensures(api::reported, (code,), taken),
    ensures
        on is Some && off is Some && toggle is Some && on->0@ == off->0@ && on->0@ == toggle->0@,
        on->0@ == "lamp button (web)"@,
        warm is Some && warm->0@ == "warm dim button (web)"@,
        bright is Some && bright->0@ == "bright white button (web)"@,
        status is None,
        taken <==> 200 <= code <= 299,
{
}

/// Requests from outside are told from those of the LAN by the address they come through.
pub proof fn law_origins(peer: &str, external: bool, name: &'static str, same: &'static str)
    requires
        call_ensures(web::is_external, (peer,), external),
        call_ensures(web::classify_origin, (peer,), name),
        call_ensures(crate::panel::origin, (external,), same),
    ensures
        external <==> "192.168.1.105"@.is_prefix_of(peer@),
        external ==> name@ == "web-external"@,
        !external ==> name@ == "web-internal"@,
        same@ == name@,
{
}

} // verus!
