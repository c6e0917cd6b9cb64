//! Each price belongs to its asset, from the answer to the display.

use vstd::prelude::*;

use crate::api;
use crate::api::{FetchWorker, HttpStep, MarketData, QuoteText, StooqError};
use crate::cache;
use crate::cache::CacheRecord;
use crate::chart;
use crate::config::Screen;
use crate::double::Double;
use crate::history::PriceHistory;
use crate::json;
use crate::panel;
use crate::panel::WeatherLimiter;
use crate::screen::UiState;
use crate::text;
use crate::ticker;

verus! {

/// Bitcoin and Solana of `a` are those of `b`.
pub open spec fn same_crypto(a: MarketData, b: MarketData) -> bool {
    &&& a.price_btc == b.price_btc && a.chg_btc_pct == b.chg_btc_pct
    &&& a.price_sol == b.price_sol && a.chg_sol_pct == b.chg_sol_pct
}

/// The dollar's rate of `a` is that of `b`.
pub open spec fn same_usd_brl(a: MarketData, b: MarketData) -> bool {
    a.price_usd_brl == b.price_usd_brl && a.chg_usd_brl_pct == b.chg_usd_brl_pct
}

pub open spec fn same_gold(a: MarketData, b: MarketData) -> bool {
    &&& a.price_gold == b.price_gold && a.chg_gold_pct == b.chg_gold_pct
    &&& a.has_chg_gold == b.has_chg_gold
}

pub open spec fn same_oil(a: MarketData, b: MarketData) -> bool {
    &&& a.price_oil == b.price_oil && a.chg_oil_pct == b.chg_oil_pct
    &&& a.has_chg_oil == b.has_chg_oil
}

pub open spec fn same_weather(a: MarketData, b: MarketData) -> bool {
    &&& a.weather_temp == b.weather_temp && a.weather_code == b.weather_code
    &&& a.ok_weather == b.ok_weather
}

// ── Merging ───────────────────────────────────────────────────────────────────
/// Where a group succeeded, every price and change of it after the merge is that of the same asset in
/// the new result; where it failed, all of it is as it was. What is known stays known, and weather is
/// left alone.
pub proof fn law_merge_takes_each_group(data: &mut MarketData, r: MarketData)
    requires
        call_ensures(api::merge, (data, r), ()),
    ensures
        same_crypto(
            *final(data),
            if r.ok_crypto {
                r
            } else {
                *old(data)
            },
        ),
        same_usd_brl(
            *final(data),
            if r.ok_usd_brl {
                r
            } else {
                *old(data)
            },
        ),
        same_gold(
            *final(data),
            if r.ok_gold {
                r
            } else {
                *old(data)
            },
        ),
        same_oil(
            *final(data),
            if r.ok_oil {
                r
            } else {
                *old(data)
            },
        ),
        same_weather(*final(data), *old(data)),
        final(data).ok_crypto == (old(data).ok_crypto || r.ok_crypto),
        final(data).ok_usd_brl == (old(data).ok_usd_brl || r.ok_usd_brl),
        final(data).ok_gold == (old(data).ok_gold || r.ok_gold),
        final(data).ok_oil == (old(data).ok_oil || r.ok_oil),
{
}

/// What both workers bring is taken over group by group: of a group that both brought, the second's.
pub proof fn law_fetch_takes_both(data: &mut MarketData, a: MarketData, b: Option<MarketData>)
    requires
        call_ensures(api::fetch_all, (data, a, b), ()),
    ensures
        same_crypto(
            *final(data),
            if b is Some && b->0.ok_crypto {
                b->0
            } else if a.ok_crypto {
                a
            } else {
                *old(data)
            },
        ),
        same_usd_brl(
            *final(data),
            if b is Some && b->0.ok_usd_brl {
                b->0
            } else if a.ok_usd_brl {
                a
            } else {
                *old(data)
            },
        ),
        same_gold(
            *final(data),
            if b is Some && b->0.ok_gold {
                b->0
            } else if a.ok_gold {
                a
            } else {
                *old(data)
            },
        ),
        same_oil(
            *final(data),
            if b is Some && b->0.ok_oil {
                b->0
            } else if a.ok_oil {
                a
            } else {
                *old(data)
            },
        ),
        same_weather(*final(data), *old(data)),
{
}

/// The end of a fetch shows what it brought, and ends the waiting.
pub proof fn law_fetch_ends(ui: &mut UiState, data: MarketData, now: u64)
    requires
        call_ensures(panel::end_fetch, (ui, data, now), ()),
    ensures
        data.ok_crypto ==> same_crypto(final(ui).data, data),
        data.ok_usd_brl ==> same_usd_brl(final(ui).data, data),
        data.ok_gold ==> same_gold(final(ui).data, data),
        data.ok_oil ==> same_oil(final(ui).data, data),
        !data.ok_crypto ==> same_crypto(final(ui).data, old(ui).data),
        !data.ok_usd_brl ==> same_usd_brl(final(ui).data, old(ui).data),
        !data.ok_gold ==> same_gold(final(ui).data, old(ui).data),
        !data.ok_oil ==> same_oil(final(ui).data, old(ui).data),
        same_weather(final(ui).data, old(ui).data),
        !final(ui).fetching,
        final(ui).fetch_completed_at == now,
        final(ui).screen == old(ui).screen && final(ui).lamp == old(ui).lamp,
{
}

// ── Answers ───────────────────────────────────────────────────────────────────
/// The number, or zero where there is none.
pub open spec fn number_or_zero(v: Option<Double>) -> Double {
    if v is Some {
        v->0
    } else {
        Double { bits: 0 }
    }
}

/// An answer to the crypto request gives each coin its own price and its own change, and leaves the
/// other markets alone. It counts where one of the prices is above zero.
pub proof fn law_crypto_answer(
    data: &mut MarketData,
    body: &str,
    held: Map<Seq<Seq<char>>, json::Node>,
    btc: Option<Double>,
    btc_chg: Option<Double>,
    sol: Option<Double>,
    sol_chg: Option<Double>,
)
    requires
        call_ensures(api::fetch_crypto, (data, Some(body)), ()),
        json::json_parsed(body@) == Some(held),
        btc == api::number_at(held, seq!["bitcoin"@, "usd"@]),
        btc_chg == api::number_at(held, seq!["bitcoin"@, "usd_24h_change"@]),
        sol == api::number_at(held, seq!["solana"@, "usd"@]),
        sol_chg == api::number_at(held, seq!["solana"@, "usd_24h_change"@]),
    ensures
        final(data).price_btc == number_or_zero(btc),
        final(data).chg_btc_pct == number_or_zero(btc_chg),
        final(data).price_sol == number_or_zero(sol),
        final(data).chg_sol_pct == number_or_zero(sol_chg),
        final(data).ok_crypto == (number_or_zero(btc).above_zero() || number_or_zero(
            sol,
        ).above_zero()),
        same_usd_brl(*final(data), *old(data)) && final(data).ok_usd_brl == old(data).ok_usd_brl,
        same_gold(*final(data), *old(data)) && final(data).ok_gold == old(data).ok_gold,
        same_oil(*final(data), *old(data)) && final(data).ok_oil == old(data).ok_oil,
        same_weather(*final(data), *old(data)),
{
}

/// The number under a path is there where every step of the path is, and is the one that stands at
/// its end.
pub proof fn law_number_stands_at_path(
    held: Map<Seq<Seq<char>>, json::Node>,
    a: Seq<char>,
    b: Seq<char>,
    whole: Option<i64>,
    double: Option<Double>,
)
    requires
        held.dom().contains(seq![a]),
        held.dom().contains(seq![a, b]),
        held[seq![a, b]] == (json::Node::Number { whole, double }),
    ensures
        api::number_at(held, seq![a, b]) == double,
        api::whole_at(held, seq![a, b]) == whole,
        api::text_at(held, seq![a, b]) is None,
{
    let p = seq![a, b];
    assert(p.take(1) =~= seq![a]);
    assert(p.take(2) =~= p);
    assert forall|i: int| 0 < i <= p.len() implies #[trigger] held.dom().contains(p.take(i)) by {
        assert(i == 1 || i == 2);
    }
}

/// An answer to the weather request gives temperature and code, and counts where there is a
/// temperature. Prices are left alone.
pub proof fn law_weather_answer(
    data: &mut MarketData,
    body: &str,
    held: Map<Seq<Seq<char>>, json::Node>,
    temp: Option<Double>,
    code: Option<i64>,
)
    requires
        call_ensures(api::fetch_weather, (data, Some(body)), ()),
        json::json_parsed(body@) == Some(held),
        temp == api::number_at(held, seq!["current"@, "temperature_2m"@]),
        code == api::whole_at(held, seq!["current"@, "weather_code"@]),
    ensures
        final(data).weather_temp == temp,
        final(data).weather_code is Some <==> code is Some,
        code is Some && i32::MIN <= code->0 <= i32::MAX ==> final(data).weather_code->0 == code->0,
        final(data).ok_weather == (temp is Some),
        same_crypto(*final(data), *old(data)) && same_usd_brl(*final(data), *old(data)),
        same_gold(*final(data), *old(data)) && same_oil(*final(data), *old(data)),
{
    if code is Some && i32::MIN <= code->0 <= i32::MAX {
        let c = code->0;
        assert(i32::MIN <= c <= i32::MAX ==> c as i32 as i64 == c) by (bit_vector);
    }
}

/// The rate of the dollar counts where it is above zero, and touches no other market. An answer that
/// did not come changes nothing.
pub proof fn law_usd_brl_answer(
    data: &mut MarketData,
    quote: Option<(Option<Double>, Option<Double>)>,
)
    requires
        call_ensures(api::fetch_usd_brl, (data, quote), ()),
    ensures
        quote is None ==> *final(data) == *old(data),
        quote matches Some(q) ==> final(data).price_usd_brl == number_or_zero(q.0) && final(data).chg_usd_brl_pct == number_or_zero(q.1) && final(data).ok_usd_brl == number_or_zero(
            q.0,
        ).above_zero(),
        same_crypto(*final(data), *old(data)) && same_gold(*final(data), *old(data)),
        same_oil(*final(data), *old(data)) && same_weather(*final(data), *old(data)),
{
}

/// The dollar's rate is the text `bid`, its change the text `pctChange`.
pub proof fn law_usd_brl_texts(
    body: &str,
    held: Map<Seq<Seq<char>>, json::Node>,
    q: Option<QuoteText>,
    bid: Seq<char>,
    change: Seq<char>,
)
    requires
        call_ensures(api::usd_brl_texts, (body,), q),
        json::json_parsed(body@) == Some(held),
        held.dom().contains(seq!["USDBRL"@]),
        held.dom().contains(seq!["USDBRL"@, "bid"@]),
        held[seq!["USDBRL"@, "bid"@]] == json::Node::Text(bid),
        held.dom().contains(seq!["USDBRL"@, "pctChange"@]),
        held[seq!["USDBRL"@, "pctChange"@]] == json::Node::Text(change),
    ensures
        q is Some,
        q->0.bid is Some && q->0.bid->0@ == bid,
        q->0.pct_change is Some && q->0.pct_change->0@ == change,
{
    let p = seq!["USDBRL"@, "bid"@];
    let r = seq!["USDBRL"@, "pctChange"@];
    assert(p.take(1) =~= seq!["USDBRL"@]);
    assert(p.take(2) =~= p);
    assert(r.take(1) =~= seq!["USDBRL"@]);
    assert(r.take(2) =~= r);
    assert forall|i: int| 0 < i <= 2 implies #[trigger] held.dom().contains(p.take(i)) by {
        assert(i == 1 || i == 2);
    }
    assert forall|i: int| 0 < i <= 2 implies #[trigger] held.dom().contains(r.take(i)) by {
        assert(i == 1 || i == 2);
    }
}

/// Gold and oil are taken over one by one, each where its quote made sense.
pub proof fn law_gold_and_oil_answers(
    data: &mut MarketData,
    gold: Option<(Double, Double, bool)>,
    oil: Option<(Double, Double, bool)>,
)
    requires
        call_ensures(api::fetch_gold_and_oil, (data, gold, oil), ()),
    ensures
        gold matches Some(g) ==> final(data).ok_gold && (
            final(data).price_gold,
            final(data).chg_gold_pct,
            final(data).has_chg_gold,
        ) == g,
        gold is None ==> same_gold(*final(data), *old(data)) && final(data).ok_gold == old(data).ok_gold,
        oil matches Some(o) ==> final(data).ok_oil && (
            final(data).price_oil,
            final(data).chg_oil_pct,
            final(data).has_chg_oil,
        ) == o,
        oil is None ==> same_oil(*final(data), *old(data)) && final(data).ok_oil == old(data).ok_oil,
        same_crypto(*final(data), *old(data)) && same_usd_brl(*final(data), *old(data)),
        same_weather(*final(data), *old(data)),
{
}

/// A quote makes sense where both columns are numbers and the closing price is not zero or below. Its
/// price is the closing price.
pub proof fn law_quote_is_closing_price(
    open: Option<Double>,
    close: Option<Double>,
    change: Double,
    r: Result<(Double, Double, bool), StooqError>,
)
    requires
        call_ensures(api::parse_stooq_body, (open, close, change), r),
    ensures
        r is Ok <==> open is Some && close is Some && !close->0.below_zero()
            && !close->0.equals_zero(),
        r matches Ok(q) ==> q.0 == close->0 && q.1 == change && q.2,
        open is None ==> r == Err::<(Double, Double, bool), StooqError>(StooqError::BadOpen),
        open is Some && close is None ==> r == Err::<(Double, Double, bool), StooqError>(
            StooqError::BadClose,
        ),
{
}

/// The fields of a line, with a separator between each and the next.
pub open spec fn joined(fields: Seq<Seq<char>>, sep: char) -> Seq<char>
    decreases fields.len(),
{
    if fields.len() == 0 {
        Seq::empty()
    } else if fields.len() == 1 {
        fields[0]
    } else {
        joined(fields.drop_last(), sep).push(sep) + fields.last()
    }
}

proof fn lemma_split_behind(a: Seq<char>, b: Seq<char>, sep: char)
    requires
        !b.contains(sep),
    ensures
        text::split_on(a.push(sep) + b, sep) == text::split_on(a, sep).push(b),
    decreases b.len(),
{
    let s = a.push(sep) + b;
    if b.len() == 0 {
        assert(s =~= a.push(sep));
        assert(s.drop_last() =~= a);
        assert(b =~= Seq::<char>::empty());
    } else {
        let c = b.drop_last();
        assert(!c.contains(sep)) by {
            if c.contains(sep) {
                let i = choose|i: int| 0 <= i < c.len() && c[i] == sep;
                assert(b[i] == sep);
            }
        }
        lemma_split_behind(a, c, sep);
        assert(s.drop_last() =~= a.push(sep) + c);
        assert(s.last() == b.last());
        assert(b[b.len() - 1] != sep);
        let f = text::split_on(s.drop_last(), sep);
        assert(f.drop_last() =~= text::split_on(a, sep));
        assert(f.last() == c);
        assert(c.push(b.last()) =~= b);
    }
}

proof fn lemma_split_whole(a: Seq<char>, sep: char)
    requires
        !a.contains(sep),
    ensures
        text::split_on(a, sep) == seq![a],
    decreases a.len(),
{
    if a.len() == 0 {
        assert(a =~= Seq::<char>::empty());
    } else {
        let c = a.drop_last();
        assert(!c.contains(sep)) by {
            if c.contains(sep) {
                let i = choose|i: int| 0 <= i < c.len() && c[i] == sep;
                assert(a[i] == sep);
            }
        }
        lemma_split_whole(c, sep);
        assert(a[a.len() - 1] != sep);
        assert(seq![c].drop_last() =~= Seq::<Seq<char>>::empty());
        assert(c.push(a.last()) =~= a);
        assert(text::split_on(a, sep) =~= seq![a]);
    }
}

/// Splitting undoes joining: the fields of a line are those it was made of.
pub proof fn law_split_undoes_join(fields: Seq<Seq<char>>, sep: char)
    requires
        fields.len() > 0,
        forall|i: int| 0 <= i < fields.len() ==> !(#[trigger] fields[i]).contains(sep),
    ensures
        text::split_on(joined(fields, sep), sep) == fields,
    decreases fields.len(),
{
    if fields.len() == 1 {
        lemma_split_whole(fields[0], sep);
        assert(seq![fields[0]] =~= fields);
    } else {
        law_split_undoes_join(fields.drop_last(), sep);
        lemma_split_behind(joined(fields.drop_last(), sep), fields.last(), sep);
        assert(fields.drop_last().push(fields.last()) =~= fields);
    }
}

/// Of a line of quotes the fourth column is the opening price and the seventh the closing price.
pub proof fn law_quote_columns(
    fields: Seq<Seq<char>>,
    body: &str,
    r: Result<(String, String), StooqError>,
)
    requires
        7 <= fields.len(),
        forall|i: int|
            0 <= i < fields.len() ==> !(#[trigger] fields[i]).contains(',')
                && !fields[i].contains('\n'),
        body@ == joined(fields, ','),
        call_ensures(api::stooq_columns, (body,), r),
    ensures
        r is Ok,
        r matches Ok(p) ==> p.0@ == fields[3] && p.1@ == fields[6],
{
    law_split_undoes_join(fields, ',');
    lemma_joined(fields, ',', '\n');
    assert(api::first_line(body@) == body@);
    assert(body@.len() > 0);
}

/// Only the first line of an answer counts, whichever way it ends.
pub proof fn law_first_line_counts(
    fields: Seq<Seq<char>>,
    end: Seq<char>,
    rest: Seq<char>,
    body: &str,
    r: Result<(String, String), StooqError>,
)
    requires
        7 <= fields.len(),
        forall|i: int|
            0 <= i < fields.len() ==> !(#[trigger] fields[i]).contains(',')
                && !fields[i].contains('\n') && !fields[i].contains('\r'),
        end == seq!['\n'] || end == seq!['\r', '\n'],
        body@ == joined(fields, ',') + end + rest,
        call_ensures(api::stooq_columns, (body,), r),
    ensures
        r is Ok,
        r matches Ok(p) ==> p.0@ == fields[3] && p.1@ == fields[6],
{
    let line = joined(fields, ',');
    let k = line.len() + end.len() - 1;
    law_split_undoes_join(fields, ',');
    lemma_joined(fields, ',', '\n');
    lemma_joined(fields, ',', '\r');
    assert(body@[k as int] == '\n');
    assert(text::first_at(body@, '\n', k as int)) by {
        assert forall|i: int| 0 <= i < k implies #[trigger] body@[i] != '\n' by {
            if i < line.len() {
                assert(body@[i] == line[i]);
                assert(line.contains(line[i]));
            } else {
                assert(body@[i] == end[i - line.len()]);
            }
        }
    }
    text::lemma_first_at(body@, '\n', k as int);
    let first = body@.take(k as int);
    if end.len() == 1 {
        assert(first =~= line);
        if line.len() > 0 && line.last() == '\r' {
            assert(line.contains(line[line.len() - 1]));
        }
    } else {
        assert(first =~= line.push('\r'));
        assert(first.drop_last() =~= line);
    }
    assert(api::first_line(body@) == line);
}

proof fn lemma_joined(fields: Seq<Seq<char>>, sep: char, c: char)
    requires
        fields.len() > 0,
        sep != c,
        forall|i: int| 0 <= i < fields.len() ==> !(#[trigger] fields[i]).contains(c),
    ensures
        !joined(fields, sep).contains(c),
        joined(fields, sep).len() >= fields.len() - 1,
    decreases fields.len(),
{
    if fields.len() > 1 {
        lemma_joined(fields.drop_last(), sep, c);
        let a = joined(fields.drop_last(), sep);
        let s = joined(fields, sep);
        if s.contains(c) {
            let i = choose|i: int| 0 <= i < s.len() && s[i] == c;
            if i < a.len() {
                assert(a[i] == c);
            } else if i > a.len() {
                assert(fields.last()[i - a.len() - 1] == c);
                assert(fields[fields.len() - 1].contains(c));
            }
        }
    }
}

/// A server that is overloaded is left alone for twenty seconds; after other failures each try waits
/// longer than the one before; only a success is read, and only while tries are left is there another.
pub proof fn law_retries(attempt: u32, status: u16, retries: u32, r: HttpStep)
    requires
        attempt < retries,
        call_ensures(api::after_response, (attempt, status, retries), r),
    ensures
        r is ReadBody <==> status == 200,
        r is Again <==> status != 200 && attempt + 1 < retries,
        (status == 429 || status == 503) && attempt + 1 < retries ==> r == (HttpStep::Again {
            wait_ms: 20_000,
        }),
        (status == 429 || status == 503) && attempt + 1 == retries ==> r == (HttpStep::GiveUp {
            wait_ms: 20_000,
        }),
        status != 200 && status != 429 && status != 503 && attempt + 1 < retries ==> (r matches
            HttpStep::Again { wait_ms } && wait_ms == 800 * (attempt + 1)),
        status != 200 && status != 429 && status != 503 && attempt + 1 == retries ==> r
            == (HttpStep::GiveUp { wait_ms: 0 }),
{
}

/// What a worker posts is what is collected, once; a request is served once.
pub proof fn law_hand_over(
    a: &mut FetchWorker,
    b: &mut FetchWorker,
    c: &mut FetchWorker,
    d: MarketData,
    first: Option<MarketData>,
    second: Option<MarketData>,
)
    requires
        call_ensures(FetchWorker::post, (a, d), ()),
        *old(b) == *final(a),
        call_ensures(FetchWorker::collect, (b,), first),
        *old(c) == *final(b),
        call_ensures(FetchWorker::collect, (c,), second),
    ensures
        first == Some(d),
        second is None,
        final(c).go == old(a).go,
{
}

// ── What is shown ─────────────────────────────────────────────────────────────
/// Each screen shows the price and the change of its own asset: what is known of the others does not
/// matter.
pub proof fn law_screens_show_own_asset(
    ui: UiState,
    p: Double,
    c: Double,
    btc: Double,
    sol: Double,
    gold: Double,
    oil: Double,
    usd: Double,
)
    requires
        call_ensures(
            chart::current_price,
            (&UiState {
                screen: Screen::Btc,
                data: MarketData { price_btc: p, ..ui.data },
                ..ui
            },),
            btc,
        ),
        call_ensures(
            chart::current_price,
            (&UiState {
                screen: Screen::Sol,
                data: MarketData { price_sol: p, ..ui.data },
                ..ui
            },),
            sol,
        ),
        call_ensures(
            chart::current_price,
            (&UiState {
                screen: Screen::Gold,
                data: MarketData { price_gold: p, ..ui.data },
                ..ui
            },),
            gold,
        ),
        call_ensures(
            chart::current_price,
            (&UiState {
                screen: Screen::Oil,
                data: MarketData { price_oil: p, ..ui.data },
                ..ui
            },),
            oil,
        ),
        call_ensures(
            chart::current_price,
            (&UiState {
                screen: Screen::UsdBrl,
                data: MarketData { price_usd_brl: p, ..ui.data },
                ..ui
            },),
            usd,
        ),
    ensures
        btc == p && sol == p && gold == p && oil == p && usd == p,
        ticker::change_of(
            UiState {
                screen: Screen::Btc,
                data: MarketData { chg_btc_pct: c, ok_crypto: true, ..ui.data },
                ..ui
            },
        ) == (c, true),
        ticker::change_of(
            UiState {
                screen: Screen::Sol,
                data: MarketData { chg_sol_pct: c, ok_crypto: true, ..ui.data },
                ..ui
            },
        ) == (c, true),
        ticker::change_of(
            UiState {
                screen: Screen::Gold,
                data: MarketData { chg_gold_pct: c, has_chg_gold: true, ..ui.data },
                ..ui
            },
        ) == (c, true),
        ticker::change_of(
            UiState {
                screen: Screen::Oil,
                data: MarketData { chg_oil_pct: c, has_chg_oil: true, ..ui.data },
                ..ui
            },
        ) == (c, true),
        ticker::change_of(
            UiState {
                screen: Screen::UsdBrl,
                data: MarketData { chg_usd_brl_pct: c, ok_usd_brl: true, ..ui.data },
                ..ui
            },
        ) == (c, true),
{
}

// ── Weather ───────────────────────────────────────────────────────────────────
/// Weather that was fetched well replaces what was there, and nothing else; weather that failed
/// leaves it.
pub proof fn law_weather_taken(ui: &mut UiState, data: MarketData, keep: bool)
    requires
        call_ensures(panel::take_weather, (ui, &data), keep),
    ensures
        keep == data.ok_weather,
        data.ok_weather ==> same_weather(final(ui).data, data),
        !data.ok_weather ==> *final(ui) == *old(ui),
        same_crypto(final(ui).data, old(ui).data) && same_usd_brl(final(ui).data, old(ui).data),
        same_gold(final(ui).data, old(ui).data) && same_oil(final(ui).data, old(ui).data),
{
}

/// Weather is fetched the first time someone asks, and then at most every ten minutes.
pub proof fn law_weather_is_limited(
    l: &mut WeatherLimiter,
    again: &mut WeatherLimiter,
    now: u64,
    later: u64,
    asked: bool,
    first: bool,
    second: bool,
)
    requires
        call_ensures(WeatherLimiter::serve, (l, now, asked), first),
        *old(again) == *final(l),
        call_ensures(WeatherLimiter::serve, (again, later, true), second),
        0 < now <= later,
    ensures
        !asked ==> !first,
        old(l).last_fetch_ms == 0 && asked ==> first,
        first ==> (second <==> later - now >= 600_000),
        !first && old(l).last_fetch_ms == 0 ==> second,
{
}

/// Clear and cloudy skies, fog and snow are not shown as rain; drizzle, rain, showers and storm are.
pub proof fn law_rain_is_wet(code: i32, label: &'static str, rain: bool)
    requires
        call_ensures(api::wmo_label, (code,), label),
        call_ensures(api::wmo_is_rain, (code,), rain),
    ensures
        label@ == "clear"@ || label@ == "fine"@ || label@ == "p.cld"@ || label@ == "cloud"@
            || label@ == "fog"@ || label@ == "snow"@ ==> !rain,
        label@ == "drzl"@ || label@ == "rain"@ || label@ == "shwr"@ || label@ == "storm"@ ==> rain,
        rain <==> (code / 10 == 5 && code > 50) || (code / 10 == 6 && code % 10 < 8) || (code / 10 == 8
            && code % 10 < 7) || code > 94,
        code < 0 ==> label@ == "wx"@,
        label@ == "clear"@ <==> code == 0,
        label@ == "fog"@ <==> code == 45 || code == 48,
        label@ == "drzl"@ <==> 51 <= code <= 55 && code % 2 == 1,
        label@ == "rain"@ <==> 61 <= code <= 65 && code % 2 == 1,
        label@ == "snow"@ <==> 71 <= code <= 75 && code % 2 == 1,
        label@ == "shwr"@ <==> 80 <= code <= 82,
        label@ == "storm"@ <==> code == 96 || code == 99,
        0 < code <= 3 <==> label@ == "fine"@ || label@ == "p.cld"@ || label@ == "cloud"@,
        label@.len() <= 5,
{
    reveal_strlit("clear");
    reveal_strlit("fine");
    reveal_strlit("p.cld");
    reveal_strlit("cloud");
    reveal_strlit("fog");
    reveal_strlit("drzl");
    reveal_strlit("rain");
    reveal_strlit("snow");
    reveal_strlit("shwr");
    reveal_strlit("storm");
    reveal_strlit("wx");
    let w = |s: Seq<char>| (s.len(), s[0], s[1]);
    assert(w("clear"@) == (5nat, 'c', 'l') && w("fine"@) == (4nat, 'f', 'i'));
    assert(w("p.cld"@) == (5nat, 'p', '.') && w("cloud"@) == (5nat, 'c', 'l'));
    assert("clear"@[2] == 'e' && "cloud"@[2] == 'o');
    assert(w("fog"@) == (3nat, 'f', 'o') && w("drzl"@) == (4nat, 'd', 'r'));
    assert(w("rain"@) == (4nat, 'r', 'a') && w("snow"@) == (4nat, 's', 'n'));
    assert(w("shwr"@) == (4nat, 's', 'h') && w("storm"@) == (5nat, 's', 't'));
    assert(w("wx"@) == (2nat, 'w', 'x'));
}

// ── History ───────────────────────────────────────────────────────────────────
/// After a fetch each asset's history ends with its own price, where there is one; without a new fetch
/// nothing is added.
pub proof fn law_history_is_recorded(hist: &mut PriceHistory, ui: UiState, last: &mut u64)
    requires
        old(hist).valid(),
        old(hist)@.len() == 5,
        call_ensures(panel::record_history, (hist, &ui, last), ()),
    ensures
        ui.fetch_completed_at <= *old(last) ==> final(hist)@ == old(hist)@ && *final(last) == *old(last),
        ui.fetch_completed_at > *old(last) ==> {
            &&& *final(last) == ui.fetch_completed_at
            &&& ui.data.price_btc.above_zero() ==> final(hist)@[Screen::Btc.number()].last()
                == ui.data.price_btc
            &&& ui.data.price_sol.above_zero() ==> final(hist)@[Screen::Sol.number()].last()
                == ui.data.price_sol
            &&& ui.data.price_gold.above_zero() ==> final(hist)@[Screen::Gold.number()].last()
                == ui.data.price_gold
            &&& ui.data.price_oil.above_zero() ==> final(hist)@[Screen::Oil.number()].last()
                == ui.data.price_oil
            &&& ui.data.price_usd_brl.above_zero() ==> final(hist)@[Screen::UsdBrl.number()].last()
                == ui.data.price_usd_brl
            &&& ui.data.price_btc.bits == 0 ==> final(hist)@[Screen::Btc.number()] == old(hist)@[Screen::Btc.number()]
            &&& ui.data.price_gold.bits == 0 ==> final(hist)@[Screen::Gold.number()] == old(hist)@[Screen::Gold.number()]
        },
{
}

/// A sample goes to the history of its own asset, behind those that are there; the oldest goes where
/// there are sixty. What is zero or below is no sample.
pub proof fn law_sample_goes_to_its_asset(
    hist: &mut PriceHistory,
    s: Screen,
    other: Screen,
    price: Double,
    k: int,
)
    requires
        old(hist).valid(),
        old(hist)@.len() == 5,
        old(hist)@[s.number()].len() <= 60,
        call_ensures(PriceHistory::push, (hist, s, price), ()),
    ensures
        price.bits == 0 || price.below_zero() ==> final(hist)@ == old(hist)@,
        other != s ==> final(hist)@[other.number()] == old(hist)@[other.number()],
        price.above_zero() ==> ({
            let was = old(hist)@[s.number()];
            let is = final(hist)@[s.number()];
            &&& is.last() == price
            &&& is.len() == if was.len() < 60 {
                was.len() + 1
            } else {
                60
            }
            &&& 1 <= k < is.len() ==> is[is.len() - 1 - k] == was[was.len() - k]
        }),
{
    crate::config::law_number_names_screen(s, other);
}

/// What is got of a history is its newest samples, oldest first, as many as there is room for.
pub proof fn law_history_comes_out(
    hist: PriceHistory,
    s: Screen,
    out: &mut [Double],
    count: usize,
    k: int,
)
    requires
        hist.valid(),
        call_ensures(PriceHistory::get, (&hist, s, out), count),
    ensures
        ({
            let h = hist@[s.number()];
            &&& count == if h.len() <= old(out)@.len() {
                h.len()
            } else {
                old(out)@.len()
            }
            &&& 0 <= k < count ==> final(out)@[k] == h[h.len() - count + k]
            &&& count <= k < old(out)@.len() ==> final(out)@[k] == old(out)@[k]
        }),
{
}

// ── Cache ─────────────────────────────────────────────────────────────────────
/// What is loaded of a market is what the record has under its own keys; a market whose price is
/// missing or not above zero is not known.
pub proof fn law_cache_gives_each_market(rec: CacheRecord, r: Option<MarketData>)
    requires
        call_ensures(cache::load, (&rec,), r),
    ensures
        ({
            let up = |v: Option<Double>| v is Some && v->0.above_zero();
            &&& r is Some <==> up(rec.p_btc) || up(rec.p_usd) || up(rec.p_gold) || up(rec.p_oil)
            &&& r matches Some(d) ==> {
                &&& d.ok_crypto == up(rec.p_btc)
                &&& d.ok_usd_brl == up(rec.p_usd)
                &&& d.ok_gold == up(rec.p_gold)
                &&& d.ok_oil == up(rec.p_oil)
                &&& d.ok_weather == (rec.w_temp is Some && rec.w_code is Some)
                &&& d.ok_crypto ==> d.price_btc == rec.p_btc->0 && d.price_sol == number_or_zero(
                    rec.p_sol,
                ) && d.chg_btc_pct == number_or_zero(rec.c_btc) && d.chg_sol_pct == number_or_zero(
                    rec.c_sol,
                )
                &&& d.ok_usd_brl ==> d.price_usd_brl == rec.p_usd->0 && d.chg_usd_brl_pct
                    == number_or_zero(rec.c_usd)
                &&& d.ok_gold ==> d.price_gold == rec.p_gold->0 && d.chg_gold_pct == number_or_zero(
                    rec.c_gold,
                )
                &&& d.ok_oil ==> d.price_oil == rec.p_oil->0 && d.chg_oil_pct == number_or_zero(
                    rec.c_oil,
                )
                &&& d.ok_weather ==> d.weather_temp == rec.w_temp && d.weather_code == rec.w_code
            }
        }),
{
}

/// No two values are kept under the same name.
pub proof fn law_cache_keys_differ(
    a: cache::CacheKey,
    b: cache::CacheKey,
    name_a: &'static str,
    name_b: &'static str,
)
    requires
        call_ensures(cache::CacheKey::name, (a,), name_a),
        call_ensures(cache::CacheKey::name, (b,), name_b),
        name_a@ == name_b@,
    ensures
        a == b,
{
    reveal_strlit("p_btc");
    reveal_strlit("p_sol");
    reveal_strlit("c_btc");
    reveal_strlit("c_sol");
    reveal_strlit("p_usd");
    reveal_strlit("c_usd");
    reveal_strlit("p_gold");
    reveal_strlit("c_gold");
    reveal_strlit("p_oil");
    reveal_strlit("c_oil");
    reveal_strlit("w_temp");
    reveal_strlit("w_code");
    let w = |s: Seq<char>| (s.len(), s[0], s[2]);
    assert(w("p_btc"@) == (5nat, 'p', 'b') && w("p_sol"@) == (5nat, 'p', 's'));
    assert(w("c_btc"@) == (5nat, 'c', 'b') && w("c_sol"@) == (5nat, 'c', 's'));
    assert(w("p_usd"@) == (5nat, 'p', 'u') && w("c_usd"@) == (5nat, 'c', 'u'));
    assert(w("p_gold"@) == (6nat, 'p', 'g') && w("c_gold"@) == (6nat, 'c', 'g'));
    assert(w("p_oil"@) == (5nat, 'p', 'o') && w("c_oil"@) == (5nat, 'c', 'o'));
    assert(w("w_temp"@) == (6nat, 'w', 't') && w("w_code"@) == (6nat, 'w', 'c'));
}

} // verus!
