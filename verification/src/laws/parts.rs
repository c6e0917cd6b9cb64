//! Clocks, numbers, addresses, and the texts that others send.

use vstd::prelude::*;

use crate::api;
use crate::api::{FetchWorker, MarketData};
use crate::cache;
use crate::cache::{CacheKey, CacheValue};
use crate::clock;
use crate::config;
use crate::double::Double;
use crate::json::Document;
use crate::laws::page;
use crate::screen::UiState;
use crate::text;
use crate::tuya;
use crate::tuya::LampState;
use crate::web;
use crate::web::HeaderLine;

verus! {

// ── Time ──────────────────────────────────────────────────────────────────────
/// Both clocks count whole milliseconds; the short one is the long one in 32 bits.
pub proof fn law_clocks_agree(us: i64, short: u32, long: u64)
    requires
        us >= 0,
        call_ensures(clock::now_ms, (us,), short),
        call_ensures(clock::millis, (us,), long),
    ensures
        1000 * long <= us < 1000 * long + 1000,
        short == long % 0x1_0000_0000,
{
}

/// What was put off by some milliseconds is that far away, also where the clock starts over, and is
/// ahead for half the clock's range.
pub proof fn law_times_apart(now: u32, ms: u32, t: u32, apart: u32, ahead: bool)
    requires
        call_ensures(clock::ms_later, (now, ms), t),
        call_ensures(clock::ms_since, (t, now), apart),
        call_ensures(clock::is_ahead, (now, t), ahead),
    ensures
        apart == ms,
        now + ms < 0x1_0000_0000 ==> t == now + ms,
        ahead <==> 0 < ms <= 0x8000_0000,
{
}

// ── Doubles ───────────────────────────────────────────────────────────────────
/// Held against zero, a number is above, below, or zero of either sign; what is not a number is
/// neither. Turning the sign swaps above and below. Of two numbers of one sign the smaller pattern is
/// the one nearer to zero, so all up to a positive number are positive or zero.
pub proof fn law_zero_divides(
    a: Double,
    turned: Double,
    nearer: Double,
    above: bool,
    at_least: bool,
    at_most: bool,
    turned_at_least: bool,
    turned_at_most: bool,
    nearer_above: bool,
    zero: Double,
)
    requires
        a.bits < 0x8000_0000_0000_0000 ==> turned.bits == a.bits + 0x8000_0000_0000_0000,
        a.bits >= 0x8000_0000_0000_0000 ==> turned.bits == a.bits - 0x8000_0000_0000_0000,
        0 < nearer.bits <= a.bits,
        call_ensures(Double::is_positive, (a,), above),
        call_ensures(Double::at_least_zero, (a,), at_least),
        call_ensures(Double::at_most_zero, (a,), at_most),
        call_ensures(Double::at_least_zero, (turned,), turned_at_least),
        call_ensures(Double::at_most_zero, (turned,), turned_at_most),
        call_ensures(Double::is_positive, (nearer,), nearer_above),
        call_ensures(Double::zero, (), zero),
    ensures
        above <==> at_least && !at_most,
        at_least == turned_at_most && at_most == turned_at_least,
        at_least && at_most <==> a.bits % 0x8000_0000_0000_0000 == 0,
        !at_least && !at_most <==> a.bits % 0x8000_0000_0000_0000 > 0x7FF0_0000_0000_0000,
        above ==> nearer_above && a.bits < 0x8000_0000_0000_0000,
        zero.bits == 0,
{
}

// ── Numbers ───────────────────────────────────────────────────────────────────
/// A text is a number where it is one or more digits, with a sign before them or not, that fit in 32
/// bits; a further digit makes it ten times as large and that digit more.
pub proof fn law_numbers_are_digits(
    s: &[char],
    r: Option<i32>,
    longer: &[char],
    d: char,
    l: Option<i32>,
    i: int,
)
    requires
        call_ensures(text::read_number, (s,), r),
        longer@ == s@.push(d),
        call_ensures(text::read_number, (longer,), l),
    ensures
        r is Some && 0 <= i < s@.len() ==> '0' <= s@[i] <= '9' || (i == 0 && s@.len() > 1 && (s@[0]
            == '-' || s@[0] == '+')),
        s@.len() == 0 ==> r is None,
        s@.len() == 0 && '0' <= d <= '9' ==> l == Some((d as int - 48) as i32),
        r is Some && !('0' <= d <= '9') ==> l is None,
        r is Some && '0' <= d <= '9' && s@[0] != '-' ==> l == (if 10 * r->0 + (d as int - 48)
            <= i32::MAX {
            Some((10 * r->0 + (d as int - 48)) as i32)
        } else {
            None
        }),
        r is Some && '0' <= d <= '9' && s@[0] == '-' ==> l == (if 10 * r->0 - (d as int - 48)
            >= i32::MIN {
            Some((10 * r->0 - (d as int - 48)) as i32)
        } else {
            None
        }),
{
    let m = text::magnitude(s@);
    let n = text::magnitude(longer@);
    if s@.len() == 0 {
        if '0' <= d <= '9' {
            assert(n =~= seq![d]);
            assert(n.drop_last() =~= Seq::<char>::empty());
            assert(text::digits_value(n.drop_last()) == 0);
        }
    } else {
        assert(longer@[0] == s@[0]);
        if s@[0] == '-' || s@[0] == '+' {
            assert(n =~= m.push(d));
        } else {
            assert(n =~= m.push(d));
        }
        assert(n.drop_last() =~= m);
        assert(n.last() == d);
        assert(n[n.len() - 1] == d);
        if r is Some {
            lemma_digits_positive(m);
            if 0 <= i < s@.len() {
                if s@[0] == '-' || s@[0] == '+' {
                    if i > 0 {
                        assert(m[i - 1] == s@[i]);
                    }
                } else {
                    assert(m[i] == s@[i]);
                }
            }
            if '0' <= d <= '9' {
                assert forall|k: int| 0 <= k < n.len() implies '0' <= #[trigger] n[k] <= '9' by {
                    if k < m.len() {
                        assert(n[k] == m[k]);
                    }
                }
            }
        }
    }
}

proof fn lemma_digits_positive(m: Seq<char>)
    requires
        text::all_digits(m),
    ensures
        text::digits_value(m) >= 0,
    decreases m.len(),
{
    if m.len() > 0 {
        let d = m.drop_last();
        assert forall|k: int| 0 <= k < d.len() implies '0' <= #[trigger] d[k] <= '9' by {
            assert('0' <= m[k] <= '9');
        }
        lemma_digits_positive(d);
        assert('0' <= m[m.len() - 1] <= '9');
    }
}

/// Trimming takes white space off the ends, all of it, and nothing else.
pub proof fn law_trimmed(s: &[char], r: &[char])
    requires
        call_ensures(text::trim, (s,), r),
    ensures
        exists|a: int, b: int|
            #![trigger s@.subrange(a, b)]
            0 <= a <= b <= s@.len() && r@ == s@.subrange(a, b) && (forall|i: int|
                0 <= i < a || b <= i < s@.len() ==> text::white(#[trigger] s@[i])),
        r@.len() > 0 ==> !text::white(r@[0]) && !text::white(r@.last()),
{
    let t = text::trimmed_start(s@);
    lemma_start_gone(s@);
    lemma_end_gone(t);
    let a = s@.len() - t.len();
    let b = a + r@.len();
    assert(r@ =~= s@.subrange(a, b));
    assert forall|i: int| 0 <= i < a || b <= i < s@.len() implies text::white(#[trigger] s@[i]) by {
        if i >= b {
            assert(t[i - a] == s@[i]);
        }
    }
}

proof fn lemma_start_gone(s: Seq<char>)
    ensures
        text::trimmed_start(s).len() <= s.len(),
        text::trimmed_start(s) == s.skip(s.len() - text::trimmed_start(s).len()),
        forall|i: int|
            0 <= i < s.len() - text::trimmed_start(s).len() ==> text::white(#[trigger] s[i]),
        text::trimmed_start(s).len() > 0 ==> !text::white(text::trimmed_start(s)[0]),
    decreases s.len(),
{
    let t = text::trimmed_start(s);
    if s.len() > 0 && text::white(s[0]) {
        let u = s.skip(1);
        lemma_start_gone(u);
        assert(s.skip(s.len() - t.len()) =~= u.skip(u.len() - t.len()));
        assert forall|i: int| 0 <= i < s.len() - t.len() implies text::white(#[trigger] s[i]) by {
            if i > 0 {
                assert(u[i - 1] == s[i]);
            }
        }
    } else {
        assert(s.skip(0) =~= s);
    }
}

proof fn lemma_end_gone(s: Seq<char>)
    ensures
        text::trimmed_end(s).len() <= s.len(),
        text::trimmed_end(s) == s.take(text::trimmed_end(s).len() as int),
        forall|i: int| text::trimmed_end(s).len() <= i < s.len() ==> text::white(#[trigger] s[i]),
        text::trimmed_end(s).len() > 0 ==> !text::white(text::trimmed_end(s).last()),
    decreases s.len(),
{
    let t = text::trimmed_end(s);
    if s.len() > 0 && text::white(s.last()) {
        let u = s.drop_last();
        lemma_end_gone(u);
        assert(s.take(t.len() as int) =~= u.take(t.len() as int));
        assert forall|i: int| t.len() <= i < s.len() implies text::white(#[trigger] s[i]) by {
            if i < u.len() {
                assert(u[i] == s[i]);
            }
        }
    } else {
        assert(s.take(s.len() as int) =~= s);
    }
}

/// What was split at a separator is the same text with the separators taken out: one piece more than
/// there are separators, none in a piece.
pub proof fn law_split(
    a: &[char],
    b: &[char],
    whole: &[char],
    sep: char,
    p: Vec<Vec<char>>,
    q: Vec<Vec<char>>,
    r: Vec<Vec<char>>,
    i: int,
)
    requires
        !a@.contains(sep),
        whole@ == a@.push(sep) + b@,
        call_ensures(text::split_chars, (a, sep), p),
        call_ensures(text::split_chars, (b, sep), q),
        call_ensures(text::split_chars, (whole, sep), r),
    ensures
        p@.len() == 1 && p@[0]@ == a@,
        r@.len() == q@.len() + 1,
        r@[0]@ == a@,
        0 <= i < q@.len() ==> r@[i + 1]@ == q@[i]@,
{
    page::lemma_split_whole(a@, sep);
    page::lemma_split_concat(a@, b@, sep);
    let f = text::split_on(whole@, sep);
    assert(f == seq![a@] + text::split_on(b@, sep));
    assert(r@[0]@ == f[0]);
    if 0 <= i < q@.len() {
        assert(r@[i + 1]@ == f[i + 1]);
        assert(q@[i]@ == text::split_on(b@, sep)[i]);
    }
}

// ── Addresses ─────────────────────────────────────────────────────────────────
/// The digits of a number, as bytes.
pub open spec fn digits(n: nat) -> Seq<u8> {
    Seq::new(text::decimal(n).len(), |i: int| text::decimal(n)[i] as u8)
}

proof fn lemma_digits(n: nat)
    ensures
        config::octet_value(digits(n)) == n,
        !digits(n).contains(46u8),
        forall|i: int| 0 <= i < digits(n).len() ==> #[trigger] digits(n)[i] >= 48,
    decreases n,
{
    let d = digits(n);
    text::lemma_decimal_digits(n);
    assert forall|i: int| 0 <= i < d.len() implies #[trigger] d[i] >= 48 by {
        let c = text::decimal(n)[i];
        assert('0' <= c <= '9');
    }
    if n < 10 {
        assert(d.len() == 1);
        assert(d.drop_last() =~= Seq::<u8>::empty());
        assert(config::octet_value(d.drop_last()) == 0);
        assert(d.last() == 48 + n);
    } else {
        lemma_digits(n / 10);
        assert(d.drop_last() =~= digits(n / 10));
        assert(d.last() == 48 + n % 10);
    }
}

/// An address of four numbers with dots between them is read as these four numbers.
pub proof fn law_address_is_read(b: &[u8], n: Seq<u8>, ip: [u8; 4], laptop: [u8; 4])
    requires
        n.len() == 4,
        b@ == digits(n[0] as nat).push(46u8) + (digits(n[1] as nat).push(46u8) + (digits(
            n[2] as nat,
        ).push(46u8) + digits(n[3] as nat))),
        call_ensures(config::ip_from_env, (b,), ip),
        call_ensures(config::laptop_ip_from_env, (b,), laptop),
    ensures
        call_requires(config::ip_from_env, (b,)),
        ip@ == n,
        laptop@ == n,
{
    let d0 = digits(n[0] as nat);
    let d1 = digits(n[1] as nat);
    let d2 = digits(n[2] as nat);
    let d3 = digits(n[3] as nat);
    lemma_digits(n[0] as nat);
    lemma_digits(n[1] as nat);
    lemma_digits(n[2] as nat);
    lemma_digits(n[3] as nat);
    lemma_dotted(b@, d0, d1, d2, d3);
    let f = text::split_on(b@, 46u8);
    assert(f[0] == d0 && f[1] == d1 && f[2] == d2 && f[3] == d3);
    assert(config::readable_ip(b@));
    assert(config::ip_of(b@) =~= n);
}

pub open spec fn plain_field(s: Seq<u8>) -> bool {
    forall|i: int| 0 <= i < s.len() ==> #[trigger] s[i] >= 48
}

proof fn lemma_plain_joined(a: Seq<u8>, b: Seq<u8>)
    requires
        plain_field(a),
        forall|i: int| 0 <= i < b.len() ==> #[trigger] b[i] == 46 || b[i] >= 48,
    ensures
        forall|i: int|
            0 <= i < (a.push(46u8) + b).len() ==> #[trigger] (a.push(46u8) + b)[i] == 46 || (a.push(
                46u8,
            ) + b)[i] >= 48,
{
    let s = a.push(46u8) + b;
    assert forall|i: int| 0 <= i < s.len() implies #[trigger] s[i] == 46 || s[i] >= 48 by {
        if i < a.len() {
            assert(s[i] == a[i]);
        } else if i > a.len() {
            assert(s[i] == b[i - a.len() - 1]);
        }
    }
}

proof fn lemma_dotted(s: Seq<u8>, a: Seq<u8>, b: Seq<u8>, c: Seq<u8>, d: Seq<u8>)
    requires
        plain_field(a) && plain_field(b) && plain_field(c) && plain_field(d),
        s == a.push(46u8) + (b.push(46u8) + (c.push(46u8) + d)),
    ensures
        text::split_on(s, 46u8) == seq![a, b, c, d],
        forall|i: int| 0 <= i < s.len() ==> #[trigger] s[i] == 46 || s[i] >= 48,
{
    let cd = c.push(46u8) + d;
    let bcd = b.push(46u8) + cd;
    lemma_plain_joined(c, d);
    lemma_plain_joined(b, cd);
    lemma_plain_joined(a, bcd);
    page::lemma_split_concat(c, d, 46u8);
    page::lemma_split_concat(b, cd, 46u8);
    page::lemma_split_concat(a, bcd, 46u8);
    page::lemma_split_whole(a, 46u8);
    page::lemma_split_whole(b, 46u8);
    page::lemma_split_whole(c, 46u8);
    page::lemma_split_whole(d, 46u8);
    assert(text::split_on(s, 46u8) =~= seq![a, b, c, d]);
}

// ── What is kept ──────────────────────────────────────────────────────────────
/// Each figure is kept under its own key, and only where its group was fetched.
pub proof fn law_figures_are_kept(
    d: MarketData,
    w: Vec<(CacheKey, CacheValue)>,
    v: Double,
    n: i32,
)
    requires
        call_ensures(cache::save, (&d,), w),
    ensures
        w@.contains((CacheKey::PriceBtc, CacheValue::Real(v))) <==> d.ok_crypto && v == d.price_btc,
        w@.contains((CacheKey::PriceSol, CacheValue::Real(v))) <==> d.ok_crypto && v == d.price_sol,
        w@.contains((CacheKey::ChangeBtc, CacheValue::Real(v))) <==> d.ok_crypto && v == d.chg_btc_pct,
        w@.contains((CacheKey::ChangeSol, CacheValue::Real(v))) <==> d.ok_crypto && v == d.chg_sol_pct,
        w@.contains((CacheKey::PriceUsd, CacheValue::Real(v))) <==> d.ok_usd_brl && v
            == d.price_usd_brl,
        w@.contains((CacheKey::ChangeUsd, CacheValue::Real(v))) <==> d.ok_usd_brl && v
            == d.chg_usd_brl_pct,
        w@.contains((CacheKey::PriceGold, CacheValue::Real(v))) <==> d.ok_gold && v == d.price_gold,
        w@.contains((CacheKey::ChangeGold, CacheValue::Real(v))) <==> d.ok_gold && v == d.chg_gold_pct,
        w@.contains((CacheKey::PriceOil, CacheValue::Real(v))) <==> d.ok_oil && v == d.price_oil,
        w@.contains((CacheKey::ChangeOil, CacheValue::Real(v))) <==> d.ok_oil && v == d.chg_oil_pct,
        w@.contains((CacheKey::WeatherTemp, CacheValue::Real(v))) <==> d.ok_weather && d.weather_temp
            == Some(v),
        w@.contains((CacheKey::WeatherCode, CacheValue::Whole(n))) <==> d.ok_weather && d.weather_code
            == Some(n),
{
    lemma_kept(
        w@,
        cache::crypto_writes(d),
        cache::usd_writes(d),
        cache::gold_writes(d),
        cache::oil_writes(d),
        cache::temp_writes(d),
        cache::code_writes(d),
    );
    if d.ok_crypto {
        lemma_four(
            cache::crypto_writes(d),
            (CacheKey::PriceBtc, CacheValue::Real(d.price_btc)),
            (CacheKey::PriceSol, CacheValue::Real(d.price_sol)),
            (CacheKey::ChangeBtc, CacheValue::Real(d.chg_btc_pct)),
            (CacheKey::ChangeSol, CacheValue::Real(d.chg_sol_pct)),
        );
    }
    if d.ok_usd_brl {
        lemma_two(
            cache::usd_writes(d),
            (CacheKey::PriceUsd, CacheValue::Real(d.price_usd_brl)),
            (CacheKey::ChangeUsd, CacheValue::Real(d.chg_usd_brl_pct)),
        );
    }
    if d.ok_gold {
        lemma_two(
            cache::gold_writes(d),
            (CacheKey::PriceGold, CacheValue::Real(d.price_gold)),
            (CacheKey::ChangeGold, CacheValue::Real(d.chg_gold_pct)),
        );
    }
    if d.ok_oil {
        lemma_two(
            cache::oil_writes(d),
            (CacheKey::PriceOil, CacheValue::Real(d.price_oil)),
            (CacheKey::ChangeOil, CacheValue::Real(d.chg_oil_pct)),
        );
    }
    if d.ok_weather && d.weather_temp is Some {
        lemma_one(
            cache::temp_writes(d),
            (CacheKey::WeatherTemp, CacheValue::Real(d.weather_temp->0)),
        );
    }
    if d.ok_weather && d.weather_code is Some {
        lemma_one(
            cache::code_writes(d),
            (CacheKey::WeatherCode, CacheValue::Whole(d.weather_code->0)),
        );
    }
}

proof fn lemma_one<T>(s: Seq<T>, a: T)
    requires
        s == seq![a],
    ensures
        forall|x: T| #[trigger] s.contains(x) <==> x == a,
{
    assert(s[0] == a);
}

proof fn lemma_two<T>(s: Seq<T>, a: T, b: T)
    requires
        s == seq![a, b],
    ensures
        forall|x: T| #[trigger] s.contains(x) <==> x == a || x == b,
{
    assert(s[0] == a && s[1] == b);
}

proof fn lemma_four<T>(s: Seq<T>, a: T, b: T, c: T, d: T)
    requires
        s == seq![a, b, c, d],
    ensures
        forall|x: T| #[trigger] s.contains(x) <==> x == a || x == b || x == c || x == d,
{
    assert(s[0] == a && s[1] == b && s[2] == c && s[3] == d);
}

/// A list that was put together from six has what one of them has.
proof fn lemma_kept<T>(
    all: Seq<T>,
    a: Seq<T>,
    b: Seq<T>,
    c: Seq<T>,
    d: Seq<T>,
    e: Seq<T>,
    f: Seq<T>,
)
    requires
        all == a + b + c + d + e + f,
    ensures
        forall|x: T| #[trigger]
            all.contains(x) <==> a.contains(x) || b.contains(x) || c.contains(x) || d.contains(x)
                || e.contains(x) || f.contains(x),
{
    lemma_either(a, b);
    lemma_either(a + b, c);
    lemma_either(a + b + c, d);
    lemma_either(a + b + c + d, e);
    lemma_either(a + b + c + d + e, f);
}

proof fn lemma_either<T>(a: Seq<T>, b: Seq<T>)
    ensures
        forall|x: T| #[trigger] (a + b).contains(x) <==> a.contains(x) || b.contains(x),
{
    assert forall|x: T| #[trigger] (a + b).contains(x) <==> a.contains(x) || b.contains(x) by {
        if a.contains(x) {
            let i = choose|i: int| 0 <= i < a.len() && a[i] == x;
            assert((a + b)[i] == x);
        }
        if b.contains(x) {
            let i = choose|i: int| 0 <= i < b.len() && b[i] == x;
            assert((a + b)[a.len() + i] == x);
        }
        if (a + b).contains(x) {
            let i = choose|i: int| 0 <= i < (a + b).len() && (a + b)[i] == x;
            if i < a.len() {
                assert(a[i] == x);
            } else {
                assert(b[i - a.len()] == x);
            }
        }
    }
}

/// A number that was written as bytes is read back; bytes of another length are no number.
pub proof fn law_bytes_come_back(v: Double, w: Vec<u8>, b: &[u8], r: Option<Double>)
    requires
        call_ensures(cache::encode, (v,), w),
        call_ensures(cache::decode, (b,), r),
    ensures
        w@.len() == 8,
        b@ == w@ ==> r == Some(v),
        r is None <==> b@.len() != 8,
{
    vstd::bytes::lemma_auto_spec_u64_to_from_le_bytes();
}

// ── What is waited for ────────────────────────────────────────────────────────
/// A trigger lets the worker go once: it waits again until the next one. A result that lies ready is
/// not touched.
pub proof fn law_trigger_lets_go_once(
    a: &mut FetchWorker,
    b: &mut FetchWorker,
    c: &mut FetchWorker,
    first: bool,
    second: bool,
)
    requires
        call_ensures(FetchWorker::trigger, (a,), ()),
        *old(b) == *final(a),
        call_ensures(FetchWorker::wait_go, (b,), first),
        *old(c) == *final(b),
        call_ensures(FetchWorker::wait_go, (c,), second),
    ensures
        first,
        !second,
        final(c).result == old(a).result,
{
}

/// All markets are there where each of them is: losing one loses that.
pub proof fn law_every_market_counts(d: MarketData, all: bool)
    requires
        call_ensures(MarketData::all_markets_ok, (&d,), all),
    ensures
        all ==> d.ok_crypto && d.ok_usd_brl && d.ok_gold && d.ok_oil,
        !all ==> !d.ok_crypto || !d.ok_usd_brl || !d.ok_gold || !d.ok_oil,
{
}

// ── What is left to the machine ───────────────────────────────────────────────
/// Reports and names want room in memory, two kilobytes and half a kilobyte; the radio is given up
/// with the fifth failure; a knob below ten is silent.
pub proof fn law_limits(
    block: usize,
    report: bool,
    id: bool,
    attempt: u8,
    gives_up: bool,
    level: u32,
    silent: bool,
)
    requires
        call_ensures(api::may_report, (block,), report),
        call_ensures(crate::media::room_for_id, (block,), id),
        call_ensures(crate::panel::wifi_start_gives_up, (attempt,), gives_up),
        call_ensures(crate::volume::is_silent, (level,), silent),
    ensures
        report <==> block >= 2 * 1024,
        id <==> 2 * block >= 1024,
        gives_up <==> attempt > 4,
        silent <==> level <= 9,
{
}

/// The URL of the weather asks for the place and for temperature and code.
pub proof fn law_weather_url(r: String)
    requires
        call_ensures(config::url_weather, (), r),
    ensures
        page::has_part(
            r@,
            "?latitude="@ + "-27.5954"@ + "&longitude="@ + "-48.548"@ + "&"@,
        ),
{
    reveal_strlit("https://api.open-meteo.com/v1/forecast?latitude=");
    reveal_strlit("?latitude=");
    reveal_strlit("&");
    reveal_strlit("&current=temperature_2m,weather_code&timezone=America%2FSao_Paulo");
    let a = "https://api.open-meteo.com/v1/forecast?latitude="@;
    let e = "&current=temperature_2m,weather_code&timezone=America%2FSao_Paulo"@;
    let m = "?latitude="@ + "-27.5954"@ + "&longitude="@ + "-48.548"@ + "&"@;
    let k = a.len() - "?latitude="@.len();
    assert(r@ =~= a.take(k) + m + e.skip(1));
    page::lemma_has_part(a.take(k), m, e.skip(1));
}

// ── The lamp's answers ────────────────────────────────────────────────────────
/// The lamp says whether it is on at point 20, as a truth value or as a number; what it holds besides
/// does not matter. Where it has no such point there, the one under `data` counts. An answer that
/// cannot be read says nothing.
pub proof fn law_lamp_answers(
    reply: &str,
    held: Option<Document>,
    r: Option<bool>,
    near: &[&str],
    far: &[&str],
    there: bool,
    flag: Option<bool>,
    whole: Option<i64>,
    far_flag: Option<bool>,
    far_whole: Option<i64>,
)
    requires
        call_ensures(Document::parse, (reply,), held),
        call_ensures(tuya::parse_dps20, (reply,), r),
        near@.len() == 2 && near@[0]@ == "dps"@ && near@[1]@ == "20"@,
        far@.len() == 3 && far@[0]@ == "data"@ && far@[1]@ == "dps"@ && far@[2]@ == "20"@,
        held matches Some(d) ==> call_ensures(Document::has, (&d, near), there) && call_ensures(
            Document::bool_at,
            (&d, near),
            flag,
        ) && call_ensures(Document::whole_at, (&d, near), whole) && call_ensures(
            Document::bool_at,
            (&d, far),
            far_flag,
        ) && call_ensures(Document::whole_at, (&d, far), far_whole),
    ensures
        held is None ==> r is None,
        held is Some && there && flag is Some ==> r == flag,
        held is Some && there && flag is None && whole is Some ==> r == Some(whole->0 != 0),
        held is Some && there && flag is None && whole is None ==> r is None,
        held is Some && !there && far_flag is Some ==> r == far_flag,
        held is Some && !there && far_flag is None && far_whole is Some ==> r == Some(
            far_whole->0 != 0,
        ),
        held is Some && !there && far_flag is None && far_whole is None ==> r is None,
{
    assert(crate::json::keys(near@) =~= seq!["dps"@, "20"@]);
    assert(crate::json::keys(far@) =~= seq!["data"@, "dps"@, "20"@]);
}

// ── Headers ───────────────────────────────────────────────────────────────────
/// The page marks its requests with a header of its own, which counts in letters of either case and
/// with white space behind it; the same line with anything else in it does not.
pub proof fn law_page_marks_requests(
    line: &str,
    end: Seq<char>,
    body: Seq<char>,
    r: HeaderLine,
)
    requires
        call_ensures(web::header_line, (line,), r),
        line@ == body + end,
        forall|k: int| 0 <= k < end.len() ==> text::white(#[trigger] end[k]),
        body.len() > 0 && !text::white(body.last()),
    ensures
        r == HeaderLine::FromApp <==> body.len() == 11 && forall|k: int|
            0 <= k < 11 ==> (#[trigger] body[k] == "x-finesp: 1"@[k] || ('A' <= body[k] <= 'Z'
                && body[k] as int + 32 == "x-finesp: 1"@[k] as int)),
{
    reveal_strlit("x-finesp: 1");
    lemma_behind_gone(body, end);
    let u = text::trimmed_end(line@);
    assert(u == body);
    let t = Seq::new(u.len(), |i: int| text::lower(u[i]));
    let w = "x-finesp: 1"@;
    assert(w.len() == 11);
    if r == HeaderLine::FromApp {
        assert(t == w);
        assert(t.len() == body.len());
        assert forall|k: int| 0 <= k < 11 implies (#[trigger] body[k] == w[k] || ('A' <= body[k] <= 'Z'
            && body[k] as int + 32 == w[k] as int)) by {
            assert(t[k] == w[k]);
            assert(t[k] == text::lower(body[k]));
            lemma_lower(body[k]);
        }
    } else if body.len() == 11 && forall|k: int|
        0 <= k < 11 ==> (#[trigger] body[k] == w[k] || ('A' <= body[k] <= 'Z' && body[k] as int + 32
            == w[k] as int)) {
        assert forall|k: int| 0 <= k < 11 implies #[trigger] t[k] == w[k] by {
            assert(body[k] == w[k] || ('A' <= body[k] <= 'Z' && body[k] as int + 32 == w[k] as int));
            lemma_lower(body[k]);
            assert(!('A' <= w[k] <= 'Z'));
        }
        assert(t =~= w);
    }
}

proof fn lemma_lower(c: char)
    ensures
        'A' <= c <= 'Z' ==> text::lower(c) as int == c as int + 32,
        !('A' <= c <= 'Z') ==> text::lower(c) == c,
{
}

proof fn lemma_behind_gone(body: Seq<char>, end: Seq<char>)
    requires
        forall|k: int| 0 <= k < end.len() ==> text::white(#[trigger] end[k]),
        body.len() > 0 && !text::white(body.last()),
    ensures
        text::trimmed_end(body + end) == body,
    decreases end.len(),
{
    let s = body + end;
    if end.len() == 0 {
        assert(s =~= body);
    } else {
        let d = end.drop_last();
        assert forall|k: int| 0 <= k < d.len() implies text::white(#[trigger] d[k]) by {
            assert(text::white(end[k]));
        }
        lemma_behind_gone(body, d);
        assert(text::white(end[end.len() - 1]));
        assert(s.drop_last() =~= body + d);
    }
}

// ── At the start ──────────────────────────────────────────────────────────────
/// At the start nothing is known: no prices, no weather, no lamp, no volume; Bitcoin is shown and the
/// knob counts.
pub proof fn law_fresh_state(ui: UiState, data: MarketData, lamp: LampState)
    requires
        call_ensures(UiState::default, (), ui),
        call_ensures(MarketData::default, (), data),
        call_ensures(LampState::default, (), lamp),
    ensures
        ui.screen == crate::config::Screen::Btc,
        ui.data == data && ui.lamp == lamp,
        !lamp.on && !lamp.known,
        !data.ok_crypto && !data.ok_usd_brl && !data.ok_gold && !data.ok_oil && !data.ok_weather,
        !data.has_chg_gold && !data.has_chg_oil,
        data.weather_temp is None && data.weather_code is None,
        data.price_btc.bits == 0 && data.price_sol.bits == 0 && data.price_gold.bits == 0
            && data.price_oil.bits == 0 && data.price_usd_brl.bits == 0,
        !ui.wifi_connected && !ui.fetching,
        ui.loading_frame == 0 && ui.lamp_loading_frame == 0,
        ui.fetch_completed_at == 0 && ui.lamp_anim_until == 0,
        ui.pot_enabled && ui.volume_pct == 255,
{
}

} // verus!
