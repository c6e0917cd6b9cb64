//! Flash-backed price cache.
//!
//! Keeps the last known market prices so that the ticker shows real data immediately on boot
//! rather than dashes until the first fetch completes.
//!
//! Only fields guarded by an ok_* flag are written, so a partial fetch result never overwrites the
//! cached value for a market that failed.

use vstd::prelude::*;

use crate::api;
use crate::api::MarketData;
use crate::double::Double;

verus! {

/// Name of the cache's namespace in flash.
pub const NS: &'static str = "fin";

/// What is kept, and under which key.
#[derive(Clone, Copy, PartialEq, Eq, Structural, Debug)]
pub enum CacheKey {
    PriceBtc,
    PriceSol,
    ChangeBtc,
    ChangeSol,
    PriceUsd,
    ChangeUsd,
    PriceGold,
    ChangeGold,
    PriceOil,
    ChangeOil,
    WeatherTemp,
    WeatherCode,
}

/// A value on its way to flash. The weather code is stored as a real number as well.
#[derive(Clone, Copy, PartialEq, Eq, Structural, Debug)]
pub enum CacheValue {
    Real(Double),
    Whole(i32),
}

pub open spec fn key_name(k: CacheKey) -> Seq<char> {
    match k {
        CacheKey::PriceBtc => "p_btc"@,
        CacheKey::PriceSol => "p_sol"@,
        CacheKey::ChangeBtc => "c_btc"@,
        CacheKey::ChangeSol => "c_sol"@,
        CacheKey::PriceUsd => "p_usd"@,
        CacheKey::ChangeUsd => "c_usd"@,
        CacheKey::PriceGold => "p_gold"@,
        CacheKey::ChangeGold => "c_gold"@,
        CacheKey::PriceOil => "p_oil"@,
        CacheKey::ChangeOil => "c_oil"@,
        CacheKey::WeatherTemp => "w_temp"@,
        CacheKey::WeatherCode => "w_code"@,
    }
}

impl CacheKey {
    pub fn name(self) -> (r: &'static str)
        ensures
            r@ == key_name(self),
    {
        match self {
            CacheKey::PriceBtc => "p_btc",
            CacheKey::PriceSol => "p_sol",
            CacheKey::ChangeBtc => "c_btc",
            CacheKey::ChangeSol => "c_sol",
            CacheKey::PriceUsd => "p_usd",
            CacheKey::ChangeUsd => "c_usd",
            CacheKey::PriceGold => "p_gold",
            CacheKey::ChangeGold => "c_gold",
            CacheKey::PriceOil => "p_oil",
            CacheKey::ChangeOil => "c_oil",
            CacheKey::WeatherTemp => "w_temp",
            CacheKey::WeatherCode => "w_code",
        }
    }
}

pub open spec fn crypto_writes(d: MarketData) -> Seq<(CacheKey, CacheValue)> {
    if d.ok_crypto {
        seq![
            (CacheKey::PriceBtc, CacheValue::Real(d.price_btc)),
            (CacheKey::PriceSol, CacheValue::Real(d.price_sol)),
            (CacheKey::ChangeBtc, CacheValue::Real(d.chg_btc_pct)),
            (CacheKey::ChangeSol, CacheValue::Real(d.chg_sol_pct)),
        ]
    } else {
        Seq::empty()
    }
}

pub open spec fn usd_writes(d: MarketData) -> Seq<(CacheKey, CacheValue)> {
    if d.ok_usd_brl {
        seq![
            (CacheKey::PriceUsd, CacheValue::Real(d.price_usd_brl)),
            (CacheKey::ChangeUsd, CacheValue::Real(d.chg_usd_brl_pct)),
        ]
    } else {
        Seq::empty()
    }
}

pub open spec fn gold_writes(d: MarketData) -> Seq<(CacheKey, CacheValue)> {
    if d.ok_gold {
        seq![
            (CacheKey::PriceGold, CacheValue::Real(d.price_gold)),
            (CacheKey::ChangeGold, CacheValue::Real(d.chg_gold_pct)),
        ]
    } else {
        Seq::empty()
    }
}

pub open spec fn oil_writes(d: MarketData) -> Seq<(CacheKey, CacheValue)> {
    if d.ok_oil {
        seq![
            (CacheKey::PriceOil, CacheValue::Real(d.price_oil)),
            (CacheKey::ChangeOil, CacheValue::Real(d.chg_oil_pct)),
        ]
    } else {
        Seq::empty()
    }
}

pub open spec fn temp_writes(d: MarketData) -> Seq<(CacheKey, CacheValue)> {
    match d.weather_temp {
        Some(t) if d.ok_weather => seq![(CacheKey::WeatherTemp, CacheValue::Real(t))],
        _ => Seq::empty(),
    }
}

pub open spec fn code_writes(d: MarketData) -> Seq<(CacheKey, CacheValue)> {
    match d.weather_code {
        Some(c) if d.ok_weather => seq![(CacheKey::WeatherCode, CacheValue::Whole(c))],
        _ => Seq::empty(),
    }
}

/// Everything that is written for `d`.
pub open spec fn writes(d: MarketData) -> Seq<(CacheKey, CacheValue)> {
    crypto_writes(d) + usd_writes(d) + gold_writes(d) + oil_writes(d) + temp_writes(d)
        + code_writes(d)
}

/// What to write to flash, in order.
pub fn save(data: &MarketData) -> (r: Vec<(CacheKey, CacheValue)>)
    ensures
        r@ == writes(*data),
{
    let mut out: Vec<(CacheKey, CacheValue)> = Vec::new();
    if data.ok_crypto {
        out.push((CacheKey::PriceBtc, CacheValue::Real(data.price_btc)));
        out.push((CacheKey::PriceSol, CacheValue::Real(data.price_sol)));
        out.push((CacheKey::ChangeBtc, CacheValue::Real(data.chg_btc_pct)));
        out.push((CacheKey::ChangeSol, CacheValue::Real(data.chg_sol_pct)));
    }
    assert(out@ =~= crypto_writes(*data));
    if data.ok_usd_brl {
        out.push((CacheKey::PriceUsd, CacheValue::Real(data.price_usd_brl)));
        out.push((CacheKey::ChangeUsd, CacheValue::Real(data.chg_usd_brl_pct)));
    }
    assert(out@ =~= crypto_writes(*data) + usd_writes(*data));
    if data.ok_gold {
        out.push((CacheKey::PriceGold, CacheValue::Real(data.price_gold)));
        out.push((CacheKey::ChangeGold, CacheValue::Real(data.chg_gold_pct)));
    }
    assert(out@ =~= crypto_writes(*data) + usd_writes(*data) + gold_writes(*data));
    if data.ok_oil {
        out.push((CacheKey::PriceOil, CacheValue::Real(data.price_oil)));
        out.push((CacheKey::ChangeOil, CacheValue::Real(data.chg_oil_pct)));
    }
    assert(out@ =~= crypto_writes(*data) + usd_writes(*data) + gold_writes(*data) + oil_writes(
        *data,
    ));
    if data.ok_weather {
        if let Some(temp) = data.weather_temp {
            out.push((CacheKey::WeatherTemp, CacheValue::Real(temp)));
        }
        assert(out@ =~= crypto_writes(*data) + usd_writes(*data) + gold_writes(*data)
            + oil_writes(*data) + temp_writes(*data));
        if let Some(code) = data.weather_code {
            out.push((CacheKey::WeatherCode, CacheValue::Whole(code)));
        }
    }
    assert(out@ =~= writes(*data));
    out
}

/// What flash holds, key by key; `None` where a key was never written or could not be read.
#[derive(Clone, Copy, PartialEq, Eq, Debug)]
pub struct CacheRecord {
    pub p_btc: Option<Double>,
    pub p_sol: Option<Double>,
    pub c_btc: Option<Double>,
    pub c_sol: Option<Double>,
    pub p_usd: Option<Double>,
    pub c_usd: Option<Double>,
    pub p_gold: Option<Double>,
    pub c_gold: Option<Double>,
    pub p_oil: Option<Double>,
    pub c_oil: Option<Double>,
    pub w_temp: Option<Double>,
    pub w_code: Option<i32>,
}

pub open spec fn positive(v: Option<Double>) -> bool {
    v is Some && v->0.above_zero()
}

/// The market data that a record stands for. A market counts where its price is above zero; what
/// is missing beside it is zero. Weather counts where temperature and code are both there.
pub open spec fn restored(r: CacheRecord) -> MarketData {
    let a = if positive(r.p_btc) {
        MarketData {
            price_btc: r.p_btc->0,
            price_sol: api::or_zero(r.p_sol),
            chg_btc_pct: api::or_zero(r.c_btc),
            chg_sol_pct: api::or_zero(r.c_sol),
            ok_crypto: true,
            ..api::no_data()
        }
    } else {
        api::no_data()
    };
    let b = if positive(r.p_usd) {
        MarketData {
            price_usd_brl: r.p_usd->0,
            chg_usd_brl_pct: api::or_zero(r.c_usd),
            ok_usd_brl: true,
            ..a
        }
    } else {
        a
    };
    let c = if positive(r.p_gold) {
        MarketData {
            price_gold: r.p_gold->0,
            chg_gold_pct: api::or_zero(r.c_gold),
            ok_gold: true,
            has_chg_gold: true,
            ..b
        }
    } else {
        b
    };
    let d = if positive(r.p_oil) {
        MarketData {
            price_oil: r.p_oil->0,
            chg_oil_pct: api::or_zero(r.c_oil),
            ok_oil: true,
            has_chg_oil: true,
            ..c
        }
    } else {
        c
    };
    if r.w_temp is Some && r.w_code is Some {
        MarketData { weather_temp: r.w_temp, weather_code: r.w_code, ok_weather: true, ..d }
    } else {
        d
    }
}

/// Some market is in the record. Weather alone does not make a record worth loading.
pub open spec fn any_market(r: CacheRecord) -> bool {
    positive(r.p_btc) || positive(r.p_usd) || positive(r.p_gold) || positive(r.p_oil)
}

fn is_positive(v: Option<Double>) -> (r: bool)
    ensures
        r == positive(v),
{
    match v {
        Some(d) => d.is_positive(),
        None => false,
    }
}

/// The cached market data, if there is any.
pub fn load(rec: &CacheRecord) -> (r: Option<MarketData>)
    ensures
        r == if any_market(*rec) {
            Some(restored(*rec))
        } else {
            None
        },
{
    let mut data: MarketData = MarketData::default();
    let mut any: bool = false;
    if is_positive(rec.p_btc) {
        data.price_btc = api::value_or_zero(rec.p_btc);
        data.price_sol = api::value_or_zero(rec.p_sol);
        data.chg_btc_pct = api::value_or_zero(rec.c_btc);
        data.chg_sol_pct = api::value_or_zero(rec.c_sol);
        data.ok_crypto = true;
        any = true;
    }
    if is_positive(rec.p_usd) {
        data.price_usd_brl = api::value_or_zero(rec.p_usd);
        data.chg_usd_brl_pct = api::value_or_zero(rec.c_usd);
        data.ok_usd_brl = true;
        any = true;
    }
    if is_positive(rec.p_gold) {
        data.price_gold = api::value_or_zero(rec.p_gold);
        data.chg_gold_pct = api::value_or_zero(rec.c_gold);
        data.ok_gold = true;
        data.has_chg_gold = true;
        any = true;
    }
    if is_positive(rec.p_oil) {
        data.price_oil = api::value_or_zero(rec.p_oil);
        data.chg_oil_pct = api::value_or_zero(rec.c_oil);
        data.ok_oil = true;
        data.has_chg_oil = true;
        any = true;
    }
    if let (Some(temp), Some(code)) = (rec.w_temp, rec.w_code) {
        data.weather_temp = Some(temp);
        data.weather_code = Some(code);
        data.ok_weather = true;
    }
    if any {
        Some(data)
    } else {
        None
    }
}

/// A real number as it lies in flash: its 8 bytes, least significant first.
pub fn encode(v: Double) -> (r: Vec<u8>)
    ensures
        r@ == vstd::bytes::spec_u64_to_le_bytes(v.bits),
        r@.len() == 8,
{
    proof {
        vstd::bytes::lemma_auto_spec_u64_to_from_le_bytes();
    }
    vstd::bytes::u64_to_le_bytes(v.bits)
}

/// The number that a blob stands for. Only a blob of 8 bytes does.
pub open spec fn decoded(blob: Seq<u8>) -> Option<Double> {
    if blob.len() == 8 {
        Some(Double { bits: vstd::bytes::spec_u64_from_le_bytes(blob) })
    } else {
        None
    }
}

pub fn decode(blob: &[u8]) -> (r: Option<Double>)
    ensures
        r == decoded(blob@),
{
    if blob.len() == 8 {
        Some(Double { bits: vstd::bytes::u64_from_le_bytes(blob) })
    } else {
        None
    }
}

/// What is read from flash is what was written.
pub proof fn law_decode_undoes_encode(v: Double)
    ensures
        decoded(vstd::bytes::spec_u64_to_le_bytes(v.bits)) == Some(v),
{
    vstd::bytes::lemma_auto_spec_u64_to_from_le_bytes();
}

/// A record after one write.
pub open spec fn put(r: CacheRecord, w: (CacheKey, CacheValue)) -> CacheRecord {
    match w {
        (CacheKey::PriceBtc, CacheValue::Real(v)) => CacheRecord { p_btc: Some(v), ..r },
        (CacheKey::PriceSol, CacheValue::Real(v)) => CacheRecord { p_sol: Some(v), ..r },
        (CacheKey::ChangeBtc, CacheValue::Real(v)) => CacheRecord { c_btc: Some(v), ..r },
        (CacheKey::ChangeSol, CacheValue::Real(v)) => CacheRecord { c_sol: Some(v), ..r },
        (CacheKey::PriceUsd, CacheValue::Real(v)) => CacheRecord { p_usd: Some(v), ..r },
        (CacheKey::ChangeUsd, CacheValue::Real(v)) => CacheRecord { c_usd: Some(v), ..r },
        (CacheKey::PriceGold, CacheValue::Real(v)) => CacheRecord { p_gold: Some(v), ..r },
        (CacheKey::ChangeGold, CacheValue::Real(v)) => CacheRecord { c_gold: Some(v), ..r },
        (CacheKey::PriceOil, CacheValue::Real(v)) => CacheRecord { p_oil: Some(v), ..r },
        (CacheKey::ChangeOil, CacheValue::Real(v)) => CacheRecord { c_oil: Some(v), ..r },
        (CacheKey::WeatherTemp, CacheValue::Real(v)) => CacheRecord { w_temp: Some(v), ..r },
        (CacheKey::WeatherCode, CacheValue::Whole(v)) => CacheRecord { w_code: Some(v), ..r },
        _ => r,
    }
}

/// A record after a run of writes.
pub open spec fn put_all(r: CacheRecord, w: Seq<(CacheKey, CacheValue)>) -> CacheRecord
    decreases w.len(),
{
    if w.len() == 0 {
        r
    } else {
        put(put_all(r, w.drop_last()), w.last())
    }
}

proof fn lemma_put_concat(
    r: CacheRecord,
    a: Seq<(CacheKey, CacheValue)>,
    b: Seq<(CacheKey, CacheValue)>,
)
    ensures
        put_all(r, a + b) == put_all(put_all(r, a), b),
    decreases b.len(),
{
    if b.len() == 0 {
        assert(a + b =~= a);
    } else {
        lemma_put_concat(r, a, b.drop_last());
        assert((a + b).drop_last() =~= a + b.drop_last());
    }
}

/// A record after everything of `d` was written.
pub open spec fn recorded(r: CacheRecord, d: MarketData) -> CacheRecord {
    put_all(r, writes(d))
}

proof fn lemma_crypto_put(r: CacheRecord, d: MarketData)
    ensures
        put_all(r, crypto_writes(d)) == if d.ok_crypto {
            CacheRecord {
                p_btc: Some(d.price_btc),
                p_sol: Some(d.price_sol),
                c_btc: Some(d.chg_btc_pct),
                c_sol: Some(d.chg_sol_pct),
                ..r
            }
        } else {
            r
        },
{
    reveal_with_fuel(put_all, 5);
    let a = crypto_writes(d);
    if d.ok_crypto {
        assert(a.drop_last() =~= a.take(3));
        assert(a.take(3).drop_last() =~= a.take(2));
        assert(a.take(2).drop_last() =~= a.take(1));
        assert(a.take(1).drop_last() =~= Seq::empty());
    }
}

proof fn lemma_two_put(
    r: CacheRecord,
    a: (CacheKey, CacheValue),
    b: (CacheKey, CacheValue),
)
    ensures
        put_all(r, seq![a, b]) == put(put(r, a), b),
{
    reveal_with_fuel(put_all, 3);
    assert(seq![a, b].drop_last() =~= seq![a]);
    assert(seq![a].drop_last() =~= Seq::empty());
}

proof fn lemma_pairs_put(r: CacheRecord, d: MarketData)
    ensures
        put_all(r, usd_writes(d)) == if d.ok_usd_brl {
            CacheRecord { p_usd: Some(d.price_usd_brl), c_usd: Some(d.chg_usd_brl_pct), ..r }
        } else {
            r
        },
        put_all(r, gold_writes(d)) == if d.ok_gold {
            CacheRecord { p_gold: Some(d.price_gold), c_gold: Some(d.chg_gold_pct), ..r }
        } else {
            r
        },
        put_all(r, oil_writes(d)) == if d.ok_oil {
            CacheRecord { p_oil: Some(d.price_oil), c_oil: Some(d.chg_oil_pct), ..r }
        } else {
            r
        },
{
    lemma_two_put(
        r,
        (CacheKey::PriceUsd, CacheValue::Real(d.price_usd_brl)),
        (CacheKey::ChangeUsd, CacheValue::Real(d.chg_usd_brl_pct)),
    );
    lemma_two_put(
        r,
        (CacheKey::PriceGold, CacheValue::Real(d.price_gold)),
        (CacheKey::ChangeGold, CacheValue::Real(d.chg_gold_pct)),
    );
    lemma_two_put(
        r,
        (CacheKey::PriceOil, CacheValue::Real(d.price_oil)),
        (CacheKey::ChangeOil, CacheValue::Real(d.chg_oil_pct)),
    );
}

proof fn lemma_weather_put(r: CacheRecord, d: MarketData)
    ensures
        put_all(r, temp_writes(d)) == if d.ok_weather && d.weather_temp is Some {
            CacheRecord { w_temp: d.weather_temp, ..r }
        } else {
            r
        },
        put_all(r, code_writes(d)) == if d.ok_weather && d.weather_code is Some {
            CacheRecord { w_code: d.weather_code, ..r }
        } else {
            r
        },
{
    reveal_with_fuel(put_all, 2);
    if temp_writes(d).len() > 0 {
        assert(temp_writes(d).drop_last() =~= Seq::empty());
    }
    if code_writes(d).len() > 0 {
        assert(code_writes(d).drop_last() =~= Seq::empty());
    }
}

/// Saving touches only the markets that are good: the record keeps what it had of the others.
pub proof fn law_save_guards_groups(r: CacheRecord, d: MarketData)
    ensures
        recorded(r, d).p_btc == if d.ok_crypto {
            Some(d.price_btc)
        } else {
            r.p_btc
        },
        recorded(r, d).p_sol == if d.ok_crypto {
            Some(d.price_sol)
        } else {
            r.p_sol
        },
        recorded(r, d).c_btc == if d.ok_crypto {
            Some(d.chg_btc_pct)
        } else {
            r.c_btc
        },
        recorded(r, d).c_sol == if d.ok_crypto {
            Some(d.chg_sol_pct)
        } else {
            r.c_sol
        },
        recorded(r, d).p_usd == if d.ok_usd_brl {
            Some(d.price_usd_brl)
        } else {
            r.p_usd
        },
        recorded(r, d).c_usd == if d.ok_usd_brl {
            Some(d.chg_usd_brl_pct)
        } else {
            r.c_usd
        },
        recorded(r, d).p_gold == if d.ok_gold {
            Some(d.price_gold)
        } else {
            r.p_gold
        },
        recorded(r, d).c_gold == if d.ok_gold {
            Some(d.chg_gold_pct)
        } else {
            r.c_gold
        },
        recorded(r, d).p_oil == if d.ok_oil {
            Some(d.price_oil)
        } else {
            r.p_oil
        },
        recorded(r, d).c_oil == if d.ok_oil {
            Some(d.chg_oil_pct)
        } else {
            r.c_oil
        },
        recorded(r, d).w_temp == if d.ok_weather && d.weather_temp is Some {
            d.weather_temp
        } else {
            r.w_temp
        },
        recorded(r, d).w_code == if d.ok_weather && d.weather_code is Some {
            d.weather_code
        } else {
            r.w_code
        },
{
    let a = crypto_writes(d);
    let b = usd_writes(d);
    let c = gold_writes(d);
    let e = oil_writes(d);
    let f = temp_writes(d);
    let g = code_writes(d);
    lemma_put_concat(r, a + b + c + e + f, g);
    lemma_put_concat(r, a + b + c + e, f);
    lemma_put_concat(r, a + b + c, e);
    lemma_put_concat(r, a + b, c);
    lemma_put_concat(r, a, b);
    lemma_crypto_put(r, d);
    let r1 = put_all(r, a);
    lemma_pairs_put(r1, d);
    let r2 = put_all(r1, b);
    lemma_pairs_put(r2, d);
    let r3 = put_all(r2, c);
    lemma_pairs_put(r3, d);
    let r4 = put_all(r3, e);
    lemma_weather_put(r4, d);
    lemma_weather_put(put_all(r4, f), d);
}

/// What was saved of a market with a price above zero is what is loaded, whatever was in flash
/// before; gold and oil come back as having a change. So it is of weather with both its values.
pub proof fn law_load_returns_saved(r: CacheRecord, d: MarketData)
    ensures
        d.ok_crypto && d.price_btc.above_zero() ==> {
            let l = restored(recorded(r, d));
            &&& any_market(recorded(r, d))
            &&& l.ok_crypto
            &&& l.price_btc == d.price_btc
            &&& l.price_sol == d.price_sol
            &&& l.chg_btc_pct == d.chg_btc_pct
            &&& l.chg_sol_pct == d.chg_sol_pct
        },
        d.ok_usd_brl && d.price_usd_brl.above_zero() ==> {
            let l = restored(recorded(r, d));
            &&& any_market(recorded(r, d))
            &&& l.ok_usd_brl
            &&& l.price_usd_brl == d.price_usd_brl
            &&& l.chg_usd_brl_pct == d.chg_usd_brl_pct
        },
        d.ok_gold && d.price_gold.above_zero() ==> {
            let l = restored(recorded(r, d));
            &&& any_market(recorded(r, d))
            &&& l.ok_gold && l.has_chg_gold
            &&& l.price_gold == d.price_gold
            &&& l.chg_gold_pct == d.chg_gold_pct
        },
        d.ok_oil && d.price_oil.above_zero() ==> {
            let l = restored(recorded(r, d));
            &&& any_market(recorded(r, d))
            &&& l.ok_oil && l.has_chg_oil
            &&& l.price_oil == d.price_oil
            &&& l.chg_oil_pct == d.chg_oil_pct
        },
        d.ok_weather && d.weather_temp is Some && d.weather_code is Some ==> {
            let l = restored(recorded(r, d));
            &&& l.ok_weather
            &&& l.weather_temp == d.weather_temp
            &&& l.weather_code == d.weather_code
        },
{
    law_save_guards_groups(r, d);
}

} // verus!
