//! Market data: what the price and weather services answer, and what is kept of it.

use vstd::prelude::*;

use crate::config;
use crate::double::Double;
use crate::json;
use crate::json::Document;
use crate::text;

verus! {

/// Market data collected from all API sources.
#[derive(Clone, Copy, Debug)]
pub struct MarketData {
    pub price_btc: Double,
    pub chg_btc_pct: Double,
    pub price_sol: Double,
    pub chg_sol_pct: Double,
    pub ok_crypto: bool,
    pub price_usd_brl: Double,
    pub chg_usd_brl_pct: Double,
    pub ok_usd_brl: bool,
    pub price_gold: Double,
    pub chg_gold_pct: Double,
    pub has_chg_gold: bool,
    pub ok_gold: bool,
    pub price_oil: Double,
    pub chg_oil_pct: Double,
    pub has_chg_oil: bool,
    pub ok_oil: bool,
    pub weather_temp: Option<Double>,
    pub weather_code: Option<i32>,
    pub ok_weather: bool,
}

/// Market data with nothing known.
pub open spec fn no_data() -> MarketData {
    let zero = Double { bits: 0 };
    MarketData {
        price_btc: zero,
        chg_btc_pct: zero,
        price_sol: zero,
        chg_sol_pct: zero,
        ok_crypto: false,
        price_usd_brl: zero,
        chg_usd_brl_pct: zero,
        ok_usd_brl: false,
        price_gold: zero,
        chg_gold_pct: zero,
        has_chg_gold: false,
        ok_gold: false,
        price_oil: zero,
        chg_oil_pct: zero,
        has_chg_oil: false,
        ok_oil: false,
        weather_temp: None,
        weather_code: None,
        ok_weather: false,
    }
}

impl Default for MarketData {
    fn default() -> (r: Self)
        ensures
            r == no_data(),
    {
        let zero = Double::zero();
        MarketData {
            price_btc: zero,
            chg_btc_pct: zero,
            price_sol: zero,
            chg_sol_pct: zero,
            ok_crypto: false,
            price_usd_brl: zero,
            chg_usd_brl_pct: zero,
            ok_usd_brl: false,
            price_gold: zero,
            chg_gold_pct: zero,
            has_chg_gold: false,
            ok_gold: false,
            price_oil: zero,
            chg_oil_pct: zero,
            has_chg_oil: false,
            ok_oil: false,
            weather_temp: None,
            weather_code: None,
            ok_weather: false,
        }
    }
}

impl MarketData {
    pub fn all_markets_ok(&self) -> (r: bool)
        ensures
            r == (self.ok_crypto && self.ok_usd_brl && self.ok_gold && self.ok_oil),
    {
        self.ok_crypto && self.ok_usd_brl && self.ok_gold && self.ok_oil
    }
}

/// What to do after an HTTP response.
#[derive(Clone, Copy, PartialEq, Eq, Structural, Debug)]
pub enum HttpStep {
    /// Read the body: it is the answer.
    ReadBody,
    /// Wait this many milliseconds, then try again on a fresh connection.
    Again { wait_ms: u64 },
    /// Wait this many milliseconds, then give up.
    GiveUp { wait_ms: u64 },
}

/// Milliseconds to wait where a server is overloaded.
pub const BACK_OFF_MS: u64 = 20_000;

pub open spec fn wait_after(attempt: u32, status: u16, retries: u32) -> int {
    if status == 429 || status == 503 {
        BACK_OFF_MS as int
    } else if attempt + 1 < retries {
        config::HTTP_RETRY_DELAY_MS * (attempt + 1)
    } else {
        0
    }
}

/// What to do when attempt `attempt` (from zero) of at most `retries` got this status.
pub fn after_response(attempt: u32, status: u16, retries: u32) -> (r: HttpStep)
    requires
        attempt < retries,
    ensures
        r == if status == 200 {
            HttpStep::ReadBody
        } else if attempt + 1 < retries {
            HttpStep::Again { wait_ms: wait_after(attempt, status, retries) as u64 }
        } else {
            HttpStep::GiveUp { wait_ms: wait_after(attempt, status, retries) as u64 }
        },
        status != 200 ==> wait_after(attempt, status, retries) <= u64::MAX,
{
    if status == 200 {
        return HttpStep::ReadBody;
    }
    let wait_ms: u64 = if status == 429 || status == 503 {
        BACK_OFF_MS
    } else if attempt + 1 < retries {
        config::HTTP_RETRY_DELAY_MS * (attempt as u64 + 1)
    } else {
        0
    };
    if attempt + 1 < retries {
        HttpStep::Again { wait_ms }
    } else {
        HttpStep::GiveUp { wait_ms }
    }
}

/// Whether memory allows for a report: the largest free block must hold this much.
pub const REPORT_HEAP: usize = 2048;

pub fn may_report(largest_free_block: usize) -> (r: bool)
    ensures
        r == (largest_free_block >= REPORT_HEAP),
{
    largest_free_block >= REPORT_HEAP
}

/// Whether a report was taken.
pub fn reported(status: u16) -> (r: bool)
    ensures
        r == (200 <= status < 300),
{
    200 <= status && status < 300
}

/// The body of an event report.
pub open spec fn event_text(
    event_type: Seq<char>,
    severity: Seq<char>,
    message: Seq<char>,
    metadata: Seq<char>,
) -> Seq<char> {
    "{\"message\":{\"event_type\":"@ + json::quoted(event_type) + ",\"message\":"@
        + json::quoted(message) + ",\"metadata\":"@ + metadata + ",\"severity\":"@
        + json::quoted(severity)
        + ",\"source\":\"fin-esp\"},\"queue\":\"device-events\"}"@
}

/// The body of an event report. `metadata` is a JSON value already.
pub fn event_body(event_type: &str, severity: &str, message: &str, metadata: &str) -> (r: String)
    ensures
        r@ == event_text(event_type@, severity@, message@, metadata@),
{
    let mut out: String = String::new();
    out.append("{\"message\":{\"event_type\":");
    out.append(json::quote(event_type).as_str());
    out.append(",\"message\":");
    out.append(json::quote(message).as_str());
    out.append(",\"metadata\":");
    out.append(metadata);
    out.append(",\"severity\":");
    out.append(json::quote(severity).as_str());
    out.append(",\"source\":\"fin-esp\"},\"queue\":\"device-events\"}");
    out
}

/// The metadata of an event that only names its mechanism.
pub fn mechanism_metadata(mechanism: &str) -> (r: String)
    ensures
        r@ == "{\"mechanism\":"@ + json::quoted(mechanism@) + "}"@,
{
    let mut out: String = String::new();
    out.append("{\"mechanism\":");
    out.append(json::quote(mechanism).as_str());
    out.append("}");
    out
}

pub open spec fn or_zero(v: Option<Double>) -> Double {
    match v {
        Some(d) => d,
        None => Double { bits: 0 },
    }
}

/// The number, or zero where there is none.
pub fn value_or_zero(v: Option<Double>) -> (r: Double)
    ensures
        r == or_zero(v),
{
    match v {
        Some(d) => d,
        None => Double::zero(),
    }
}

/// `data` with the crypto prices of an answer. They are good if either price is above zero.
pub open spec fn with_crypto(
    data: MarketData,
    btc: Option<Double>,
    btc_chg: Option<Double>,
    sol: Option<Double>,
    sol_chg: Option<Double>,
) -> MarketData {
    MarketData {
        price_btc: or_zero(btc),
        chg_btc_pct: or_zero(btc_chg),
        price_sol: or_zero(sol),
        chg_sol_pct: or_zero(sol_chg),
        ok_crypto: or_zero(btc).above_zero() || or_zero(sol).above_zero(),
        ..data
    }
}

/// Takes over the crypto prices of an answer.
pub fn apply_crypto(
    data: &mut MarketData,
    btc: Option<Double>,
    btc_chg: Option<Double>,
    sol: Option<Double>,
    sol_chg: Option<Double>,
)
    ensures
        *final(data) == with_crypto(*old(data), btc, btc_chg, sol, sol_chg),
{
    data.price_btc = value_or_zero(btc);
    data.chg_btc_pct = value_or_zero(btc_chg);
    data.price_sol = value_or_zero(sol);
    data.chg_sol_pct = value_or_zero(sol_chg);
    data.ok_crypto = data.price_btc.is_positive() || data.price_sol.is_positive();
}

pub open spec fn path2(a: Seq<char>, b: Seq<char>) -> Seq<Seq<char>> {
    seq![a, b]
}

/// The number at the end of a path of a document.
pub open spec fn number_at(
    held: Map<Seq<Seq<char>>, json::Node>,
    path: Seq<Seq<char>>,
) -> Option<Double> {
    match json::node_at(held, path) {
        Some(n) => json::node_double(n),
        None => None,
    }
}

/// The whole number at the end of a path of a document.
pub open spec fn whole_at(
    held: Map<Seq<Seq<char>>, json::Node>,
    path: Seq<Seq<char>>,
) -> Option<i64> {
    match json::node_at(held, path) {
        Some(n) => json::node_whole(n),
        None => None,
    }
}

/// The string at the end of a path of a document.
pub open spec fn text_at(
    held: Map<Seq<Seq<char>>, json::Node>,
    path: Seq<Seq<char>>,
) -> Option<Seq<char>> {
    match json::node_at(held, path) {
        Some(n) => json::node_text(n),
        None => None,
    }
}

fn double_under(doc: &Document, a: &str, b: &str) -> (r: Option<Double>)
    ensures
        r == number_at(doc@, path2(a@, b@)),
{
    let path: [&str; 2] = [a, b];
    assert(json::keys(path@) =~= path2(a@, b@));
    doc.double_at(path.as_slice())
}

fn whole_under(doc: &Document, a: &str, b: &str) -> (r: Option<i64>)
    ensures
        r == whole_at(doc@, path2(a@, b@)),
{
    let path: [&str; 2] = [a, b];
    assert(json::keys(path@) =~= path2(a@, b@));
    doc.whole_at(path.as_slice())
}

fn text_under(doc: &Document, a: &str, b: &str) -> (r: Option<String>)
    ensures
        json::text_view(r) == text_at(doc@, path2(a@, b@)),
{
    let path: [&str; 2] = [a, b];
    assert(json::keys(path@) =~= path2(a@, b@));
    doc.text_at(path.as_slice())
}

/// What the answer to a crypto request makes of `data`.
pub open spec fn crypto_answer(data: MarketData, body: Option<Seq<char>>) -> MarketData {
    match body {
        Some(b) => match json::json_parsed(b) {
            Some(held) => with_crypto(
                data,
                number_at(held, path2("bitcoin"@, "usd"@)),
                number_at(held, path2("bitcoin"@, "usd_24h_change"@)),
                number_at(held, path2("solana"@, "usd"@)),
                number_at(held, path2("solana"@, "usd_24h_change"@)),
            ),
            None => data,
        },
        None => data,
    }
}

pub open spec fn body_view(body: Option<&str>) -> Option<Seq<char>> {
    match body {
        Some(b) => Some(b@),
        None => None,
    }
}

/// Takes over the answer to a request for `config::URL_COINGECKO`, if one came and is JSON.
pub fn fetch_crypto(data: &mut MarketData, body: Option<&str>)
    ensures
        *final(data) == crypto_answer(*old(data), body_view(body)),
{
    if let Some(b) = body {
        if let Some(doc) = Document::parse(b) {
            let btc: Option<Double> = double_under(&doc, "bitcoin", "usd");
            let btc_chg: Option<Double> = double_under(&doc, "bitcoin", "usd_24h_change");
            let sol: Option<Double> = double_under(&doc, "solana", "usd");
            let sol_chg: Option<Double> = double_under(&doc, "solana", "usd_24h_change");
            apply_crypto(data, btc, btc_chg, sol, sol_chg);
        }
    }
}

/// The rate and the change of a USD/BRL answer, as the service writes them.
pub struct QuoteText {
    pub bid: Option<String>,
    pub pct_change: Option<String>,
}

/// The texts of the answer to a request for `config::URL_USDBRL`, if it is JSON.
pub fn usd_brl_texts(body: &str) -> (r: Option<QuoteText>)
    ensures
        r is Some <==> json::json_parsed(body@) is Some,
        r matches Some(q) ==> json::text_view(q.bid) == text_at(
            json::json_parsed(body@)->0,
            path2("USDBRL"@, "bid"@),
        ) && json::text_view(q.pct_change) == text_at(
            json::json_parsed(body@)->0,
            path2("USDBRL"@, "pctChange"@),
        ),
{
    match Document::parse(body) {
        Some(doc) => {
            let bid: Option<String> = text_under(&doc, "USDBRL", "bid");
            let pct_change: Option<String> = text_under(&doc, "USDBRL", "pctChange");
            Some(QuoteText { bid, pct_change })
        },
        None => None,
    }
}

/// `data` with the rate of an answer. It is good if it is above zero.
pub open spec fn with_usd_brl(
    data: MarketData,
    bid: Option<Double>,
    pct: Option<Double>,
) -> MarketData {
    MarketData {
        price_usd_brl: or_zero(bid),
        chg_usd_brl_pct: or_zero(pct),
        ok_usd_brl: or_zero(bid).above_zero(),
        ..data
    }
}

/// Takes over rate and change of an answer, each where its text is a number. `quote` is there where
/// an answer came and is JSON.
pub fn fetch_usd_brl(data: &mut MarketData, quote: Option<(Option<Double>, Option<Double>)>)
    ensures
        *final(data) == match quote {
            Some(q) => with_usd_brl(*old(data), q.0, q.1),
            None => *old(data),
        },
{
    if let Some((bid, pct)) = quote {
        data.price_usd_brl = value_or_zero(bid);
        data.chg_usd_brl_pct = value_or_zero(pct);
        data.ok_usd_brl = data.price_usd_brl.is_positive();
    }
}

/// Why a line of quotes is of no use.
#[derive(Clone, Copy, PartialEq, Eq, Structural, Debug)]
pub enum StooqError {
    Empty,
    NotEnoughColumns,
    BadOpen,
    BadClose,
    CloseNotPositive,
}

impl StooqError {
    pub fn message(self) -> (r: &'static str)
        ensures
            r@ == match self {
                StooqError::Empty => "empty response"@,
                StooqError::NotEnoughColumns => "not enough columns"@,
                StooqError::BadOpen => "bad open"@,
                StooqError::BadClose => "bad close"@,
                StooqError::CloseNotPositive => "close <= 0"@,
            },
    {
        match self {
            StooqError::Empty => "empty response",
            StooqError::NotEnoughColumns => "not enough columns",
            StooqError::BadOpen => "bad open",
            StooqError::BadClose => "bad close",
            StooqError::CloseNotPositive => "close <= 0",
        }
    }
}

/// The first line of a text, without its end.
pub open spec fn first_line(s: Seq<char>) -> Seq<char> {
    match text::cut(s, '\n') {
        Some(p) => if p.0.len() > 0 && p.0.last() == '\r' {
            p.0.drop_last()
        } else {
            p.0
        },
        None => s,
    }
}

/// The columns of a line of quotes.
pub open spec fn columns(body: Seq<char>) -> Seq<Seq<char>> {
    text::split_on(first_line(body), ',')
}

fn first_line_of(s: &[char]) -> (r: &[char])
    ensures
        r@ == first_line(s@),
{
    match text::cut_chars(s, '\n') {
        Some((line, _)) => {
            let n: usize = line.len();
            if n > 0 && line[n - 1] == '\r' {
                assert(line@.subrange(0, n - 1) =~= line@.drop_last());
                vstd::slice::slice_subrange(line, 0, n - 1)
            } else {
                line
            }
        },
        None => s,
    }
}

/// Opening and closing price out of an answer of a single line without header: Symbol, Date, Time,
/// Open, High, Low, Close, and more.
pub fn stooq_columns(body: &str) -> (r: Result<(String, String), StooqError>)
    ensures
        r == Err::<(String, String), StooqError>(StooqError::Empty) <==> body@.len() == 0,
        r == Err::<(String, String), StooqError>(StooqError::NotEnoughColumns) <==> body@.len() > 0
            && columns(body@).len() < 7,
        r is Ok <==> body@.len() > 0 && columns(body@).len() >= 7,
        r matches Ok(p) ==> p.0@ == columns(body@)[3] && p.1@ == columns(body@)[6],
{
    let chars: Vec<char> = text::chars_of(body);
    if chars.len() == 0 {
        return Err(StooqError::Empty);
    }
    let line: &[char] = first_line_of(chars.as_slice());
    let cols: Vec<Vec<char>> = text::split_chars(line, ',');
    if cols.len() < 7 {
        return Err(StooqError::NotEnoughColumns);
    }
    let open: String = text::string_of(cols[3].as_slice());
    let close: String = text::string_of(cols[6].as_slice());
    Ok((open, close))
}

/// What the two columns come to: price and change, or the first thing that is wrong. `change` is
/// the change from opening to closing price in percent.
pub open spec fn quote_of(
    open: Option<Double>,
    close: Option<Double>,
    change: Double,
) -> Result<(Double, Double, bool), StooqError> {
    match (open, close) {
        (None, _) => Err(StooqError::BadOpen),
        (Some(_), None) => Err(StooqError::BadClose),
        (Some(_), Some(c)) => if c.below_zero() || c.equals_zero() {
            Err(StooqError::CloseNotPositive)
        } else {
            Ok((c, change, true))
        },
    }
}

/// Price and change out of the two columns, each there where its text is a number.
pub fn parse_stooq_body(
    open: Option<Double>,
    close: Option<Double>,
    change: Double,
) -> (r: Result<(Double, Double, bool), StooqError>)
    ensures
        r == quote_of(open, close, change),
{
    match (open, close) {
        (None, _) => Err(StooqError::BadOpen),
        (Some(_), None) => Err(StooqError::BadClose),
        (Some(_), Some(c)) => if c.at_most_zero() {
            Err(StooqError::CloseNotPositive)
        } else {
            Ok((c, change, true))
        },
    }
}

pub open spec fn with_gold(data: MarketData, q: Option<(Double, Double, bool)>) -> MarketData {
    match q {
        Some(p) => MarketData {
            price_gold: p.0,
            chg_gold_pct: p.1,
            has_chg_gold: p.2,
            ok_gold: true,
            ..data
        },
        None => data,
    }
}

pub open spec fn with_oil(data: MarketData, q: Option<(Double, Double, bool)>) -> MarketData {
    match q {
        Some(p) => MarketData {
            price_oil: p.0,
            chg_oil_pct: p.1,
            has_chg_oil: p.2,
            ok_oil: true,
            ..data
        },
        None => data,
    }
}

/// Takes over gold and oil, each where its answer came and made sense.
pub fn fetch_gold_and_oil(
    data: &mut MarketData,
    gold: Option<(Double, Double, bool)>,
    oil: Option<(Double, Double, bool)>,
)
    ensures
        *final(data) == with_oil(with_gold(*old(data), gold), oil),
{
    if let Some((price, chg, has)) = gold {
        data.price_gold = price;
        data.chg_gold_pct = chg;
        data.has_chg_gold = has;
        data.ok_gold = true;
    }
    if let Some((price, chg, has)) = oil {
        data.price_oil = price;
        data.chg_oil_pct = chg;
        data.has_chg_oil = has;
        data.ok_oil = true;
    }
}

/// The low 32 bits of a number, as a signed one.
pub open spec fn low_half(n: i64) -> i32 {
    n as i32
}

/// `data` with the weather of an answer. It is good if there is a temperature.
pub open spec fn with_weather(
    data: MarketData,
    temp: Option<Double>,
    code: Option<i64>,
) -> MarketData {
    MarketData {
        weather_temp: temp,
        weather_code: match code {
            Some(c) => Some(low_half(c)),
            None => None,
        },
        ok_weather: temp is Some,
        ..data
    }
}

/// Takes over the weather of an answer.
pub fn apply_weather(data: &mut MarketData, temp: Option<Double>, code: Option<i64>)
    ensures
        *final(data) == with_weather(*old(data), temp, code),
{
    data.weather_temp = temp;
    data.weather_code = match code {
        Some(c) => Some(
            #[verifier::truncate]
            (c as i32),
        ),
        None => None,
    };
    data.ok_weather = temp.is_some();
}

/// What the answer to a weather request makes of `data`.
pub open spec fn weather_answer(data: MarketData, body: Option<Seq<char>>) -> MarketData {
    match body {
        Some(b) => match json::json_parsed(b) {
            Some(held) => with_weather(
                data,
                number_at(held, path2("current"@, "temperature_2m"@)),
                whole_at(held, path2("current"@, "weather_code"@)),
            ),
            None => data,
        },
        None => data,
    }
}

/// Takes over the answer to a request for `config::url_weather`, if one came and is JSON.
pub fn fetch_weather(data: &mut MarketData, body: Option<&str>)
    ensures
        *final(data) == weather_answer(*old(data), body_view(body)),
{
    if let Some(b) = body {
        if let Some(doc) = Document::parse(b) {
            let temp: Option<Double> = double_under(&doc, "current", "temperature_2m");
            let code: Option<i64> = whole_under(&doc, "current", "weather_code");
            apply_weather(data, temp, code);
        }
    }
}

/// An answer that did not come, or is no JSON, changes nothing.
pub proof fn law_bad_answer_changes_nothing(data: MarketData, body: Option<Seq<char>>)
    requires
        body is None || json::json_parsed(body->0) is None,
    ensures
        crypto_answer(data, body) == data,
        weather_answer(data, body) == data,
{
}

/// The hand-over between a worker and whoever waits for it: a request to start, and a result.
pub struct FetchWorker {
    pub go: bool,
    pub result: Option<MarketData>,
}

impl FetchWorker {
    pub fn new() -> (r: Self)
        ensures
            !r.go,
            r.result is None,
    {
        FetchWorker { go: false, result: None }
    }

    /// Asks the worker to start.
    pub fn trigger(&mut self)
        ensures
            final(self).go,
            final(self).result == old(self).result,
    {
        self.go = true;
    }

    /// Takes the request, if there is one. Requests that pile up count as one.
    pub fn wait_go(&mut self) -> (r: bool)
        ensures
            r == old(self).go,
            !final(self).go,
            final(self).result == old(self).result,
    {
        let go: bool = self.go;
        self.go = false;
        go
    }

    /// Leaves a result, in place of one that was not collected.
    pub fn post(&mut self, d: MarketData)
        ensures
            final(self).result == Some(d),
            final(self).go == old(self).go,
    {
        self.result = Some(d);
    }

    /// Takes the result, if there is one.
    pub fn collect(&mut self) -> (r: Option<MarketData>)
        ensures
            r == old(self).result,
            final(self).result is None,
            final(self).go == old(self).go,
    {
        let r: Option<MarketData> = self.result;
        self.result = None;
        r
    }
}

/// Merges what the workers brought: always the first, and the second where it was asked.
pub fn fetch_all(data: &mut MarketData, a: MarketData, b: Option<MarketData>)
    ensures
        *final(data) == match b {
            Some(r) => merged(merged(*old(data), a), r),
            None => merged(*old(data), a),
        },
{
    merge(data, a);
    if let Some(r) = b {
        merge(data, r);
    }
}

/// `data` brought up to date by `r`: each group that succeeded there replaces the one here, and
/// the last known good values of the others stay. Weather stays.
pub open spec fn merged(data: MarketData, r: MarketData) -> MarketData {
    let a = if r.ok_crypto {
        MarketData {
            price_btc: r.price_btc,
            chg_btc_pct: r.chg_btc_pct,
            price_sol: r.price_sol,
            chg_sol_pct: r.chg_sol_pct,
            ok_crypto: true,
            ..data
        }
    } else {
        data
    };
    let b = if r.ok_usd_brl {
        MarketData {
            price_usd_brl: r.price_usd_brl,
            chg_usd_brl_pct: r.chg_usd_brl_pct,
            ok_usd_brl: true,
            ..a
        }
    } else {
        a
    };
    let c = if r.ok_gold {
        MarketData {
            price_gold: r.price_gold,
            chg_gold_pct: r.chg_gold_pct,
            has_chg_gold: r.has_chg_gold,
            ok_gold: true,
            ..b
        }
    } else {
        b
    };
    if r.ok_oil {
        MarketData {
            price_oil: r.price_oil,
            chg_oil_pct: r.chg_oil_pct,
            has_chg_oil: r.has_chg_oil,
            ok_oil: true,
            ..c
        }
    } else {
        c
    }
}

/// Merge a partial price-fetch result: only overwrites what succeeded this cycle.
pub fn merge(data: &mut MarketData, r: MarketData)
    ensures
        *final(data) == merged(*old(data), r),
{
    if r.ok_crypto {
        data.price_btc = r.price_btc;
        data.chg_btc_pct = r.chg_btc_pct;
        data.price_sol = r.price_sol;
        data.chg_sol_pct = r.chg_sol_pct;
        data.ok_crypto = true;
    }
    if r.ok_usd_brl {
        data.price_usd_brl = r.price_usd_brl;
        data.chg_usd_brl_pct = r.chg_usd_brl_pct;
        data.ok_usd_brl = true;
    }
    if r.ok_gold {
        data.price_gold = r.price_gold;
        data.chg_gold_pct = r.chg_gold_pct;
        data.has_chg_gold = r.has_chg_gold;
        data.ok_gold = true;
    }
    if r.ok_oil {
        data.price_oil = r.price_oil;
        data.chg_oil_pct = r.chg_oil_pct;
        data.has_chg_oil = r.has_chg_oil;
        data.ok_oil = true;
    }
}

/// A failed fetch changes nothing, merging the same result again changes nothing more, and what
/// was once known stays known.
pub proof fn law_merge_keeps_last_good(data: MarketData, r: MarketData)
    ensures
        merged(data, no_data()) == data,
        merged(merged(data, r), r) == merged(data, r),
        merged(data, r).ok_crypto == (data.ok_crypto || r.ok_crypto),
        merged(data, r).ok_usd_brl == (data.ok_usd_brl || r.ok_usd_brl),
        merged(data, r).ok_gold == (data.ok_gold || r.ok_gold),
        merged(data, r).ok_oil == (data.ok_oil || r.ok_oil),
        merged(data, r).weather_temp == data.weather_temp,
        merged(data, r).weather_code == data.weather_code,
        merged(data, r).ok_weather == data.ok_weather,
        !r.ok_crypto ==> merged(data, r).price_btc == data.price_btc && merged(data, r).price_sol
            == data.price_sol,
        !r.ok_usd_brl ==> merged(data, r).price_usd_brl == data.price_usd_brl,
        !r.ok_gold ==> merged(data, r).price_gold == data.price_gold,
        !r.ok_oil ==> merged(data, r).price_oil == data.price_oil,
{
}

pub open spec fn weather_word(code: i32) -> Seq<char> {
    if code == 0 {
        "clear"@
    } else if code == 1 {
        "fine"@
    } else if code == 2 {
        "p.cld"@
    } else if code == 3 {
        "cloud"@
    } else if code == 45 || code == 48 {
        "fog"@
    } else if code == 51 || code == 53 || code == 55 {
        "drzl"@
    } else if code == 61 || code == 63 || code == 65 {
        "rain"@
    } else if code == 71 || code == 73 || code == 75 {
        "snow"@
    } else if 80 <= code <= 82 {
        "shwr"@
    } else if code == 96 || code == 99 {
        "storm"@
    } else {
        "wx"@
    }
}

/// Convert WMO weather code to a short label for the LCD.
pub fn wmo_label(code: i32) -> (r: &'static str)
    ensures
        r@ == weather_word(code),
{
    match code {
        0 => "clear",
        1 => "fine",
        2 => "p.cld",
        3 => "cloud",
        45 | 48 => "fog",
        51 | 53 | 55 => "drzl",
        61 | 63 | 65 => "rain",
        71 | 73 | 75 => "snow",
        80 | 81 | 82 => "shwr",
        96 | 99 => "storm",
        _ => "wx",
    }
}

pub open spec fn rainy(code: i32) -> bool {
    51 <= code <= 67 || 80 <= code <= 86 || code >= 95
}

/// Returns true if the WMO code represents rain/precipitation.
pub fn wmo_is_rain(code: i32) -> (r: bool)
    ensures
        r == rainy(code),
{
    (51 <= code && code <= 67) || (80 <= code && code <= 86) || code >= 95
}

/// Codes that are labelled drizzle, rain, showers or storm count as rain.
pub proof fn law_rain_labels_are_rain(code: i32)
    requires
        weather_word(code) == "drzl"@ || weather_word(code) == "rain"@ || weather_word(code)
            == "shwr"@ || weather_word(code) == "storm"@,
    ensures
        rainy(code),
{
    reveal_strlit("clear");
    reveal_strlit("fine");
    reveal_strlit("p.cld");
    reveal_strlit("cloud");
    reveal_strlit("fog");
    reveal_strlit("drzl");
    reveal_strlit("rain");
    reveal_strlit("snow");
    reveal_strlit("shwr");
    reveal_strlit("storm");
    reveal_strlit("wx");
    if !rainy(code) {
        let w = weather_word(code);
        assert(w.len() == 5 ==> w[0] != 's');
        assert(w.len() == 4 ==> w[0] == 'f' || (w[0] == 's' && w[1] == 'n'));
    }
}

} // verus!
