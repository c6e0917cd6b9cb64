//! Climate sensor: readings out of pulse lengths, when to read and when to store, and the cached
//! history that the dashboard shows.
//!
//! Timing (AM2302): the host pulls low for at least 1 ms and releases, the sensor answers with 80 us
//! low and 80 us high, then sends 40 bits, most significant first, each about 50 us low and a high
//! phase whose length is the bit: 26 to 28 us for a 0, about 70 us for a 1.

use vstd::prelude::*;

use crate::bits;
use crate::clock;
use crate::pulse;

verus! {

#[derive(Clone, Copy, PartialEq, Eq, Structural, Debug)]
pub enum Dht22Error {
    Timeout,
    ChecksumMismatch,
    /// The pin could not be driven; the platform's error code.
    Gpio(i32),
}

/// One reading, in tenths.
#[derive(Clone, Copy, PartialEq, Eq, Structural, Debug)]
pub struct Dht22Reading {
    /// Tenths of a degree, without sign.
    pub temp_tenths: u16,
    /// Below zero.
    pub negative: bool,
    /// Tenths of a percent.
    pub humidity_tenths: u16,
}

/// A high phase longer than this many microseconds is a one.
pub const ONE_HIGH_US: i64 = 40;

/// Microseconds that any phase may take.
pub const PHASE_TIMEOUT_US: i64 = 100;

/// Phases of an answer: three of the acknowledgement, then low and high of each of 40 bits.
pub const PHASES: usize = 83;

/// Whether the pin is high during the phase that comes as number `i`.
pub fn phase_is_high(i: usize) -> (r: bool)
    ensures
        r == (i % 2 == 0),
{
    i % 2 == 0
}

/// The bits of an answer out of the lengths of its phases.
pub open spec fn answer_bits(us: Seq<i64>) -> Seq<bool> {
    Seq::new(40, |i: int| us[4 + 2 * i] > ONE_HIGH_US)
}

/// Byte `k` of an answer.
pub open spec fn answer_byte(b: Seq<bool>, k: int) -> u8 {
    bits::byte_of(|j: int| b[8 * k + 7 - j])
}

/// The reading that an answer stands for, if its last byte is the sum of the others.
pub open spec fn reading(b: Seq<bool>) -> Result<Dht22Reading, Dht22Error> {
    let b0 = answer_byte(b, 0);
    let b1 = answer_byte(b, 1);
    let b2 = answer_byte(b, 2);
    let b3 = answer_byte(b, 3);
    if (b0 + b1 + b2 + b3) % 256 == answer_byte(b, 4) {
        Ok(
            Dht22Reading {
                temp_tenths: (b2 % 128 * 256 + b3) as u16,
                negative: b2 >= 128,
                humidity_tenths: (b0 * 256 + b1) as u16,
            },
        )
    } else {
        Err(Dht22Error::ChecksumMismatch)
    }
}

fn read_byte(us: &[i64], k: usize) -> (r: u8)
    requires
        us@.len() == PHASES,
        k < 5,
    ensures
        r == answer_byte(answer_bits(us@), k as int),
{
    let ghost all = answer_bits(us@);
    let mut b: u8 = 0;
    let mut n: usize = 0;
    while n < 8
        invariant
            n <= 8,
            us@.len() == PHASES,
            k < 5,
            all == answer_bits(us@),
            forall|j: int| 0 <= j < n ==> #[trigger] bits::bit(b, j) == all[8 * k + n - 1 - j],
        decreases 8 - n,
    {
        let at: usize = 4 + 2 * (8 * k + n);
        let on: bool = us[at] > ONE_HIGH_US;
        let ghost before = b;
        assert(all[8 * k + n] == on);
        b = bits::shift_in_low(b, on);
        proof {
            assert forall|j: int| 0 <= j < n + 1 implies #[trigger] bits::bit(b, j) == all[8 * k + n
                - j] by {
                if j > 0 {
                    assert(bits::bit(b, j) == bits::bit(before, j - 1));
                    assert(bits::bit(before, j - 1) == all[8 * k + n - 1 - (j - 1)]);
                }
            }
        }
        n += 1;
    }
    proof {
        let on = |j: int| all[8 * k + 7 - j];
        assert forall|j: int| 0 <= j < 8 implies #[trigger] bits::bit(b, j) == on(j) by {
            assert(bits::bit(b, j) == all[8 * k + 8 - 1 - j]);
        }
        bits::lemma_byte_of(b, on);
    }
    b
}

/// One full read: how driving the pin went, and the length of each phase of the answer, `None` for
/// one that did not end in time.
pub fn read(driven: Result<(), i32>, phases: &[Option<i64>]) -> (r: Result<
    Dht22Reading,
    Dht22Error,
>)
    requires
        phases@.len() == PHASES,
    ensures
        r == match driven {
            Err(code) => Err(Dht22Error::Gpio(code)),
            Ok(_) => if pulse::all_ended(phases@) {
                reading(answer_bits(pulse::lengths(phases@)))
            } else {
                Err(Dht22Error::Timeout)
            },
        },
{
    if let Err(code) = driven {
        return Err(Dht22Error::Gpio(code));
    }
    let us: Vec<i64> = match pulse::collect(phases) {
        Some(v) => v,
        None => {
            return Err(Dht22Error::Timeout);
        },
    };
    let b0: u8 = read_byte(us.as_slice(), 0);
    let b1: u8 = read_byte(us.as_slice(), 1);
    let b2: u8 = read_byte(us.as_slice(), 2);
    let b3: u8 = read_byte(us.as_slice(), 3);
    let b4: u8 = read_byte(us.as_slice(), 4);
    let checksum: u8 = ((b0 as u16 + b1 as u16 + b2 as u16 + b3 as u16) % 256) as u8;
    if checksum != b4 {
        return Err(Dht22Error::ChecksumMismatch);
    }
    Ok(
        Dht22Reading {
            temp_tenths: (b2 % 128) as u16 * 256 + b3 as u16,
            negative: b2 >= 128,
            humidity_tenths: b0 as u16 * 256 + b1 as u16,
        },
    )
}

/// The bytes that the sensor sends for a reading.
pub open spec fn sent_byte(r: Dht22Reading, k: int) -> u8 {
    let b0 = r.humidity_tenths / 256;
    let b1 = r.humidity_tenths % 256;
    let b2 = r.temp_tenths / 256 + (if r.negative {
        128int
    } else {
        0
    });
    let b3 = r.temp_tenths % 256;
    if k == 0 {
        b0 as u8
    } else if k == 1 {
        b1 as u8
    } else if k == 2 {
        b2 as u8
    } else if k == 3 {
        b3 as u8
    } else {
        ((b0 + b1 + b2 + b3) % 256) as u8
    }
}

/// The bits that the sensor sends for a reading.
pub open spec fn sent_bits(r: Dht22Reading) -> Seq<bool> {
    Seq::new(40, |i: int| bits::bit(sent_byte(r, i / 8), 7 - i % 8))
}

proof fn lemma_sent_byte(r: Dht22Reading, k: int)
    requires
        0 <= k < 5,
    ensures
        answer_byte(sent_bits(r), k) == sent_byte(r, k),
{
    let b = sent_bits(r);
    let on = |j: int| b[8 * k + 7 - j];
    assert forall|j: int| 0 <= j < 8 implies #[trigger] bits::bit(sent_byte(r, k), j) == on(j) by {
        let i = 8 * k + 7 - j;
        assert(i / 8 == k && i % 8 == 7 - j);
    }
    bits::lemma_byte_of(sent_byte(r, k), on);
}

/// What the sensor sends is what is read, for every temperature down to minus and up to plus
/// 3276.7 degrees.
#[verifier::spinoff_prover]
pub proof fn law_reading_comes_back(r: Dht22Reading)
    requires
        r.temp_tenths < 0x8000,
    ensures
        reading(sent_bits(r)) == Ok::<Dht22Reading, Dht22Error>(r),
{
    lemma_sent_byte(r, 0);
    lemma_sent_byte(r, 1);
    lemma_sent_byte(r, 2);
    lemma_sent_byte(r, 3);
    lemma_sent_byte(r, 4);
    let b0 = sent_byte(r, 0);
    let b1 = sent_byte(r, 1);
    let b2 = sent_byte(r, 2);
    let b3 = sent_byte(r, 3);
    lemma_halves(r.humidity_tenths);
    lemma_halves(r.temp_tenths);
    assert(b0 * 256 + b1 == r.humidity_tenths);
    assert(r.temp_tenths / 256 < 128);
    assert(b2 % 128 == r.temp_tenths / 256);
    assert(b2 >= 128 <==> r.negative);
    assert(b2 % 128 * 256 + b3 == r.temp_tenths);
    assert((b0 + b1 + b2 + b3) % 256 == sent_byte(r, 4));
}

proof fn lemma_halves(n: u16)
    ensures
        n / 256 < 256,
        n % 256 < 256,
        (n / 256) * 256 + n % 256 == n,
{
}

// ── Readings for others ───────────────────────────────────────────────────────
/// No reading yet.
pub const NO_READING: u32 = 0xFFFF_FFFF;

/// Last-known-good reading: temperature and humidity, each as the bits of a single-precision
/// number.
#[derive(Clone, Copy, PartialEq, Eq, Structural, Debug)]
pub struct LastReading {
    pub temp_c: u32,
    pub humidity_pct: u32,
}

impl LastReading {
    pub fn new() -> (r: Self)
        ensures
            r == (LastReading { temp_c: NO_READING, humidity_pct: NO_READING }),
    {
        LastReading { temp_c: NO_READING, humidity_pct: NO_READING }
    }

    pub fn last_reading(&self) -> (r: Option<(u32, u32)>)
        ensures
            r == if self.temp_c == NO_READING || self.humidity_pct == NO_READING {
                None
            } else {
                Some((self.temp_c, self.humidity_pct))
            },
    {
        if self.temp_c == NO_READING || self.humidity_pct == NO_READING {
            None
        } else {
            Some((self.temp_c, self.humidity_pct))
        }
    }
}

// ── Cadence ───────────────────────────────────────────────────────────────────
/// The sensor's own minimum sampling interval.
pub const FAST_READ_INTERVAL_MS: u32 = 2_000;

/// The interval while nobody is watching.
pub const SLOW_READ_INTERVAL_MS: u32 = 30_000;

/// Readings are stored this often, however often they are taken.
pub const STORE_INTERVAL_MS: u32 = 30_000;

/// The dashboard counts as open for this long after it last asked for the status.
pub const ACTIVE_WINDOW_MS: u32 = 6_000;

/// Time allowed for the refresher's first sign of life.
pub const STARTUP_MS: u32 = 30_000;

/// When the dashboard last asked for the status, and when the refresher last showed life.
#[derive(Clone, Copy, PartialEq, Eq, Structural, Debug)]
pub struct Activity {
    pub last_active_ms: u32,
    /// 0 before the first.
    pub heartbeat_ms: u32,
}

impl Activity {
    pub fn new() -> (r: Self)
        ensures
            r == (Activity { last_active_ms: 0, heartbeat_ms: 0 }),
    {
        Activity { last_active_ms: 0, heartbeat_ms: 0 }
    }

    /// The dashboard is open.
    pub fn mark_dashboard_active(&mut self, now: u32)
        ensures
            *final(self) == (Activity { last_active_ms: now, ..*old(self) }),
    {
        self.last_active_ms = now;
    }

    /// The refresher is alive.
    pub fn beat(&mut self, now: u32)
        ensures
            *final(self) == (Activity { heartbeat_ms: now, ..*old(self) }),
    {
        self.heartbeat_ms = now;
    }

    /// How long since the refresher last showed life. Where it never did, it counts as stuck since
    /// boot, but only once it has had time to start.
    pub fn refresher_stuck_for_ms(&self, now: u32) -> (r: Option<u32>)
        ensures
            r == if self.heartbeat_ms != 0 {
                Some(clock::since(now, self.heartbeat_ms) as u32)
            } else if now >= STARTUP_MS {
                Some(now)
            } else {
                None
            },
    {
        if self.heartbeat_ms == 0 {
            return if now >= STARTUP_MS {
                Some(now)
            } else {
                None
            };
        }
        Some(clock::ms_since(now, self.heartbeat_ms))
    }

    /// Milliseconds until the next reading: fast while the dashboard is open.
    pub fn read_interval(&self, now: u32) -> (r: u32)
        ensures
            r == if now - self.last_active_ms <= ACTIVE_WINDOW_MS {
                FAST_READ_INTERVAL_MS
            } else {
                SLOW_READ_INTERVAL_MS
            },
    {
        let idle: u32 = if now >= self.last_active_ms {
            now - self.last_active_ms
        } else {
            0
        };
        if idle <= ACTIVE_WINDOW_MS {
            FAST_READ_INTERVAL_MS
        } else {
            SLOW_READ_INTERVAL_MS
        }
    }
}

/// Whether a reading is to be stored.
pub fn store_due(now: u32, last_store_ms: u32) -> (r: bool)
    ensures
        r == (now - last_store_ms >= STORE_INTERVAL_MS),
{
    now >= last_store_ms && now - last_store_ms >= STORE_INTERVAL_MS
}

// ── Cached history ────────────────────────────────────────────────────────────
/// The ranges that the dashboard's buttons ask for, in hours.
pub const RANGE_HOURS: [u32; 3] = [1, 6, 24];

/// The place of a range, if there is a button for it.
pub open spec fn range_slot(hours: u32) -> Option<int> {
    if hours == 1 {
        Some(0)
    } else if hours == 6 {
        Some(1)
    } else if hours == 24 {
        Some(2)
    } else {
        None
    }
}

pub fn slot_index(hours: u32) -> (r: Option<usize>)
    ensures
        r is Some <==> range_slot(hours) is Some,
        r matches Some(i) ==> range_slot(hours) == Some(i as int) && i < 3 && RANGE_HOURS[i as int]
            == hours,
{
    let mut i: usize = 0;
    while i < 3
        invariant
            i <= 3,
            forall|k: int| 0 <= k < i ==> #[trigger] RANGE_HOURS[k] != hours,
        decreases 3 - i,
    {
        if RANGE_HOURS[i] == hours {
            return Some(i);
        }
        i += 1;
    }
    assert(RANGE_HOURS[0] != hours && RANGE_HOURS[1] != hours && RANGE_HOURS[2] != hours);
    None
}

/// History as the dashboard gets it: the live chart and one document per range, each as it was
/// last fetched, and which ranges are asked for.
pub struct ChartCache {
    pub chart: Option<String>,
    pub ranges: [Option<String>; 3],
    pub wanted: [bool; 3],
}

pub open spec fn text_of(s: Option<String>) -> Option<Seq<char>> {
    match s {
        Some(t) => Some(t@),
        None => None,
    }
}

pub open spec fn str_of(s: Option<&str>) -> Option<Seq<char>> {
    match s {
        Some(t) => Some(t@),
        None => None,
    }
}

/// What is cached of a range.
pub open spec fn cached_range(c: ChartCache, hours: u32) -> Option<Seq<char>> {
    match range_slot(hours) {
        Some(i) => text_of(c.ranges[i]),
        None => None,
    }
}

impl ChartCache {
    pub fn new() -> (r: Self)
        ensures
            r.chart is None,
            forall|i: int| 0 <= i < 3 ==> #[trigger] r.ranges[i] is None,
            forall|i: int| 0 <= i < 3 ==> !#[trigger] r.wanted[i],
    {
        ChartCache { chart: None, ranges: [None, None, None], wanted: [false; 3] }
    }

    /// Hands the cached chart to `f`.
    pub fn with_cached_chart_json<R, F: FnOnce(Option<&str>) -> R>(&self, f: F) -> (r: R)
        requires
            forall|s: Option<&str>| str_of(s) == text_of(self.chart) ==> call_requires(f, (s,)),
        ensures
            exists|s: Option<&str>|
                str_of(s) == text_of(self.chart) && #[trigger] call_ensures(f, (s,), r),
    {
        let s: Option<&str> = match &self.chart {
            Some(t) => Some(t.as_str()),
            None => None,
        };
        assert(str_of(s) == text_of(self.chart));
        f(s)
    }

    /// Flags a range as wanted. Returns `false` for a number of hours that has no button.
    pub fn request_range(&mut self, hours: u32) -> (r: bool)
        ensures
            r == (range_slot(hours) is Some),
            final(self).chart == old(self).chart,
            final(self).ranges == old(self).ranges,
            forall|i: int|
                0 <= i < 3 ==> #[trigger] final(self).wanted[i] == (old(self).wanted[i]
                    || range_slot(hours) == Some(i)),
    {
        match slot_index(hours) {
            Some(i) => {
                self.wanted[i] = true;
                true
            },
            None => false,
        }
    }

    /// Hands what is cached of a range to `f`; `None` where nothing was fetched yet.
    pub fn with_cached_range_json<R, F: FnOnce(Option<&str>) -> R>(&self, hours: u32, f: F) -> (r:
        R)
        requires
            forall|s: Option<&str>|
                str_of(s) == cached_range(*self, hours) ==> call_requires(f, (s,)),
        ensures
            exists|s: Option<&str>|
                str_of(s) == cached_range(*self, hours) && #[trigger] call_ensures(f, (s,), r),
    {
        let s: Option<&str> = match slot_index(hours) {
            Some(i) => match &self.ranges[i] {
                Some(t) => Some(t.as_str()),
                None => None,
            },
            None => None,
        };
        assert(str_of(s) == cached_range(*self, hours));
        f(s)
    }

    /// Takes the request for a range, if there is one.
    pub fn take_wanted(&mut self, i: usize) -> (r: bool)
        requires
            i < 3,
        ensures
            r == old(self).wanted[i as int],
            final(self).chart == old(self).chart,
            final(self).ranges == old(self).ranges,
            forall|k: int|
                0 <= k < 3 ==> #[trigger] final(self).wanted[k] == (old(self).wanted[k] && k != i),
    {
        let r: bool = self.wanted[i];
        self.wanted[i] = false;
        r
    }

    /// Keeps what was fetched for a range. A fetch that failed leaves what was there.
    pub fn store_range(&mut self, i: usize, fetched: Option<String>)
        requires
            i < 3,
        ensures
            final(self).chart == old(self).chart,
            final(self).wanted == old(self).wanted,
            forall|k: int|
                0 <= k < 3 ==> #[trigger] final(self).ranges[k] == if k == i && fetched is Some {
                    fetched
                } else {
                    old(self).ranges[k]
                },
    {
        if let Some(s) = fetched {
            self.ranges[i] = Some(s);
        }
    }
}

/// A range that was asked for, fetched and stored is what the dashboard then gets.
pub proof fn law_range_served(c: ChartCache, hours: u32, i: int, fetched: String)
    requires
        range_slot(hours) == Some(i),
        c.ranges[i] == Some(fetched),
    ensures
        cached_range(c, hours) == Some(fetched@),
{
}

/// Seconds until the live chart is fetched again, after success and after failure.
pub const REFRESH_OK: u32 = 30;

pub const REFRESH_FAILED: u32 = 5;

/// The refresher's count of seconds, and when the live chart is due.
#[derive(Clone, Copy, PartialEq, Eq, Structural, Debug)]
pub struct ChartRefresher {
    pub tick: u32,
    pub next_refresh: u32,
}

impl ChartRefresher {
    /// The first fetch is due at once.
    pub fn new() -> (r: Self)
        ensures
            r == (ChartRefresher { tick: 0, next_refresh: 0 }),
    {
        ChartRefresher { tick: 0, next_refresh: 0 }
    }

    pub fn due(&self) -> (r: bool)
        ensures
            r == (self.tick >= self.next_refresh),
    {
        self.tick >= self.next_refresh
    }

    /// Takes note of a fetch of the live chart. What was fetched goes to the cache.
    pub fn fetched(&mut self, cache: &mut ChartCache, json: Option<String>)
        requires
            old(self).tick + if json is Some {
                REFRESH_OK
            } else {
                REFRESH_FAILED
            } <= u32::MAX,
        ensures
            *final(self) == (ChartRefresher {
                tick: old(self).tick,
                next_refresh: (old(self).tick + if json is Some {
                    REFRESH_OK
                } else {
                    REFRESH_FAILED
                }) as u32,
            }),
            final(cache).chart == if json is Some {
                json
            } else {
                old(cache).chart
            },
            final(cache).ranges == old(cache).ranges,
            final(cache).wanted == old(cache).wanted,
    {
        match json {
            Some(s) => {
                cache.chart = Some(s);
                self.next_refresh = self.tick + REFRESH_OK;
            },
            None => {
                self.next_refresh = self.tick + REFRESH_FAILED;
            },
        }
    }

    /// One second on.
    pub fn advance(&mut self)
        ensures
            *final(self) == (ChartRefresher {
                tick: ((old(self).tick + 1) % 0x1_0000_0000) as u32,
                ..*old(self)
            }),
    {
        self.tick = self.tick.wrapping_add(1);
    }
}

} // verus!
