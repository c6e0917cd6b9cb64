//! What the sensor, the remote and the knob send is what is read.

use vstd::prelude::*;

use crate::bits;
use crate::config;
use crate::dht22;
use crate::dht22::{
    Activity, ChartCache, ChartRefresher, Dht22Error, Dht22Reading, LastReading,
};
use crate::ir_remote;
use crate::ir_remote::IrError;
use crate::pulse;
use crate::pulse::Wait;
use crate::text;
use crate::volume;
use crate::volume::VolumeFilter;

verus! {

// ── Pulses ────────────────────────────────────────────────────────────────────
/// A pulse ends when the pin leaves its level, and has failed where it takes longer than it may.
pub proof fn law_pulse(pin: bool, level: bool, elapsed: i64, most: i64, r: Wait)
    requires
        call_ensures(pulse::wait_while, (pin, level, elapsed, most), r),
    ensures
        pin != level ==> r == Wait::Done(elapsed),
        pin == level && elapsed > most ==> r == Wait::Timeout,
        pin == level && elapsed <= most ==> r == Wait::Again,
{
}

/// Bit `k` of a byte, counted from the least significant one, as a sum of powers of two.
pub open spec fn binary_digit(b: u8, k: int) -> bool {
    (b as int / (if k == 0 {
        1
    } else if k == 1 {
        2
    } else if k == 2 {
        4
    } else if k == 3 {
        8
    } else if k == 4 {
        16
    } else if k == 5 {
        32
    } else if k == 6 {
        64
    } else {
        128int
    })) % 2 == 1
}

/// The bits of a byte are its binary digits.
pub proof fn law_bits_are_binary_digits(b: u8, k: int)
    requires
        0 <= k < 8,
    ensures
        bits::bit(b, k) == binary_digit(b, k),
{
    assert(((b >> 0u8) & 1 == 1) == (b / 1 % 2 == 1) && ((b >> 1u8) & 1 == 1) == (b / 2 % 2 == 1) && (
    (b >> 2u8) & 1 == 1) == (b / 4 % 2 == 1) && ((b >> 3u8) & 1 == 1) == (b / 8 % 2 == 1) && ((b
        >> 4u8) & 1 == 1) == (b / 16 % 2 == 1) && ((b >> 5u8) & 1 == 1) == (b / 32 % 2 == 1) && ((b
        >> 6u8) & 1 == 1) == (b / 64 % 2 == 1) && ((b >> 7u8) & 1 == 1) == (b / 128 % 2 == 1))
        by (bit_vector);
    assert(k == 0 || k == 1 || k == 2 || k == 3 || k == 4 || k == 5 || k == 6 || k == 7);
}

/// A pixel of a glyph is a bit of its row, the leftmost of five the highest.
pub proof fn law_pixels_from_left(g: Seq<u8>, row: int, col: int)
    requires
        0 <= col < 5,
    ensures
        bits::lit(g, row, col) == binary_digit(g[row], 4 - col),
{
    law_bits_are_binary_digits(g[row], 4 - col);
}

// ── The remote's frames ───────────────────────────────────────────────────────
/// What a remote sends: the header, then a mark and a space for each bit, the space long for a one.
/// Address, complement, command, complement, each from its lowest bit on.
pub open spec fn sent_frame(pulses: Seq<Option<i64>>, address: u8, command: u8) -> bool {
    &&& pulses.len() == 66
    &&& forall|i: int| 0 <= i < 66 ==> #[trigger] pulses[i] is Some
    &&& forall|j: int|
        0 <= j < 8 ==> {
            &&& (#[trigger] binary_digit(address, j) ==> pulses[3 + 2 * j]->0 > 1_000
                && pulses[19 + 2 * j]->0 <= 1_000)
            &&& (!binary_digit(address, j) ==> pulses[3 + 2 * j]->0 <= 1_000 && pulses[19 + 2 * j]->0
                > 1_000)
        }
    &&& forall|j: int|
        0 <= j < 8 ==> {
            &&& (#[trigger] binary_digit(command, j) ==> pulses[35 + 2 * j]->0 > 1_000
                && pulses[51 + 2 * j]->0 <= 1_000)
            &&& (!binary_digit(command, j) ==> pulses[35 + 2 * j]->0 <= 1_000 && pulses[51 + 2
                * j]->0 > 1_000)
        }
}

/// A frame is read as it was sent: address and command, whatever the exact lengths of its spaces, as
/// long as those of a one are above a thousand microseconds and those of a zero are not. A frame with
/// a pulse that did not end is not read.
pub proof fn law_frame_is_read(
    pulses: &[Option<i64>],
    address: u8,
    command: u8,
    r: Result<(u8, u8), IrError>,
)
    requires
        pulses@.len() == 66,
        call_ensures(ir_remote::read_nec_frame, (pulses,), r),
    ensures
        sent_frame(pulses@, address, command) ==> r == Ok::<(u8, u8), IrError>((address, command)),
        (exists|i: int| 0 <= i < 66 && #[trigger] pulses@[i] is None) ==> r == Err::<
            (u8, u8),
            IrError,
        >(IrError::Timeout),
{
    if sent_frame(pulses@, address, command) {
        let us = pulse::lengths(pulses@);
        let b = ir_remote::frame_bits(us);
        let s = ir_remote::sent_bits(address, command);
        assert forall|i: int| 0 <= i < 32 implies #[trigger] b[i] == s[i] by {
            if i < 8 {
                law_bits_are_binary_digits(address, i);
            } else if i < 16 {
                law_bits_are_binary_digits(address, i - 8);
                assert(3 + 2 * i == 19 + 2 * (i - 8));
            } else if i < 24 {
                law_bits_are_binary_digits(command, i - 16);
                assert(3 + 2 * i == 35 + 2 * (i - 16));
            } else {
                law_bits_are_binary_digits(command, i - 24);
                assert(3 + 2 * i == 51 + 2 * (i - 24));
            }
        }
        assert(b =~= s);
        ir_remote::law_frame_comes_back(address, command);
    }
}

/// The pulses are waited for in turn, low and high, each long enough for what a remote sends: 9 ms and
/// 4.5 ms for the header, 562 microseconds for a mark, 1687 for the longest space.
pub proof fn law_pulses_have_time(i: usize, r: (bool, i64))
    requires
        i < 66,
        call_ensures(ir_remote::pulse_at, (i,), r),
    ensures
        r.0 == (i % 2 == 1),
        i == 0 ==> r.1 > 9_000,
        i == 1 ==> 4_500 < r.1 < 9_000,
        i >= 2 && i % 2 == 0 ==> 562 < r.1 < 1_000,
        i >= 2 && i % 2 == 1 ==> 1_687 < r.1 < 4_500,
{
}

// ── The climate sensor ────────────────────────────────────────────────────────
/// The value of eight bits from bit `i` of an answer on, the highest first: bit `k` is a one where its
/// high phase is longer than 40 microseconds.
pub open spec fn phase_byte(phases: Seq<Option<i64>>, i: int) -> int {
    let one = |k: int| if phases[4 + 2 * (i + k)]->0 > 40 {
        1int
    } else {
        0
    };
    128 * one(0) + 64 * one(1) + 32 * one(2) + 16 * one(3) + 8 * one(4) + 4 * one(5) + 2 * one(6)
        + one(7)
}

/// An answer is a reading where its fifth byte is the sum of the four before it: humidity in tenths in
/// the first two, the sign and the temperature in tenths in the others. A pin that could not be driven,
/// a phase that did not end and a wrong sum are errors, in this order.
pub proof fn law_sensor_is_read(
    driven: Result<(), i32>,
    phases: &[Option<i64>],
    r: Result<Dht22Reading, Dht22Error>,
)
    requires
        phases@.len() == 83,
        call_ensures(dht22::read, (driven, phases), r),
    ensures
        driven matches Err(code) ==> r == Err::<Dht22Reading, Dht22Error>(Dht22Error::Gpio(code)),
        driven is Ok && (exists|i: int| 0 <= i < 83 && #[trigger] phases@[i] is None) ==> r == Err::<
            Dht22Reading,
            Dht22Error,
        >(Dht22Error::Timeout),
        driven is Ok && (forall|i: int| 0 <= i < 83 ==> #[trigger] phases@[i] is Some) ==> {
            let b0 = phase_byte(phases@, 0);
            let b1 = phase_byte(phases@, 8);
            let b2 = phase_byte(phases@, 16);
            let b3 = phase_byte(phases@, 24);
            let b4 = phase_byte(phases@, 32);
            &&& (b0 + b1 + b2 + b3) % 256 == b4 ==> r is Ok && r->Ok_0.humidity_tenths == 256 * b0
                + b1 && r->Ok_0.negative == (b2 >= 128) && r->Ok_0.temp_tenths == 256 * (b2 % 128)
                + b3
            &&& (b0 + b1 + b2 + b3) % 256 != b4 ==> r == Err::<Dht22Reading, Dht22Error>(
                Dht22Error::ChecksumMismatch,
            )
        },
{
    if driven is Ok && (forall|i: int| 0 <= i < 83 ==> #[trigger] phases@[i] is Some) {
        let us = pulse::lengths(phases@);
        let b = dht22::answer_bits(us);
        lemma_phase_byte(phases@, 0);
        lemma_phase_byte(phases@, 1);
        lemma_phase_byte(phases@, 2);
        lemma_phase_byte(phases@, 3);
        lemma_phase_byte(phases@, 4);
    }
}

proof fn lemma_phase_byte(phases: Seq<Option<i64>>, k: int)
    requires
        phases.len() == 83,
        0 <= k < 5,
    ensures
        dht22::answer_byte(dht22::answer_bits(pulse::lengths(phases)), k) == phase_byte(
            phases,
            8 * k,
        ),
        0 <= phase_byte(phases, 8 * k) < 256,
{
    let us = pulse::lengths(phases);
    let b = dht22::answer_bits(us);
    assert forall|j: int| 0 <= j < 8 implies #[trigger] b[8 * k + j] == (phases[4 + 2 * (8 * k
        + j)]->0 > 40) by {}
    assert(b[8 * k + 0] == (phases[4 + 2 * (8 * k + 0)]->0 > 40));
    assert(b[8 * k + 1] == (phases[4 + 2 * (8 * k + 1)]->0 > 40));
    assert(b[8 * k + 2] == (phases[4 + 2 * (8 * k + 2)]->0 > 40));
    assert(b[8 * k + 3] == (phases[4 + 2 * (8 * k + 3)]->0 > 40));
    assert(b[8 * k + 4] == (phases[4 + 2 * (8 * k + 4)]->0 > 40));
    assert(b[8 * k + 5] == (phases[4 + 2 * (8 * k + 5)]->0 > 40));
    assert(b[8 * k + 6] == (phases[4 + 2 * (8 * k + 6)]->0 > 40));
    assert(b[8 * k + 7] == (phases[4 + 2 * (8 * k + 7)]->0 > 40));
}

/// The phases of an answer are high and low in turn, high first.
pub proof fn law_phases_alternate(i: usize, r: bool, next: bool)
    requires
        i < usize::MAX,
        call_ensures(dht22::phase_is_high, (i,), r),
        call_ensures(dht22::phase_is_high, ((i + 1) as usize,), next),
    ensures
        r != next,
        i == 0 ==> r,
{
}

/// A reading is given out where both its values are there.
pub proof fn law_last_reading(l: LastReading, fresh: LastReading, r: Option<(u32, u32)>, none: Option<(u32, u32)>)
    requires
        call_ensures(LastReading::last_reading, (&l,), r),
        call_ensures(LastReading::new, (), fresh),
        call_ensures(LastReading::last_reading, (&fresh,), none),
    ensures
        none is None,
        r is Some <==> l.temp_c != 0xFFFF_FFFF && l.humidity_pct != 0xFFFF_FFFF,
        r is Some ==> r->0 == (l.temp_c, l.humidity_pct),
{
}

/// While the dashboard is open, that is for six seconds after it last asked for the status, the sensor
/// is read every two seconds, else every thirty. Readings are stored every thirty seconds.
pub proof fn law_cadence(
    a: &mut Activity,
    after: Activity,
    now: u32,
    then: u32,
    interval: u32,
    last: u32,
    store: bool,
)
    requires
        now <= then,
        call_ensures(Activity::mark_dashboard_active, (a, now), ()),
        after == *final(a),
        call_ensures(Activity::read_interval, (&after, then), interval),
        call_ensures(dht22::store_due, (then, last), store),
    ensures
        then - now <= 6_000 ==> interval == 2_000,
        then - now > 6_000 ==> interval == 30_000,
        store <==> then >= last + 30_000,
        final(a).heartbeat_ms == old(a).heartbeat_ms,
{
}

/// The refresher is missed from its last sign of life on; before the first it has thirty seconds.
pub proof fn law_heartbeat(
    a: &mut Activity,
    after: Activity,
    never: Activity,
    now: u32,
    then: u32,
    r: Option<u32>,
    none: Option<u32>,
)
    requires
        0 < now <= then,
        call_ensures(Activity::beat, (a, now), ()),
        after == *final(a),
        call_ensures(Activity::refresher_stuck_for_ms, (&after, then), r),
        never.heartbeat_ms == 0,
        call_ensures(Activity::refresher_stuck_for_ms, (&never, then), none),
    ensures
        r is Some && r->0 == then - now,
        none is Some <==> then >= 30_000,
        none is Some ==> none->0 == then,
        final(a).last_active_ms == old(a).last_active_ms,
{
}

/// The live chart is fetched at once, then thirty seconds after a success and five after a failure. What
/// was fetched is what is served; a failure leaves what was there.
pub proof fn law_chart_is_refreshed(
    r: &mut ChartRefresher,
    after: ChartRefresher,
    fresh: ChartRefresher,
    c: &mut ChartCache,
    json: Option<String>,
    first: bool,
    due: bool,
    ticks: u32,
)
    requires
        old(r).tick + 30 + ticks <= u32::MAX,
        call_ensures(ChartRefresher::new, (), fresh),
        call_ensures(ChartRefresher::due, (&fresh,), first),
        call_ensures(ChartRefresher::fetched, (r, c, json), ()),
        after == (ChartRefresher { tick: (old(r).tick + ticks) as u32, ..*final(r) }),
        call_ensures(ChartRefresher::due, (&after,), due),
    ensures
        first,
        json is Some ==> final(c).chart == json && (due <==> ticks >= 30),
        json is None ==> final(c).chart == old(c).chart && (due <==> ticks >= 5),
        final(r).tick == old(r).tick,
        final(c).ranges == old(c).ranges && final(c).wanted == old(c).wanted,
{
}

/// A range that is asked for is wanted until it is taken, and what was stored for it is what is cached;
/// a fetch that failed leaves what was there. The ranges are those of 1, 6 and 24 hours.
pub proof fn law_ranges(
    a: &mut ChartCache,
    b: &mut ChartCache,
    c: &mut ChartCache,
    hours: u32,
    i: usize,
    known: bool,
    slot: Option<usize>,
    taken: bool,
    fetched: Option<String>,
)
    requires
        i < 3,
        call_ensures(ChartCache::request_range, (a, hours), known),
        call_ensures(dht22::slot_index, (hours,), slot),
        *old(b) == *final(a),
        call_ensures(ChartCache::take_wanted, (b, i), taken),
        *old(c) == *final(b),
        call_ensures(ChartCache::store_range, (c, i, fetched), ()),
    ensures
        known <==> hours == 1 || hours == 6 || hours == 24,
        slot == (if hours == 1 {
            Some(0usize)
        } else if hours == 6 {
            Some(1usize)
        } else if hours == 24 {
            Some(2usize)
        } else {
            None
        }),
        slot == Some(i) ==> taken,
        slot != Some(i) ==> taken == old(a).wanted[i as int],
        !final(b).wanted[i as int],
        fetched is Some ==> final(c).ranges[i as int] == fetched,
        fetched is None ==> final(c).ranges[i as int] == old(a).ranges[i as int],
        forall|k: int| 0 <= k < 3 && k != i ==> #[trigger] final(c).ranges[k] == old(a).ranges[k],
{
    assert(forall|k: int| 0 <= k < 3 ==> #[trigger] final(b).ranges[k] == old(a).ranges[k]);
}

/// The history is asked for by its number of hours.
pub proof fn law_history_address(hours: u32, r: String)
    requires
        call_ensures(config::url_dht_timeseries, (hours,), r),
    ensures
        ({
            let d = text::decimal(hours as nat);
            &&& r@.len() > d.len()
            &&& r@.skip(r@.len() - d.len()) == d
            &&& r@[r@.len() - d.len() - 1] == '='
        }),
{
    reveal_strlit(
        "http://192.168.1.105:30081/api/events/timeseries?event_type=dht22_reading&keys=temp_c,humidity_pct&hours=",
    );
    let d = text::decimal(hours as nat);
    assert(r@.skip(r@.len() - d.len()) =~= d);
}

// ── The knob ──────────────────────────────────────────────────────────────────
/// The knob's own range is stretched to 0 to 4095, to the nearest below; beyond its stops it reads as
/// at them.
pub proof fn law_knob_is_calibrated(raw: u32, r: u32)
    requires
        call_ensures(volume::calibrate, (raw,), r),
    ensures
        raw <= 285 ==> r == 0,
        raw >= 3063 ==> r == 4095,
        285 <= raw <= 3063 ==> 2778 * r <= 4095 * (raw - 285) < 2778 * (r + 1),
{
    volume::law_stops_reach_ends(raw, raw);
}

/// Up to four samples that are too small and up to four that are too large do not count: the mean stays
/// within the bounds that all others keep.
pub proof fn law_outliers_do_not_count(samples: [u16; 15], lo: u16, hi: u16, r: u32)
    requires
        call_ensures(volume::trimmed_mean, (&samples,), r),
        samples@.to_multiset().filter(|v: u16| v < lo).len() <= 4,
        samples@.to_multiset().filter(|v: u16| v > hi).len() <= 4,
    ensures
        lo <= r <= hi,
{
    let leq = volume::by_size();
    let o = volume::in_order(samples@);
    samples@.lemma_sort_by_ensures(leq);
    assert(o.len() == 15) by {
        o.to_multiset_ensures();
        samples@.to_multiset_ensures();
    }
    assert forall|i: int, j: int| 0 <= i < j < 15 implies #[trigger] o[i] <= #[trigger] o[j] by {
        assert(leq(o[i], o[j]));
    }
    if o[4] < lo {
        assert(o =~= o.take(5) + o.skip(5));
        lemma_many(o, o.take(5), o.skip(5), |v: u16| v < lo);
    }
    if o[10] > hi {
        assert(o =~= o.take(10) + o.skip(10));
        lemma_many(o, o.skip(10), o.take(10), |v: u16| v > hi);
    }
}

/// A sequence of which one part is all of a kind has at least that many of the kind.
proof fn lemma_many(o: Seq<u16>, part: Seq<u16>, rest: Seq<u16>, f: spec_fn(u16) -> bool)
    requires
        o == part + rest || o == rest + part,
        forall|i: int| 0 <= i < part.len() ==> f(#[trigger] part[i]),
    ensures
        o.to_multiset().filter(f).len() >= part.len(),
{
    let m = part.to_multiset();
    let n = rest.to_multiset();
    vstd::seq_lib::lemma_multiset_commutative(part, rest);
    vstd::seq_lib::lemma_multiset_commutative(rest, part);
    part.to_multiset_ensures();
    assert(o.to_multiset() =~= m.add(n));
    assert(m.filter(f) =~= m) by {
        assert forall|v: u16| #[trigger] m.filter(f).count(v) == m.count(v) by {
            if m.count(v) > 0 {
                assert(part.contains(v));
            }
        }
    }
    assert(o.to_multiset().filter(f) =~= m.filter(f).add(n.filter(f)));
}

/// The first reading is taken as it is; then the volume follows the knob only where two readings in a
/// row are at least five steps off, and then by between a third and four fifths of the way.
pub proof fn law_volume_follows(f: &mut VolumeFilter, reading: u32, vol: u8)
    requires
        old(f).valid(),
        reading <= 39_168,
        call_ensures(VolumeFilter::track, (f, reading), vol),
    ensures
        vol == final(f).smoothed / 256,
        old(f).smoothed == 0xFFFF_FFFF ==> final(f).smoothed == reading,
        old(f).smoothed != 0xFFFF_FFFF ==> {
            let was = old(f).smoothed;
            let off = if reading >= was {
                reading - was
            } else {
                was - reading
            };
            let moved = if final(f).smoothed >= was {
                final(f).smoothed - was
            } else {
                was - final(f).smoothed
            };
            &&& off < 1_280 ==> moved == 0 && final(f).move_count == 0
            &&& off >= 1_280 && old(f).move_count == 0 ==> moved == 0 && final(f).move_count == 1
            &&& off >= 1_280 && old(f).move_count >= 1 ==> 80 * off <= 256 * moved + 255 && 256
                * moved <= 200 * off + 255 && (reading >= was <==> final(f).smoothed >= was)
            &&& off >= 3_840 && old(f).move_count >= 1 ==> 200 * off <= 256 * moved + 255
        },
{
    if old(f).smoothed != 0xFFFF_FFFF {
        let was = old(f).smoothed as int;
        let r = reading as int;
        let off = volume::apart(reading, old(f).smoothed);
        let s = volume::share(off);
        if off >= 1_280 {
            assert(80 <= s <= 200);
            if old(f).move_count >= 1 {
                let v = (was * (256 - s) + r * s) / 256;
                assert(was * (256 - s) + r * s == 256 * was + s * (r - was)) by (nonlinear_arith);
                if r >= was {
                    assert(80 * off <= s * (r - was) <= 200 * off) by (nonlinear_arith)
                        requires
                            80 <= s <= 200,
                            off == r - was,
                            off >= 0,
                    ;
                } else {
                    assert(s * (r - was) == -(s * off)) by (nonlinear_arith)
                        requires
                            off == was - r,
                    ;
                    assert(80 * off <= s * off <= 200 * off) by (nonlinear_arith)
                        requires
                            80 <= s <= 200,
                            off >= 0,
                    ;
                }
                crate::volume::law_volume_moves_towards_knob(*old(f), reading);
            }
        }
    }
}

/// A new volume is published where it is at least five off the last one, or where there was none, and
/// only while the knob is in use.
pub proof fn law_volume_is_published(vol: u8, last: u8, in_use: bool, r: u8)
    requires
        call_ensures(volume::publish, (vol, last, in_use), r),
    ensures
        !in_use ==> r == last,
        in_use && last == 255 ==> r == vol,
        in_use && (vol >= last + 5 || last >= vol + 5) ==> r == vol,
        in_use && last != 255 && vol < last + 5 && last < vol + 5 ==> r == last,
{
}

/// How far a volume follows grows evenly with how far the knob is off: from 80 parts in 256 at five
/// steps to 200 at fifteen, and no further beyond.
pub proof fn law_volume_share(f: &mut VolumeFilter, reading: u32, vol: u8, off: int, share: int)
    requires
        old(f).valid(),
        old(f).smoothed != 0xFFFF_FFFF,
        old(f).move_count >= 1,
        reading <= 39_168,
        call_ensures(VolumeFilter::track, (f, reading), vol),
        off == reading - old(f).smoothed || off == old(f).smoothed - reading,
        off >= 5 * 256,
        off < 15 * 256 ==> 2560 * (share - 80) <= 120 * (off - 1280) < 2560 * (share - 79),
        off >= 15 * 256 ==> share == 200,
    ensures
        reading >= old(f).smoothed ==> share * off - 255 <= 256 * (final(f).smoothed - old(f).smoothed)
            <= share * off,
        reading < old(f).smoothed ==> share * off <= 256 * (old(f).smoothed - final(f).smoothed)
            <= share * off + 255,
{
    let was = old(f).smoothed as int;
    let r = reading as int;
    let s = volume::share(off);
    assert(off == volume::apart(reading, old(f).smoothed));
    assert(s == share);
    assert(was * (256 - s) + r * s == 256 * was + s * (r - was)) by (nonlinear_arith);
    let v = (was * (256 - s) + r * s) / 256;
    assert(0 <= s <= 200);
    assert(0 <= s * off <= 200 * off) by (nonlinear_arith)
        requires
            0 <= s <= 200,
            off >= 0,
    ;
    if r >= was {
        assert(off == r - was);
        assert(s * (r - was) == s * off);
        assert(0 <= v <= u32::MAX);
    } else {
        assert(s * (r - was) == -(s * off)) by (nonlinear_arith)
            requires
                off == was - r,
        ;
        assert(0 <= v <= u32::MAX);
    }
    assert(final(f).smoothed == v);
}

/// What was stored for a range is what is held ready for it, and for no other; what was fetched of the
/// chart is what is held ready for the chart.
pub proof fn law_fetched_texts_are_held(
    c: &mut ChartCache,
    t: &mut ChartRefresher,
    d: &mut ChartCache,
    hours: u32,
    i: usize,
    fetched: String,
    other: u32,
)
    requires
        call_ensures(dht22::slot_index, (hours,), Some(i)),
        call_ensures(ChartCache::store_range, (c, i, Some(fetched)), ()),
        other != hours,
        call_ensures(ChartRefresher::fetched, (t, d, Some(fetched)), ()),
    ensures
        dht22::cached_range(*final(c), hours) == Some(fetched@),
        dht22::cached_range(*final(c), other) == dht22::cached_range(*old(c), other),
        dht22::text_of(final(d).chart) == Some(fetched@),
        other != 1 && other != 6 && other != 24 ==> dht22::cached_range(*final(c), other) is None,
{
}

} // verus!
