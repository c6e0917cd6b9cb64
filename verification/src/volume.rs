//! Volume potentiometer: noise rejection, calibration, and a filter that stands still while the
//! knob does.

use vstd::prelude::*;

use crate::config;
use crate::media;

verus! {

/// The volume is filtered in 256ths; its range is 0 to this.
pub const FINE_MAX: u32 = 39_168;

/// Readings nearer to the filtered value than this do not move it.
pub const FREEZE: u32 = 1_280;

/// Readings at least this far away are followed fast.
pub const FAR: u32 = 3_840;

/// The filter has not seen a reading.
pub const NO_VALUE: u32 = 0xFFFF_FFFF;

/// Smallest first.
pub open spec fn by_size() -> spec_fn(u16, u16) -> bool {
    |a: u16, b: u16| a <= b
}

/// The samples in order of size.
pub open spec fn in_order(s: Seq<u16>) -> Seq<u16> {
    s.sort_by(by_size())
}

spec fn ascending(s: Seq<u16>, n: int) -> bool {
    forall|i: int, j: int| 0 <= i <= j < n ==> #[trigger] s[i] <= #[trigger] s[j]
}

proof fn lemma_swap_keeps_samples(s: Seq<u16>, i: int, j: int)
    requires
        0 <= i < j < s.len(),
    ensures
        s.update(i, s[j]).update(j, s[i]).to_multiset() == s.to_multiset(),
{
    let t = s.update(i, s[j]);
    vstd::seq_lib::to_multiset_update(s, i, s[j]);
    vstd::seq_lib::to_multiset_update(t, j, s[i]);
    vstd::seq_lib::to_multiset_contains(s, s[i]);
    vstd::seq_lib::to_multiset_contains(s, s[j]);
    assert(s.contains(s[i]));
    assert(s.contains(s[j]));
    assert(t[j] == s[j]);
    assert(t.update(j, s[i]).to_multiset() =~= s.to_multiset());
}

/// Moves sample `n` down to its place among those before it.
fn insert(s: &mut [u16; 15], n: usize)
    requires
        n < 15,
        ascending(old(s)@, n as int),
    ensures
        ascending(final(s)@, n + 1),
        final(s)@.to_multiset() == old(s)@.to_multiset(),
{
    let mut k: usize = n;
    while k > 0 && s[k - 1] > s[k]
        invariant
            k <= n < 15,
            s@.to_multiset() == old(s)@.to_multiset(),
            forall|i: int, j: int|
                0 <= i <= j <= n && i != k && j != k ==> #[trigger] s@[i] <= #[trigger] s@[j],
            forall|j: int| k < j <= n ==> s@[k as int] < #[trigger] s@[j],
        decreases k,
    {
        let a: u16 = s[k - 1];
        let b: u16 = s[k];
        let ghost before = s@;
        s[k - 1] = b;
        s[k] = a;
        proof {
            lemma_swap_keeps_samples(before, k - 1, k as int);
            assert(s@ =~= before.update(k - 1, b).update(k as int, a));
        }
        k -= 1;
    }
    assert forall|i: int, j: int| 0 <= i <= j < n + 1 implies #[trigger] s@[i] <= #[trigger] s@[j] by {
        if i == k && j != k {
            assert(s@[k as int] < s@[j]);
        }
        if j == k && i != k {
            assert(s@[i] <= s@[k - 1]);
        }
    }
}

/// The mean of the middle seven of fifteen samples: the four smallest and the four largest do not
/// count.
pub open spec fn middle_mean(s: Seq<u16>) -> int {
    let o = in_order(s);
    (o[4] + o[5] + o[6] + o[7] + o[8] + o[9] + o[10]) / 7
}

pub fn trimmed_mean(samples: &[u16; 15]) -> (r: u32)
    ensures
        r == middle_mean(samples@),
        r <= 0xFFFF,
{
    let mut s: [u16; 15] = *samples;
    let mut n: usize = 1;
    while n < 15
        invariant
            1 <= n <= 15,
            ascending(s@, n as int),
            s@.to_multiset() == samples@.to_multiset(),
        decreases 15 - n,
    {
        insert(&mut s, n);
        n += 1;
    }
    proof {
        let leq = by_size();
        assert(vstd::relations::total_ordering(leq));
        samples@.lemma_sort_by_ensures(leq);
        assert forall|i: int, j: int| 0 <= i < j < s@.len() implies #[trigger] leq(s@[i], s@[j]) by {
            assert(s@[i] <= s@[j]);
        }
        vstd::seq_lib::lemma_sorted_unique(s@, in_order(samples@), leq);
    }
    (s[4] as u32 + s[5] as u32 + s[6] as u32 + s[7] as u32 + s[8] as u32 + s[9] as u32
        + s[10] as u32) / 7
}

/// A reading within the knob's own range, stretched to 0 to 4095.
pub open spec fn stretched(raw: u32) -> int {
    let bounded = if raw < config::POT_ADC_MIN {
        config::POT_ADC_MIN
    } else if raw > config::POT_ADC_MAX {
        config::POT_ADC_MAX
    } else {
        raw
    };
    (bounded - config::POT_ADC_MIN) * 4095 / (config::POT_ADC_MAX - config::POT_ADC_MIN)
}

pub fn calibrate(raw: u32) -> (r: u32)
    ensures
        r == stretched(raw),
        r <= 4095,
{
    let bounded: u32 = if raw < config::POT_ADC_MIN {
        config::POT_ADC_MIN
    } else if raw > config::POT_ADC_MAX {
        config::POT_ADC_MAX
    } else {
        raw
    };
    (bounded - config::POT_ADC_MIN) * 4095 / (config::POT_ADC_MAX - config::POT_ADC_MIN)
}

/// The knob's stops give the ends of the range, and turning it up never turns the reading down.
pub proof fn law_stops_reach_ends(a: u32, b: u32)
    ensures
        stretched(config::POT_ADC_MIN) == 0,
        stretched(config::POT_ADC_MAX) == 4095,
        a <= b ==> stretched(a) <= stretched(b),
{
}

/// Readings below this are silence.
pub const SILENT: u32 = 10;

pub fn is_silent(calibrated: u32) -> (r: bool)
    ensures
        r == (calibrated < SILENT),
{
    calibrated < SILENT
}

/// The filter: its value in 256ths, and how many readings in a row have been off it.
#[derive(Clone, Copy, PartialEq, Eq, Structural, Debug)]
pub struct VolumeFilter {
    pub smoothed: u32,
    pub move_count: u32,
}

pub open spec fn apart(a: u32, b: u32) -> int {
    if a < b {
        b - a
    } else {
        a - b
    }
}

/// How much of a reading is taken, in 256ths.
pub open spec fn share(deviation: int) -> int {
    if deviation >= FAR {
        200
    } else {
        80 + (deviation - FREEZE) * 120 / 2560
    }
}

/// The value that a filter stands at when a reading comes: its own, or the reading if it is the
/// first.
pub open spec fn standing(f: VolumeFilter, reading: u32) -> u32 {
    if f.smoothed == NO_VALUE {
        reading
    } else {
        f.smoothed
    }
}

/// What a reading makes of the filter. A reading near its value leaves it; the second in a row that
/// is off moves it.
pub open spec fn followed(f: VolumeFilter, reading: u32) -> VolumeFilter {
    let base = standing(f, reading);
    let deviation = apart(reading, base);
    let count = if deviation < FREEZE {
        0
    } else if f.move_count < u32::MAX {
        f.move_count + 1
    } else {
        f.move_count as int
    };
    VolumeFilter {
        smoothed: if count >= 2 {
            ((base * (256 - share(deviation)) + reading * share(deviation)) / 256) as u32
        } else {
            base
        },
        move_count: count as u32,
    }
}

impl VolumeFilter {
    pub open spec fn valid(self) -> bool {
        self.smoothed <= FINE_MAX || self.smoothed == NO_VALUE
    }

    pub fn new() -> (r: Self)
        ensures
            r == (VolumeFilter { smoothed: NO_VALUE, move_count: 0 }),
            r.valid(),
    {
        VolumeFilter { smoothed: NO_VALUE, move_count: 0 }
    }

    /// Takes a reading. Returns the volume, in the internal range.
    pub fn track(&mut self, reading: u32) -> (vol: u8)
        requires
            old(self).valid(),
            reading <= FINE_MAX,
        ensures
            *final(self) == followed(*old(self), reading),
            final(self).valid(),
            final(self).smoothed <= FINE_MAX,
            vol == final(self).smoothed / 256,
            vol <= media::VOLUME_MAX,
    {
        if self.smoothed == NO_VALUE {
            self.smoothed = reading;
        }
        let base: u32 = self.smoothed;
        let deviation: u32 = if reading < base {
            base - reading
        } else {
            reading - base
        };
        if deviation >= FREEZE {
            if self.move_count < u32::MAX {
                self.move_count = self.move_count + 1;
            }
        } else {
            self.move_count = 0;
        }
        if self.move_count >= 2 {
            let alpha: u32 = if deviation >= FAR {
                200
            } else {
                80 + (deviation - FREEZE) * 120 / 2560
            };
            proof {
                lemma_mix_between(base as int, reading as int, alpha as int);
                assert(base * (256 - alpha) <= FINE_MAX * 256) by (nonlinear_arith)
                    requires
                        base <= FINE_MAX,
                        alpha <= 200,
                ;
                assert(reading * alpha <= FINE_MAX * 200) by (nonlinear_arith)
                    requires
                        reading <= FINE_MAX,
                        alpha <= 200,
                ;
            }
            self.smoothed = (base * (256 - alpha) + reading * alpha) / 256;
        }
        (self.smoothed / 256) as u8
    }
}

proof fn lemma_mix_between(a: int, b: int, alpha: int)
    requires
        0 <= a,
        0 <= b,
        0 <= alpha <= 256,
    ensures
        a <= b ==> a <= (a * (256 - alpha) + b * alpha) / 256 <= b,
        b <= a ==> b <= (a * (256 - alpha) + b * alpha) / 256 <= a,
{
    if a <= b {
        assert(a * 256 <= a * (256 - alpha) + b * alpha <= b * 256) by (nonlinear_arith)
            requires
                0 <= a <= b,
                0 <= alpha <= 256,
        ;
    } else {
        assert(b * 256 <= a * (256 - alpha) + b * alpha <= a * 256) by (nonlinear_arith)
            requires
                0 <= b <= a,
                0 <= alpha <= 256,
        ;
    }
}

/// While the knob is still the volume does not change at all.
pub proof fn law_still_knob_is_frozen(f: VolumeFilter, reading: u32)
    requires
        f.smoothed != NO_VALUE,
        apart(reading, f.smoothed) < FREEZE,
    ensures
        followed(f, reading).smoothed == f.smoothed,
        followed(f, reading).move_count == 0,
{
}

/// A single reading that is off, between readings that are not, is not seen.
pub proof fn law_single_spike_is_invisible(f: VolumeFilter, spike: u32, still: u32)
    requires
        f.smoothed != NO_VALUE,
        f.move_count == 0,
        apart(still, f.smoothed) < FREEZE,
    ensures
        followed(f, spike).smoothed == f.smoothed,
        followed(followed(f, spike), still).smoothed == f.smoothed,
        followed(followed(f, spike), still).move_count == 0,
{
}

/// The volume never leaves the stretch between where it stands and where the knob is.
pub proof fn law_volume_moves_towards_knob(f: VolumeFilter, reading: u32)
    requires
        f.valid(),
        f.smoothed != NO_VALUE,
        reading <= FINE_MAX,
    ensures
        f.smoothed <= reading ==> f.smoothed <= followed(f, reading).smoothed <= reading,
        reading <= f.smoothed ==> reading <= followed(f, reading).smoothed <= f.smoothed,
{
    let d = apart(reading, f.smoothed);
    if d >= FREEZE {
        assert(80 <= share(d) <= 200);
        lemma_mix_between(f.smoothed as int, reading as int, share(d));
    }
}

/// The volume to publish: the new one where none was published or it is at least 5 off, and only
/// where the knob is in use.
pub fn publish(vol: u8, published: u8, in_use: bool) -> (r: u8)
    ensures
        r == if in_use && (published == media::NO_VOLUME || vol - published >= 5 || published - vol
            >= 5) {
            vol
        } else {
            published
        },
{
    if !in_use {
        return published;
    }
    let off: u8 = if vol < published {
        published - vol
    } else {
        vol - published
    };
    if published == media::NO_VOLUME || off >= 5 {
        vol
    } else {
        published
    }
}

} // verus!
