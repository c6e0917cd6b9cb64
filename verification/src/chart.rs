//! Price chart: a line through the last samples, drawn with custom characters.
//!
//! The chart has three character rows of eight pixels, so heights run from 0 (bottom) to 23. What
//! takes real arithmetic comes in ready: the heights, and the texts of percentages and prices.

use vstd::prelude::*;

use crate::bits;
use crate::cgram;
use crate::config::Screen;
use crate::double::Double;
use crate::glyphs::Glyph;
use crate::lcd;
use crate::lcd::{Lcd, LcdOp};
use crate::screen;
use crate::screen::{RowCache, UiState};

verus! {

/// Max data points, and max CGRAM slots.
pub const DATA_MAX: usize = 8;

/// Columns 0 to 4 hold the min/max price labels.
pub const LABEL_COLS: usize = 5;

/// Columns available for chart data.
pub const CHART_COLS: usize = 15;

pub open spec fn abs(a: int) -> int {
    if a < 0 {
        -a
    } else {
        a
    }
}

pub open spec fn least(a: int, b: int) -> int {
    if a < b {
        a
    } else {
        b
    }
}

pub open spec fn most(a: int, b: int) -> int {
    if a < b {
        b
    } else {
        a
    }
}

/// Height of the line in column `x` (0 to 4) of a cell that it crosses from `left` to `right`,
/// rounded towards `left`.
pub open spec fn height_at(left: int, right: int, x: int) -> int {
    if right >= left {
        left + (right - left) * x / 4
    } else {
        left - (left - right) * x / 4
    }
}

/// Column of the line at height `h`, for a line that is not level.
pub open spec fn column_at(left: int, right: int, h: int) -> int {
    abs(h - left) * 4 / abs(right - left)
}

/// Whether the pixel at column `x` and height `h` belongs to the line: one pixel per column, and
/// one pixel per height so that steep segments stay connected.
pub open spec fn on_line(left: int, right: int, x: int, h: int) -> bool {
    ||| h == height_at(left, right, x)
    ||| left != right && least(left, right) <= h <= most(left, right) && x == column_at(
        left,
        right,
        h,
    )
}

/// The part of the line that lies in the cell whose lowest pixel is at height `base`.
pub open spec fn line_part(left: int, right: int, base: int) -> Seq<u8> {
    bits::glyph_of(|row: int, col: int| on_line(left, right, col, base + 7 - row))
}

proof fn lemma_height_between(left: int, right: int, x: int)
    requires
        0 <= x <= 4,
    ensures
        least(left, right) <= height_at(left, right, x) <= most(left, right),
{
    let d = abs(right - left);
    assert(0 <= d * x / 4 <= d) by (nonlinear_arith)
        requires
            0 <= x <= 4,
            0 <= d,
    ;
}

proof fn lemma_column_between(left: int, right: int, h: int)
    requires
        left != right,
        least(left, right) <= h <= most(left, right),
    ensures
        0 <= column_at(left, right, h) <= 4,
{
    let k = abs(h - left);
    let d = abs(right - left);
    assert(0 <= k * 4 / d <= 4) by (nonlinear_arith)
        requires
            0 <= k <= d,
            0 < d,
    ;
}

/// Compute a 5x8 glyph for the diagonal line segment through one character cell.
pub fn line_glyph(left_h: i32, right_h: i32, cell_base: i32) -> (g: Glyph)
    ensures
        g@ == line_part(left_h as int, right_h as int, cell_base as int),
{
    let mut g: Glyph = [0u8; 8];
    let ghost l = left_h as int;
    let ghost r = right_h as int;
    let ghost base = cell_base as int;
    let left: i64 = left_h as i64;
    let right: i64 = right_h as i64;
    let bottom: i64 = cell_base as i64;
    let top: i64 = bottom + 7;
    let low: i64 = if left < right {
        left
    } else {
        right
    };
    let high: i64 = if left < right {
        right
    } else {
        left
    };
    proof {
        bits::lemma_zero_has_no_bits();
    }
    if high < bottom || low > top {
        proof {
            assert forall|row: int, col: int|
                0 <= row < 8 && 0 <= col < 5 implies #[trigger] bits::lit(g@, row, col) == on_line(
                l,
                r,
                col,
                base + 7 - row,
            ) by {
                lemma_height_between(l, r, col);
            }
            bits::lemma_glyph_of(g@, |row: int, col: int| on_line(l, r, col, base + 7 - row));
        }
        return g;
    }
    let delta: i64 = high - low;
    // One pixel per column
    let mut x: u8 = 0;
    while x < 5
        invariant
            x <= 5,
            l == left,
            r == right,
            base == bottom,
            top == bottom + 7,
            i32::MIN <= bottom <= i32::MAX,
            i32::MIN <= left <= i32::MAX,
            i32::MIN <= right <= i32::MAX,
            delta == abs(r - l),
            bits::five_wide(g@),
            forall|row: int, col: int|
                0 <= row < 8 && 0 <= col < 5 ==> #[trigger] bits::lit(g@, row, col) == (col < x
                    && base + 7 - row == height_at(l, r, col)),
        decreases 5 - x,
    {
        assert(0 <= delta * x <= 4 * delta) by (nonlinear_arith)
            requires
                0 <= delta,
                0 <= x <= 4,
        ;
        let step: i64 = delta * (x as i64) / 4;
        let h: i64 = if right >= left {
            left + step
        } else {
            left - step
        };
        assert(h == height_at(l, r, x as int));
        let ghost before = g@;
        if h >= bottom && h <= top {
            let row: usize = (7 - (h - bottom)) as usize;
            g[row] = bits::set_bit(g[row], 4 - x);
            assert forall|a: int, c: int| 0 <= a < 8 && 0 <= c < 5 implies #[trigger] bits::lit(
                g@,
                a,
                c,
            ) == (c < x + 1 && base + 7 - a == height_at(l, r, c)) by {
                assert(bits::lit(before, a, c) == (c < x && base + 7 - a == height_at(l, r, c)));
                assert(g@[a] == before[a] || a == row);
            }
        } else {
            assert forall|a: int, c: int| 0 <= a < 8 && 0 <= c < 5 implies #[trigger] bits::lit(
                g@,
                a,
                c,
            ) == (c < x + 1 && base + 7 - a == height_at(l, r, c)) by {}
        }
        x += 1;
    }
    // One pixel per height
    if delta != 0 {
        let first: i64 = if low > bottom {
            low
        } else {
            bottom
        };
        let last: i64 = if high < top {
            high
        } else {
            top
        };
        let mut h: i64 = first;
        while h <= last
            invariant
                first <= h <= last + 1,
                l == left,
                r == right,
                base == bottom,
                top == bottom + 7,
                i32::MIN <= bottom <= i32::MAX,
                i32::MIN <= left <= i32::MAX,
                i32::MIN <= right <= i32::MAX,
                delta == abs(r - l),
                delta != 0,
                low == least(l, r),
                high == most(l, r),
                first == most(low as int, bottom as int),
                last == least(high as int, top as int),
                bits::five_wide(g@),
                forall|row: int, col: int|
                    0 <= row < 8 && 0 <= col < 5 ==> #[trigger] bits::lit(g@, row, col) == (base
                        + 7 - row == height_at(l, r, col) || (first <= base + 7 - row < h && col
                        == column_at(l, r, base + 7 - row))),
            decreases last + 1 - h,
        {
            let away: i64 = if h >= left {
                h - left
            } else {
                left - h
            };
            let x: u8 = {
                proof {
                    lemma_column_between(l, r, h as int);
                }
                (away * 4 / delta) as u8
            };
            assert(x == column_at(l, r, h as int));
            let row: usize = (7 - (h - bottom)) as usize;
            let ghost before = g@;
            g[row] = bits::set_bit(g[row], 4 - x);
            assert forall|a: int, c: int| 0 <= a < 8 && 0 <= c < 5 implies #[trigger] bits::lit(
                g@,
                a,
                c,
            ) == (base + 7 - a == height_at(l, r, c) || (first <= base + 7 - a < h + 1 && c
                == column_at(l, r, base + 7 - a))) by {
                assert(bits::lit(before, a, c) == (base + 7 - a == height_at(l, r, c) || (first
                    <= base + 7 - a < h && c == column_at(l, r, base + 7 - a))));
                assert(g@[a] == before[a] || a == row);
            }
            h += 1;
        }
    }
    proof {
        assert forall|row: int, col: int|
            0 <= row < 8 && 0 <= col < 5 implies #[trigger] bits::lit(g@, row, col) == on_line(
            l,
            r,
            col,
            base + 7 - row,
        ) by {}
        bits::lemma_glyph_of(g@, |row: int, col: int| on_line(l, r, col, base + 7 - row));
    }
    g
}

/// Number of bits in which two bytes differ, counted over the first `n` bits.
pub open spec fn bits_apart(a: u8, b: u8, n: nat) -> nat
    decreases n,
{
    if n == 0 {
        0
    } else {
        bits_apart(a, b, (n - 1) as nat) + if bits::bit(a, n - 1) != bits::bit(b, n - 1) {
            1nat
        } else {
            0
        }
    }
}

/// Number of bits in which the first `n` rows of two glyphs differ.
pub open spec fn distance(a: Seq<u8>, b: Seq<u8>, n: nat) -> nat
    decreases n,
{
    if n == 0 {
        0
    } else {
        distance(a, b, (n - 1) as nat) + bits_apart(a[n - 1], b[n - 1], 8)
    }
}

fn count_apart(a: u8, b: u8) -> (n: u32)
    ensures
        n == bits_apart(a, b, 8),
        n <= 8,
{
    let mut n: u32 = 0;
    let mut k: u8 = 0;
    while k < 8
        invariant
            k <= 8,
            n <= k,
            n == bits_apart(a, b, k as nat),
        decreases 8 - k,
    {
        if bits::test_bit(a, k) != bits::test_bit(b, k) {
            n += 1;
        }
        k += 1;
    }
    n
}

fn hamming(a: &Glyph, b: &Glyph) -> (n: u32)
    ensures
        n == distance(a@, b@, 8),
        n <= 64,
{
    let mut n: u32 = 0;
    let mut row: usize = 0;
    while row < 8
        invariant
            row <= 8,
            n <= 8 * row,
            n == distance(a@, b@, row as nat),
        decreases 8 - row,
    {
        n += count_apart(a[row], b[row]);
        row += 1;
    }
    n
}

/// The first of the first `n` glyphs that is nearest to `g`.
pub open spec fn nearest(reg: Seq<Seq<u8>>, g: Seq<u8>, n: nat) -> int
    decreases n,
{
    if n <= 1 {
        0
    } else {
        let c = nearest(reg, g, (n - 1) as nat);
        if distance(reg[n - 1], g, 8) < distance(reg[c], g, 8) {
            n - 1
        } else {
            c
        }
    }
}

/// Slot `s` is the first that holds `g`.
pub open spec fn first_with(reg: Seq<Seq<u8>>, g: Seq<u8>, s: int) -> bool {
    &&& 0 <= s < reg.len()
    &&& reg[s] == g
    &&& forall|t: int| 0 <= t < s ==> #[trigger] reg[t] != g
}

/// The character that stands for `g`, where `reg` holds the glyphs that have a slot: its own slot;
/// else the next free one; else the slot of the nearest glyph, or a bar where more than ten pixels
/// differ.
pub open spec fn code_for(reg: Seq<Seq<u8>>, g: Seq<u8>) -> u8 {
    if exists|s: int| first_with(reg, g, s) {
        (choose|s: int| first_with(reg, g, s)) as u8
    } else if reg.len() < 8 {
        reg.len() as u8
    } else if distance(reg[nearest(reg, g, 8)], g, 8) > 10 {
        0x7C
    } else {
        nearest(reg, g, 8) as u8
    }
}

/// The glyphs that have a slot once `g` has been placed.
pub open spec fn placed(reg: Seq<Seq<u8>>, g: Seq<u8>) -> Seq<Seq<u8>> {
    if !(exists|s: int| first_with(reg, g, s)) && reg.len() < 8 {
        reg.push(g)
    } else {
        reg
    }
}

/// The first `n` glyphs of an array.
pub open spec fn registered(reg: [Glyph; 8], n: int) -> Seq<Seq<u8>> {
    Seq::new(n as nat, |i: int| reg[i]@)
}

/// Find or assign a CGRAM slot for this glyph.
pub fn slot_for(reg: &mut [Glyph; 8], count: &mut usize, g: Glyph) -> (code: u8)
    requires
        *old(count) <= 8,
    ensures
        code == code_for(registered(*old(reg), *old(count) as int), g@),
        *final(count) <= 8,
        registered(*final(reg), *final(count) as int) == placed(
            registered(*old(reg), *old(count) as int),
            g@,
        ),
        *old(count) <= *final(count),
        forall|i: int| *final(count) <= i < 8 ==> #[trigger] final(reg)[i] == old(reg)[i],
{
    let ghost held = registered(*reg, *count as int);
    let mut s: usize = 0;
    while s < *count
        invariant
            s <= *count <= 8,
            *count == *old(count),
            *reg == *old(reg),
            held == registered(*reg, *count as int),
            forall|t: int| 0 <= t < s ==> #[trigger] held[t] != g@,
        decreases *count - s,
    {
        if bits::bytes_equal(reg[s].as_slice(), g.as_slice()) {
            proof {
                assert(held[s as int] == g@);
                assert(first_with(held, g@, s as int));
                let t = choose|t: int| first_with(held, g@, t);
                assert(t == s) by {
                    assert(first_with(held, g@, t));
                    if t < s {
                        assert(held[t] != g@);
                    }
                    if s < t {
                        assert(held[s as int] != g@);
                    }
                }
            }
            return s as u8;
        }
        assert(held[s as int] == reg[s as int]@);
        s += 1;
    }
    proof {
        assert(!(exists|t: int| first_with(held, g@, t))) by {
            if exists|t: int| first_with(held, g@, t) {
                let t = choose|t: int| first_with(held, g@, t);
                assert(held[t] != g@);
            }
        }
    }
    if *count < 8 {
        let slot: u8 = *count as u8;
        reg[*count] = g;
        *count += 1;
        proof {
            assert(registered(*reg, *count as int) =~= held.push(g@));
        }
        return slot;
    }
    let mut best: usize = 0;
    let mut best_dist: u32 = hamming(&reg[0], &g);
    assert(held[0] == reg[0]@);
    let mut s: usize = 1;
    while s < 8
        invariant
            1 <= s <= 8,
            *count == 8,
            held == registered(*reg, 8),
            *reg == *old(reg),
            best == nearest(held, g@, s as nat),
            best < s,
            best_dist == distance(held[best as int], g@, 8),
        decreases 8 - s,
    {
        let dist: u32 = hamming(&reg[s], &g);
        assert(held[s as int] == reg[s as int]@);
        if dist < best_dist {
            best_dist = dist;
            best = s;
        }
        s += 1;
    }
    if best_dist > 10 {
        0x7C
    } else {
        best as u8
    }
}

/// What is drawn: the glyphs that have a slot so far, and the three chart rows.
pub ghost struct Drawing {
    pub reg: Seq<Seq<u8>>,
    pub rows: Seq<Seq<u8>>,
}

/// Where the line enters the cell of sample `i`: halfway to the sample before it.
pub open spec fn left_end(heights: Seq<i32>, i: int) -> int {
    if i > 0 {
        (heights[i - 1] + heights[i]) / 2
    } else {
        heights[i] as int
    }
}

/// Where the line leaves the cell of sample `i`: halfway to the sample behind it.
pub open spec fn right_end(heights: Seq<i32>, i: int) -> int {
    if i < heights.len() - 1 {
        (heights[i] + heights[i + 1]) / 2
    } else {
        heights[i] as int
    }
}

impl Drawing {
    /// A glyph put into a row. An empty one leaves the row as it is.
    pub open spec fn put(self, row: int, col: int, g: Seq<u8>) -> Drawing {
        if g == cgram::BLANK@ {
            self
        } else {
            Drawing {
                reg: placed(self.reg, g),
                rows: self.rows.update(row, self.rows[row].update(col, code_for(self.reg, g))),
            }
        }
    }

    /// The column of sample `i`, drawn from top to bottom.
    pub open spec fn column(self, heights: Seq<i32>, i: int) -> Drawing {
        let l = left_end(heights, i);
        let r = right_end(heights, i);
        let col = first_column(heights.len()) + i;
        self.put(0, col, line_part(l, r, 16)).put(1, col, line_part(l, r, 8)).put(
            2,
            col,
            line_part(l, r, 0),
        )
    }

    /// The first `n` samples.
    pub open spec fn line(self, heights: Seq<i32>, n: nat) -> Drawing
        decreases n,
    {
        if n == 0 {
            self
        } else {
            self.line(heights, (n - 1) as nat).column(heights, n - 1)
        }
    }
}

/// The chart is centred in its columns.
pub open spec fn first_column(n: nat) -> int {
    5 + (15 - n) / 2
}

/// Neighbouring cells join: the line leaves one where it enters the next.
pub proof fn law_segments_meet(heights: Seq<i32>, i: int)
    requires
        0 <= i < heights.len() - 1,
    ensures
        right_end(heights, i) == left_end(heights, i + 1),
{
}

proof fn lemma_quotient_step(k: int, d: int)
    requires
        d >= 4,
        k >= 0,
    ensures
        k * 4 / d <= (k + 1) * 4 / d <= k * 4 / d + 1,
{
    assert(k * 4 / d <= (k + 1) * 4 / d <= k * 4 / d + 1) by (nonlinear_arith)
        requires
            d >= 4,
            k >= 0,
    ;
}

/// There are no gaps, whatever the slope. Every column of the cell and every height that the line
/// spans has a pixel; from column to column the height changes by at most one where the line is
/// flat, and from height to height the column changes by at most one where it is steep.
pub proof fn law_line_has_no_gaps(left: int, right: int, x: int, h: int)
    requires
        0 <= x < 5,
        least(left, right) <= h <= most(left, right),
    ensures
        on_line(left, right, x, height_at(left, right, x)),
        least(left, right) <= height_at(left, right, x) <= most(left, right),
        exists|c: int| 0 <= c < 5 && #[trigger] on_line(left, right, c, h),
        abs(right - left) <= 4 && x < 4 ==> abs(
            height_at(left, right, x + 1) - height_at(left, right, x),
        ) <= 1,
        abs(right - left) >= 4 && h < most(left, right) ==> abs(
            column_at(left, right, h + 1) - column_at(left, right, h),
        ) <= 1,
{
    lemma_height_between(left, right, x);
    if left == right {
        assert(height_at(left, right, 0) == h);
        assert(on_line(left, right, 0, h));
    } else {
        lemma_column_between(left, right, h);
        assert(on_line(left, right, column_at(left, right, h), h));
    }
    let d = abs(right - left);
    if d <= 4 && x < 4 {
        assert(d * x / 4 <= d * (x + 1) / 4 <= d * x / 4 + 1) by (nonlinear_arith)
            requires
                0 <= d <= 4,
                0 <= x,
        ;
    }
    if d >= 4 && h < most(left, right) {
        if right > left {
            lemma_quotient_step(h - left, d);
        } else {
            lemma_quotient_step(left - (h + 1), d);
        }
    }
}

/// A glyph that is placed again keeps its slot: the same shape is never given two.
pub proof fn law_same_glyph_same_slot(reg: Seq<Seq<u8>>, g: Seq<u8>)
    requires
        reg.len() <= 8,
        reg.len() < 8 || exists|s: int| first_with(reg, g, s),
    ensures
        placed(placed(reg, g), g) == placed(reg, g),
        code_for(placed(reg, g), g) == code_for(reg, g),
        code_for(reg, g) < placed(reg, g).len() <= 8,
        placed(reg, g)[code_for(reg, g) as int] == g,
{
    if !(exists|s: int| first_with(reg, g, s)) {
        let p = reg.push(g);
        assert forall|t: int| 0 <= t < reg.len() implies #[trigger] p[t] != g by {
            if reg[t] == g {
                lemma_first_with(reg, g, t);
            }
        }
        assert(first_with(p, g, reg.len() as int));
        let s = choose|s: int| first_with(p, g, s);
        assert(first_with(p, g, s));
        assert(s == reg.len()) by {
            if s < reg.len() {
                assert(p[s] != g);
            }
        }
    } else {
        let s = choose|s: int| first_with(reg, g, s);
        assert(first_with(reg, g, s));
    }
}

proof fn lemma_first_with(reg: Seq<Seq<u8>>, g: Seq<u8>, t: int)
    requires
        0 <= t < reg.len(),
        reg[t] == g,
    ensures
        exists|s: int| first_with(reg, g, s),
    decreases t,
{
    if exists|u: int| 0 <= u < t && #[trigger] reg[u] == g {
        let u = choose|u: int| 0 <= u < t && #[trigger] reg[u] == g;
        lemma_first_with(reg, g, u);
    } else {
        assert(first_with(reg, g, t));
    }
}

/// The samples that a chart shows: the last eight, or all where there are fewer.
pub open spec fn picked(prices: Seq<Double>) -> Seq<Double> {
    if prices.len() > DATA_MAX {
        prices.skip(prices.len() - DATA_MAX)
    } else {
        prices
    }
}

pub fn last_samples(prices: &[Double]) -> (r: &[Double])
    ensures
        r@ == picked(prices@),
        r@.len() <= DATA_MAX,
{
    let n: usize = prices.len();
    if n > DATA_MAX {
        assert(prices@.subrange(n - DATA_MAX, n as int) =~= picked(prices@));
        vstd::slice::slice_subrange(prices, n - DATA_MAX, n)
    } else {
        prices
    }
}

/// What a chart is drawn from, where it took real arithmetic to get it.
pub struct ChartText {
    /// Change from the first to the last sample, such as `+1.2%`. Absent where there are fewer than
    /// two samples or the first is not above zero.
    pub change: Option<String>,
    /// The current price.
    pub price: String,
    /// Highest and lowest price. Absent where they are alike.
    pub labels: Option<(String, String)>,
    /// Height of each sample, oldest first, between 0 and 23.
    pub heights: Vec<i32>,
}

impl ChartText {
    /// At most eight samples, and heights that fit the three rows.
    pub open spec fn valid(self) -> bool {
        &&& self.heights@.len() <= 8
        &&& forall|i: int| 0 <= i < self.heights@.len() ==> 0 <= #[trigger] self.heights@[i] <= 23
    }
}

/// The price that a screen shows.
pub open spec fn price_of(state: UiState) -> Double {
    match state.screen {
        Screen::Btc => state.data.price_btc,
        Screen::Sol => state.data.price_sol,
        Screen::Gold => state.data.price_gold,
        Screen::Oil => state.data.price_oil,
        Screen::UsdBrl => state.data.price_usd_brl,
    }
}

pub fn current_price(state: &UiState) -> (r: Double)
    ensures
        r == price_of(*state),
{
    match state.screen {
        Screen::Btc => state.data.price_btc,
        Screen::Sol => state.data.price_sol,
        Screen::Gold => state.data.price_gold,
        Screen::Oil => state.data.price_oil,
        Screen::UsdBrl => state.data.price_usd_brl,
    }
}

/// Five bytes, right-aligned and padded with blanks; of a longer text, the last five.
pub open spec fn last_five(b: Seq<u8>) -> Seq<u8> {
    Seq::new(
        5,
        |i: int|
            if i + b.len() >= 5 {
                b[i + b.len() - 5]
            } else {
                0x20
            },
    )
}

/// Fit a price text into exactly 5 bytes, right-aligned, space-padded.
pub fn short_price(text: &str) -> (buf: [u8; 5])
    ensures
        buf@ == last_five(vstd::utf8::encode_utf8(text@)),
{
    let bytes: &[u8] = text.as_bytes();
    let mut buf: [u8; 5] = [0x20u8; 5];
    let mut i: usize = 0;
    while i < 5
        invariant
            i <= 5,
            bytes@ == vstd::utf8::encode_utf8(text@),
            forall|k: int| 0 <= k < i ==> #[trigger] buf[k] == last_five(bytes@)[k],
            forall|k: int| i <= k < 5 ==> #[trigger] buf[k] == 0x20,
        decreases 5 - i,
    {
        if bytes.len() >= 5 - i {
            buf[i] = bytes[bytes.len() - (5 - i)];
        }
        i += 1;
    }
    assert(buf@ =~= last_five(bytes@));
    buf
}

/// The letters of an asset, four bytes.
pub open spec fn letters(screen: Screen) -> Seq<u8> {
    match screen {
        Screen::Btc => seq![0x42u8, 0x54, 0x43, 0x20],
        Screen::Sol => seq![0x53u8, 0x4F, 0x4C, 0x20],
        Screen::Gold => seq![0x47u8, 0x4F, 0x4C, 0x44],
        Screen::Oil => seq![0x4Fu8, 0x49, 0x4C, 0x20],
        Screen::UsdBrl => seq![0x42u8, 0x52, 0x4C, 0x20],
    }
}

/// First column of a text of `n` bytes that is centred on column 10.
pub open spec fn centred(n: nat) -> int {
    if n / 2 <= 10 {
        10 - n / 2
    } else {
        0
    }
}

/// The header row: asset, change in the middle, current price on the right. The change ends
/// before column 15; where it is long enough to reach them, it covers the letters.
pub open spec fn header(screen: Screen, change: Option<Seq<u8>>, price: Option<Seq<u8>>) -> Seq<u8> {
    Seq::new(
        20,
        |k: int|
            if k >= 15 {
                if price is Some {
                    last_five(price->0)[k - 15]
                } else {
                    0x20
                }
            } else if change is Some && centred(change->0.len()) <= k < centred(change->0.len())
                + change->0.len() {
                change->0[k - centred(change->0.len())]
            } else if k < 4 {
                letters(screen)[k]
            } else {
                0x20
            },
    )
}

pub open spec fn spaces() -> Seq<u8> {
    Seq::new(20, |k: int| 0x20u8)
}

/// A row with a five-byte label on the left.
pub open spec fn labelled(label: Seq<u8>) -> Seq<u8> {
    Seq::new(
        20,
        |k: int|
            if k < 5 {
                last_five(label)[k]
            } else {
                0x20
            },
    )
}

/// `  not enough data   `
pub open spec fn too_few() -> Seq<u8> {
    seq![
        0x20u8, 0x20, 0x6E, 0x6F, 0x74, 0x20, 0x65, 0x6E, 0x6F, 0x75, 0x67, 0x68, 0x20, 0x64,
        0x61, 0x74, 0x61, 0x20, 0x20, 0x20,
    ]
}

pub open spec fn bytes_of(s: Option<String>) -> Option<Seq<u8>> {
    match s {
        Some(t) => Some(vstd::utf8::encode_utf8(t@)),
        None => None,
    }
}

/// The chart rows before the line is drawn.
pub open spec fn ground(labels: Option<(String, String)>) -> Drawing {
    Drawing {
        reg: Seq::empty(),
        rows: match labels {
            Some(hl) => seq![
                labelled(vstd::utf8::encode_utf8(hl.0@)),
                spaces(),
                labelled(vstd::utf8::encode_utf8(hl.1@)),
            ],
            None => seq![spaces(), spaces(), spaces()],
        },
    }
}

/// The four rows of the chart.
pub open spec fn chart_rows(state: UiState, text: ChartText) -> Seq<Seq<u8>> {
    let top = header(
        state.screen,
        bytes_of(text.change),
        if price_of(state).above_zero() {
            Some(vstd::utf8::encode_utf8(text.price@))
        } else {
            None
        },
    );
    if text.heights@.len() < 2 {
        seq![top, spaces(), too_few(), spaces()]
    } else {
        seq![top] + ground(text.labels).line(text.heights@, text.heights@.len()).rows
    }
}

/// The glyphs of the chart, blank where a slot is not used.
pub open spec fn chart_glyphs(text: ChartText) -> Seq<Seq<u8>> {
    let reg = if text.heights@.len() < 2 {
        Seq::empty()
    } else {
        ground(text.labels).line(text.heights@, text.heights@.len()).reg
    };
    Seq::new(
        8,
        |i: int|
            if i < reg.len() {
                reg[i]
            } else {
                cgram::BLANK@
            },
    )
}

fn letters_of(screen: Screen) -> (r: [u8; 4])
    ensures
        r@ == letters(screen),
{
    let r: [u8; 4] = match screen {
        Screen::Btc => [0x42, 0x54, 0x43, 0x20],
        Screen::Sol => [0x53, 0x4F, 0x4C, 0x20],
        Screen::Gold => [0x47, 0x4F, 0x4C, 0x44],
        Screen::Oil => [0x4F, 0x49, 0x4C, 0x20],
        Screen::UsdBrl => [0x42, 0x52, 0x4C, 0x20],
    };
    assert(r@ =~= letters(screen));
    r
}

fn build_header(screen: Screen, change: &Option<String>, price: Option<&str>) -> (row: [u8; 20])
    ensures
        row@ == header(
            screen,
            bytes_of(*change),
            match price {
                Some(p) => Some(vstd::utf8::encode_utf8(p@)),
                None => None,
            },
        ),
{
    let mut row: [u8; 20] = [0x20u8; 20];
    let name: [u8; 4] = letters_of(screen);
    row[0] = name[0];
    row[1] = name[1];
    row[2] = name[2];
    row[3] = name[3];
    let ghost base = row@;
    if let Some(t) = change {
        let bytes: &[u8] = t.as_str().as_bytes();
        let half: usize = bytes.len() / 2;
        let start: usize = if half <= 10 {
            10 - half
        } else {
            0
        };
        let mut i: usize = 0;
        while i < bytes.len() && start + i < 15
            invariant
                i <= bytes@.len(),
                start == centred(bytes@.len()),
                0 <= start <= 10,
                start + i <= 15 || i == 0,
                forall|k: int|
                    0 <= k < 20 ==> #[trigger] row[k] == if start <= k < start + i {
                        bytes@[k - start]
                    } else {
                        base[k]
                    },
            decreases bytes@.len() - i,
        {
            row[start + i] = bytes[i];
            i += 1;
        }
    }
    let ghost mid = row@;
    if let Some(p) = price {
        let five: [u8; 5] = short_price(p);
        let mut i: usize = 0;
        while i < 5
            invariant
                i <= 5,
                forall|k: int|
                    0 <= k < 20 ==> #[trigger] row[k] == if 15 <= k < 15 + i {
                        five[k - 15]
                    } else {
                        mid[k]
                    },
            decreases 5 - i,
        {
            row[15 + i] = five[i];
            i += 1;
        }
    }
    proof {
        let want = header(
            screen,
            bytes_of(*change),
            match price {
                Some(p) => Some(vstd::utf8::encode_utf8(p@)),
                None => None,
            },
        );
        assert forall|k: int| 0 <= k < 20 implies #[trigger] row@[k] == want[k] by {
            assert(base[k] == if k < 4 {
                letters(screen)[k]
            } else {
                0x20
            });
            if k < 15 {
                assert(row@[k] == mid[k]);
            }
        }
        assert(row@ =~= want);
    }
    row
}

fn label_row(text: &str) -> (row: [u8; 20])
    ensures
        row@ == labelled(vstd::utf8::encode_utf8(text@)),
{
    let mut row: [u8; 20] = [0x20u8; 20];
    let five: [u8; 5] = short_price(text);
    row[0] = five[0];
    row[1] = five[1];
    row[2] = five[2];
    row[3] = five[3];
    row[4] = five[4];
    assert(row@ =~= labelled(vstd::utf8::encode_utf8(text@)));
    row
}

/// Puts a glyph into a row.
fn put_glyph(
    reg: &mut [Glyph; 8],
    count: &mut usize,
    row: &mut [u8; 20],
    col: usize,
    g: Glyph,
)
    requires
        *old(count) <= 8,
        col < 20,
        forall|i: int| *old(count) <= i < 8 ==> #[trigger] old(reg)[i]@ == cgram::BLANK@,
    ensures
        *final(count) <= 8,
        forall|i: int| *final(count) <= i < 8 ==> #[trigger] final(reg)[i]@ == cgram::BLANK@,
        g@ == cgram::BLANK@ ==> *final(row) == *old(row) && *final(count) == *old(count)
            && *final(reg) == *old(reg),
        g@ != cgram::BLANK@ ==> registered(*final(reg), *final(count) as int) == placed(
            registered(*old(reg), *old(count) as int),
            g@,
        ) && final(row)@ == old(row)@.update(
            col as int,
            code_for(registered(*old(reg), *old(count) as int), g@),
        ),
{
    if !bits::bytes_equal(g.as_slice(), cgram::BLANK.as_slice()) {
        let code: u8 = slot_for(reg, count, g);
        row[col] = code;
        assert forall|i: int| *count <= i < 8 implies #[trigger] reg[i]@ == cgram::BLANK@ by {
            assert(old(reg)[i]@ == cgram::BLANK@);
        }
    }
}

/// What an array of glyphs, of which the first `count` have a slot, and three rows stand for.
pub open spec fn drawing(
    reg: [Glyph; 8],
    count: usize,
    r1: [u8; 20],
    r2: [u8; 20],
    r3: [u8; 20],
) -> Drawing {
    Drawing { reg: registered(reg, count as int), rows: seq![r1@, r2@, r3@] }
}

/// Draws one cell column of the line.
fn draw_column(
    reg: &mut [Glyph; 8],
    count: &mut usize,
    r1: &mut [u8; 20],
    r2: &mut [u8; 20],
    r3: &mut [u8; 20],
    col: usize,
    lh: i32,
    rh: i32,
)
    requires
        *old(count) <= 8,
        col < 20,
        forall|i: int| *old(count) <= i < 8 ==> #[trigger] old(reg)[i]@ == cgram::BLANK@,
    ensures
        *final(count) <= 8,
        forall|i: int| *final(count) <= i < 8 ==> #[trigger] final(reg)[i]@ == cgram::BLANK@,
        drawing(*final(reg), *final(count), *final(r1), *final(r2), *final(r3)) == drawing(
            *old(reg),
            *old(count),
            *old(r1),
            *old(r2),
            *old(r3),
        ).put(0, col as int, line_part(lh as int, rh as int, 16)).put(
            1,
            col as int,
            line_part(lh as int, rh as int, 8),
        ).put(2, col as int, line_part(lh as int, rh as int, 0)),
{
    let ghost d0 = drawing(*reg, *count, *r1, *r2, *r3);
    let g1: Glyph = line_glyph(lh, rh, 16);
    put_glyph(reg, count, r1, col, g1);
    let ghost d1 = drawing(*reg, *count, *r1, *r2, *r3);
    assert(d1 == d0.put(0, col as int, g1@)) by {
        assert(d1.rows =~= d0.put(0, col as int, g1@).rows);
    }
    let g2: Glyph = line_glyph(lh, rh, 8);
    put_glyph(reg, count, r2, col, g2);
    let ghost d2 = drawing(*reg, *count, *r1, *r2, *r3);
    assert(d2 == d1.put(1, col as int, g2@)) by {
        assert(d2.rows =~= d1.put(1, col as int, g2@).rows);
    }
    let g3: Glyph = line_glyph(lh, rh, 0);
    put_glyph(reg, count, r3, col, g3);
    let ghost d3 = drawing(*reg, *count, *r1, *r2, *r3);
    assert(d3 == d2.put(2, col as int, g3@)) by {
        assert(d3.rows =~= d2.put(2, col as int, g3@).rows);
    }
}

/// Draws the line of all samples.
fn draw_line(rows: &mut [[u8; 20]; 3], heights: &[i32]) -> (r: ([Glyph; 8], usize))
    requires
        2 <= heights@.len() <= 8,
        forall|i: int| 0 <= i < heights@.len() ==> 0 <= #[trigger] heights@[i] <= 23,
    ensures
        r.1 <= 8,
        forall|i: int| r.1 <= i < 8 ==> #[trigger] r.0[i]@ == cgram::BLANK@,
        (Drawing {
            reg: registered(r.0, r.1 as int),
            rows: seq![final(rows)[0]@, final(rows)[1]@, final(rows)[2]@],
        }) == (Drawing {
            reg: Seq::empty(),
            rows: seq![old(rows)[0]@, old(rows)[1]@, old(rows)[2]@],
        }).line(heights@, heights@.len()),
{
    let ghost start = Drawing {
        reg: Seq::empty(),
        rows: seq![rows[0]@, rows[1]@, rows[2]@],
    };
    let n: usize = heights.len();
    let col_start: usize = LABEL_COLS + (CHART_COLS - n) / 2;
    let mut cgram: [Glyph; 8] = [[0u8; 8]; 8];
    let mut count: usize = 0;
    let mut r1: [u8; 20] = rows[0];
    let mut r2: [u8; 20] = rows[1];
    let mut r3: [u8; 20] = rows[2];
    proof {
        assert forall|i: int| 0 <= i < 8 implies #[trigger] cgram[i]@ == cgram::BLANK@ by {
            assert(cgram[i]@ =~= cgram::BLANK@);
        }
        assert(registered(cgram, 0) =~= start.reg);
    }
    let mut i: usize = 0;
    while i < n
        invariant
            i <= n,
            n == heights@.len(),
            2 <= n <= 8,
            forall|i: int| 0 <= i < heights@.len() ==> 0 <= #[trigger] heights@[i] <= 23,
            col_start == first_column(n as nat),
            count <= 8,
            forall|i: int| count <= i < 8 ==> #[trigger] cgram[i]@ == cgram::BLANK@,
            drawing(cgram, count, r1, r2, r3) == start.line(heights@, i as nat),
        decreases n - i,
    {
        let h: i32 = heights[i];
        let lh: i32 = if i > 0 {
            (heights[i - 1] + h) / 2
        } else {
            h
        };
        let rh: i32 = if i < n - 1 {
            (h + heights[i + 1]) / 2
        } else {
            h
        };
        let col: usize = col_start + i;
        draw_column(&mut cgram, &mut count, &mut r1, &mut r2, &mut r3, col, lh, rh);
        i += 1;
    }
    rows[0] = r1;
    rows[1] = r2;
    rows[2] = r3;
    (cgram, count)
}

/// Builds the chart: its four rows and its glyphs.
pub fn build_chart(state: &UiState, text: &ChartText) -> (r: ([[u8; 20]; 4], [Glyph; 8]))
    requires
        text.valid(),
    ensures
        screen::row_views(r.0) == chart_rows(*state, *text),
        screen::glyph_views(r.1) == chart_glyphs(*text),
{
    let blank: [u8; 20] = [0x20u8; 20];
    let price: Option<&str> = if current_price(state).is_positive() {
        Some(text.price.as_str())
    } else {
        None
    };
    let r0: [u8; 20] = build_header(state.screen, &text.change, price);
    assert(blank@ =~= spaces());
    if text.heights.len() < 2 {
        let few: [u8; 20] = [
            0x20, 0x20, 0x6E, 0x6F, 0x74, 0x20, 0x65, 0x6E, 0x6F, 0x75, 0x67, 0x68, 0x20, 0x64,
            0x61, 0x74, 0x61, 0x20, 0x20, 0x20,
        ];
        let rows: [[u8; 20]; 4] = [r0, blank, few, blank];
        let cgram: [Glyph; 8] = [[0u8; 8]; 8];
        proof {
            assert(few@ =~= too_few());
            assert(screen::row_views(rows) =~= chart_rows(*state, *text));
            assert forall|i: int| 0 <= i < 8 implies #[trigger] screen::glyph_views(cgram)[i]
                == chart_glyphs(*text)[i] by {
                assert(cgram[i]@ =~= cgram::BLANK@);
            }
            assert(screen::glyph_views(cgram) =~= chart_glyphs(*text));
        }
        return (rows, cgram);
    }
    let mut body: [[u8; 20]; 3] = match &text.labels {
        Some((hi, lo)) => [label_row(hi.as_str()), blank, label_row(lo.as_str())],
        None => [blank, blank, blank],
    };
    proof {
        assert(seq![body[0]@, body[1]@, body[2]@] =~= ground(text.labels).rows);
        assert((Drawing {
            reg: Seq::empty(),
            rows: seq![body[0]@, body[1]@, body[2]@],
        }) == ground(text.labels));
    }
    let (cgram, count) = draw_line(&mut body, text.heights.as_slice());
    let rows: [[u8; 20]; 4] = [r0, body[0], body[1], body[2]];
    proof {
        let d = ground(text.labels).line(text.heights@, text.heights@.len());
        assert(d.rows == seq![body[0]@, body[1]@, body[2]@]);
        assert(screen::row_views(rows) =~= chart_rows(*state, *text));
        assert(registered(cgram, count as int) == d.reg);
        assert forall|i: int| 0 <= i < 8 implies #[trigger] screen::glyph_views(cgram)[i]
            == chart_glyphs(*text)[i] by {
            if i < count {
                assert(registered(cgram, count as int)[i] == cgram[i]@);
            }
        }
        assert(screen::glyph_views(cgram) =~= chart_glyphs(*text));
    }
    (rows, cgram)
}

/// What the display holds after a chart was drawn.
pub open spec fn shown_after(held: screen::Shown, state: UiState, text: ChartText) -> screen::Shown {
    held.loaded(chart_glyphs(text), all_eight(), 8).filled(chart_rows(state, text), 4)
}

/// What goes to the display to draw a chart: glyphs first, then the rows.
pub open spec fn chart_ops(
    held: screen::Shown,
    state: UiState,
    text: ChartText,
    backlight: u8,
) -> Seq<LcdOp> {
    held.load_ops(chart_glyphs(text), all_eight(), 8, backlight) + held.loaded(
        chart_glyphs(text),
        all_eight(),
        8,
    ).fill_ops(chart_rows(state, text), 4, backlight)
}

/// Draws the chart that a text describes.
pub fn draw(lcd: &mut Lcd, cache: &mut RowCache, state: &UiState, text: &ChartText)
    requires
        text.valid(),
    ensures
        final(cache)@ == shown_after(old(cache)@, *state, *text),
        lcd::queued(
            *old(lcd),
            *final(lcd),
            chart_ops(old(cache)@, *state, *text, old(lcd).backlight),
        ),
{
    let (rows, cgram) = build_chart(state, text);
    let all: [bool; 8] = [true; 8];
    assert(all@ =~= all_eight());
    cache.load(lcd, &cgram, &all);
    cache.fill(lcd, &rows);
    assert(lcd.ops@ =~= old(lcd).ops@ + chart_ops(
        old(cache)@,
        *state,
        *text,
        old(lcd).backlight,
    ));
}

/// `text` is what `describe` may make of the samples that a chart of these prices shows.
pub open spec fn describes<F: FnOnce(&[Double]) -> ChartText>(
    describe: F,
    prices: Seq<Double>,
    text: ChartText,
) -> bool {
    exists|s: &[Double]| #[trigger] s@ == picked(prices) && call_ensures(describe, (s,), text)
}

/// Drawing the chart of these prices may send `ops` and leave the display holding `after`.
pub open spec fn charts<F: FnOnce(&[Double]) -> ChartText>(
    describe: F,
    prices: Seq<Double>,
    state: UiState,
    held: screen::Shown,
    backlight: u8,
    ops: Seq<LcdOp>,
    after: screen::Shown,
) -> bool {
    exists|text: ChartText| #[trigger]
        describes(describe, prices, text) && ops == chart_ops(held, state, text, backlight) && after
            == shown_after(held, state, text)
}

/// Draws the chart of a price history. `describe` gets the samples that it shows, and says in text
/// and heights what takes real arithmetic.
pub fn render<F: FnOnce(&[Double]) -> ChartText>(
    lcd: &mut Lcd,
    cache: &mut RowCache,
    state: &UiState,
    prices: &[Double],
    describe: F,
)
    requires
        forall|s: &[Double]| #[trigger] s@ == picked(prices@) ==> call_requires(describe, (s,)),
        forall|text: ChartText| #[trigger] describes(describe, prices@, text) ==> text.valid(),
    ensures
        exists|ops: Seq<LcdOp>| #[trigger]
            lcd::queued(*old(lcd), *final(lcd), ops) && charts(
                describe,
                prices@,
                *state,
                old(cache)@,
                old(lcd).backlight,
                ops,
                final(cache)@,
            ),
{
    let samples: &[Double] = last_samples(prices);
    let text: ChartText = describe(samples);
    assert(describes(describe, prices@, text));
    draw(lcd, cache, state, &text);
}

/// Only the newest eight samples are charted: older ones make no difference to what is drawn.
pub proof fn law_only_newest_eight<F: FnOnce(&[Double]) -> ChartText>(
    describe: F,
    prices: Seq<Double>,
    state: UiState,
    held: screen::Shown,
    backlight: u8,
    ops: Seq<LcdOp>,
    after: screen::Shown,
)
    requires
        prices.len() > DATA_MAX,
    ensures
        ({
            let newest = prices.skip(prices.len() - DATA_MAX);
            &&& picked(newest) == picked(prices)
            &&& charts(describe, newest, state, held, backlight, ops, after) <==> charts(
                describe,
                prices,
                state,
                held,
                backlight,
                ops,
                after,
            )
        }),
{
    let newest = prices.skip(prices.len() - DATA_MAX);
    assert(picked(newest) =~= picked(prices));
    assert(forall|text: ChartText|
        #![trigger describes(describe, newest, text)]
        #![trigger describes(describe, prices, text)]
        describes(describe, newest, text) == describes(describe, prices, text));
}

/// Every slot.
pub open spec fn all_eight() -> Seq<bool> {
    Seq::new(8, |i: int| true)
}

} // verus!
