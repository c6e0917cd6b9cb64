//! The chart is a line through the samples.

use vstd::prelude::*;

use crate::bits;
use crate::cgram;
use crate::chart;
use crate::chart::{ChartText, Drawing};
use crate::config::Screen;
use crate::glyphs::Glyph;
use crate::screen;
use crate::screen::UiState;

verus! {

/// How far a line has gone when it is at height `h`, counted from where it enters in the direction
/// in which it leaves.
pub open spec fn gone(left: int, right: int, h: int) -> int {
    if right >= left {
        h - left
    } else {
        left - h
    }
}

/// The pixel in column `x` at height `h` lies on the straight line from height `left` in column 0 to
/// height `right` in column 4: the line is there at that column, less than one pixel farther on; or
/// it crosses that height, less than one column farther on.
pub open spec fn touches(left: int, right: int, x: int, h: int) -> bool {
    let k = gone(left, right, h);
    let d = gone(left, right, right);
    ||| 4 * k <= d * x < 4 * k + 4
    ||| 0 < d && 0 <= k <= d && d * x <= 4 * k < d * (x + 1)
}

/// A cell shows the pixels that lie on its straight line, and no others.
pub proof fn law_cell_shows_line(left: i32, right: i32, base: i32, g: Glyph, row: int, col: int)
    requires
        call_ensures(chart::line_glyph, (left, right, base), g),
        0 <= row < 8,
        0 <= col < 5,
    ensures
        bits::lit(g@, row, col) <==> touches(left as int, right as int, col, base + 7 - row),
        g[row] < 32,
{
    let l = left as int;
    let r = right as int;
    let b = base as int;
    let h = b + 7 - row;
    bits::lemma_glyph_lit(|row: int, col: int| chart::on_line(l, r, col, b + 7 - row), row, col);
    let k = gone(l, r, h);
    let d = gone(l, r, r);
    assert(chart::abs(r - l) == d);
    assert((k == d * col / 4) <==> 4 * k <= d * col < 4 * k + 4) by (nonlinear_arith)
        requires
            0 <= d,
            0 <= col,
    ;
    if d > 0 && 0 <= k <= d {
        assert(chart::abs(h - l) == k);
        assert((col == k * 4 / d) <==> d * col <= 4 * k < d * (col + 1)) by (nonlinear_arith)
            requires
                0 < d,
                0 <= k,
                0 <= col,
        ;
    }
    assert(g@[row] < 32);
}

/// The line of a cell starts where it enters and ends where it leaves: its end pixels are lit in the
/// first and the last column, and in these columns no pixel beyond them.
pub proof fn law_line_starts_and_ends(left: i32, right: i32, base: i32, g: Glyph, row: int)
    requires
        call_ensures(chart::line_glyph, (left, right, base), g),
        0 <= row < 8,
    ensures
        base + 7 - row == left ==> bits::lit(g@, row, 0),
        base + 7 - row == right ==> bits::lit(g@, row, 4),
        bits::lit(g@, row, 4) && right < left ==> base + 7 - row < left,
        bits::lit(g@, row, 4) && right > left ==> base + 7 - row > left,
        bits::lit(g@, row, 0) && right < left ==> base + 7 - row > right,
        bits::lit(g@, row, 0) && right > left ==> base + 7 - row < right,
{
    law_cell_shows_line(left, right, base, g, row, 0);
    law_cell_shows_line(left, right, base, g, row, 4);
    let h = base + 7 - row;
    let k = gone(left as int, right as int, h);
    let d = gone(left as int, right as int, right as int);
    assert(d * 0 == 0) by (nonlinear_arith);
    assert(d * 4 == 4 * d) by (nonlinear_arith);
    assert(d * (0 + 1) == d) by (nonlinear_arith);
}

/// Neighbouring cells of a line join: where one line ends and the next begins both are lit.
pub proof fn law_cells_join(
    left: i32,
    joint: i32,
    right: i32,
    base: i32,
    a: Glyph,
    b: Glyph,
    row: int,
)
    requires
        call_ensures(chart::line_glyph, (left, joint, base), a),
        call_ensures(chart::line_glyph, (joint, right, base), b),
        0 <= row < 8,
        base + 7 - row == joint,
    ensures
        bits::lit(a@, row, 4),
        bits::lit(b@, row, 0),
{
    law_line_starts_and_ends(left, joint, base, a, row);
    law_line_starts_and_ends(joint, right, base, b, row);
}

/// A rising line never falls from one column to the next, and a falling one never rises; no pixel
/// lies outside the heights between which the line runs.
pub proof fn law_line_is_monotone(
    left: i32,
    right: i32,
    base: i32,
    g: Glyph,
    row1: int,
    col1: int,
    row2: int,
    col2: int,
)
    requires
        call_ensures(chart::line_glyph, (left, right, base), g),
        0 <= row1 < 8,
        0 <= row2 < 8,
        0 <= col1 < col2 < 5,
        bits::lit(g@, row1, col1),
        bits::lit(g@, row2, col2),
    ensures
        left <= right ==> left <= base + 7 - row1 <= base + 7 - row2 <= right,
        left >= right ==> left >= base + 7 - row1 >= base + 7 - row2 >= right,
{
    law_cell_shows_line(left, right, base, g, row1, col1);
    law_cell_shows_line(left, right, base, g, row2, col2);
    let l = left as int;
    let r = right as int;
    let d = gone(l, r, r);
    let k1 = gone(l, r, base + 7 - row1);
    let k2 = gone(l, r, base + 7 - row2);
    assert(0 <= d * col1 && d * (col1 + 1) <= d * col2 <= 4 * d) by (nonlinear_arith)
        requires
            0 <= d,
            0 <= col1 < col2 < 5,
    ;
    assert(d * col1 <= d * (col1 + 1)) by (nonlinear_arith)
        requires
            0 <= d,
    ;
}

/// No height is left out: every height that the line spans within the cell has a lit pixel, and so
/// has every column whose height lies within it.
pub proof fn law_line_is_unbroken(left: i32, right: i32, base: i32, g: Glyph, row: int)
    requires
        call_ensures(chart::line_glyph, (left, right, base), g),
        0 <= row < 8,
        left <= base + 7 - row <= right || right <= base + 7 - row <= left,
    ensures
        exists|col: int| 0 <= col < 5 && #[trigger] bits::lit(g@, row, col),
{
    let l = left as int;
    let r = right as int;
    let h = base + 7 - row;
    chart::law_line_has_no_gaps(l, r, 0, h);
    let c = choose|c: int| 0 <= c < 5 && #[trigger] chart::on_line(l, r, c, h);
    let b = base as int;
    bits::lemma_glyph_lit(|row: int, col: int| chart::on_line(l, r, col, b + 7 - row), row, c);
    assert(bits::lit(g@, row, c));
}

// ── Glyphs and their slots ────────────────────────────────────────────────────
proof fn lemma_bits_apart(a: u8, b: u8, n: nat)
    ensures
        chart::bits_apart(a, b, n) == chart::bits_apart(b, a, n),
        a == b ==> chart::bits_apart(a, b, n) == 0,
        chart::bits_apart(a, b, n) == 0 ==> forall|k: int|
            0 <= k < n ==> #[trigger] bits::bit(a, k) == bits::bit(b, k),
    decreases n,
{
    if n > 0 {
        lemma_bits_apart(a, b, (n - 1) as nat);
    }
}

/// Two glyphs are no pixel apart where they are the same, and only there; it does not matter which
/// is held against which.
pub proof fn law_distance_tells_apart(a: Seq<u8>, b: Seq<u8>)
    requires
        a.len() == 8,
        b.len() == 8,
    ensures
        chart::distance(a, b, 8) == 0 <==> a == b,
        chart::distance(a, b, 8) == chart::distance(b, a, 8),
{
    lemma_distance(a, b, 8);
    if chart::distance(a, b, 8) == 0 {
        assert forall|i: int| 0 <= i < 8 implies #[trigger] a[i] == b[i] by {
            lemma_bits_apart(a[i], b[i], 8);
            bits::lemma_same_bits(a[i], b[i]);
        }
        assert(a =~= b);
    }
}

proof fn lemma_distance(a: Seq<u8>, b: Seq<u8>, n: nat)
    ensures
        chart::distance(a, b, n) == chart::distance(b, a, n),
        a == b ==> chart::distance(a, b, n) == 0,
        chart::distance(a, b, n) == 0 ==> forall|i: int|
            0 <= i < n ==> chart::bits_apart(#[trigger] a[i], b[i], 8) == 0,
    decreases n,
{
    if n > 0 {
        lemma_distance(a, b, (n - 1) as nat);
        lemma_bits_apart(a[n - 1], b[n - 1], 8);
    }
}

proof fn lemma_one_bit(a: u8, b: u8, c: u8, k: int, n: nat)
    requires
        0 <= k < 8,
        n <= 8,
        bits::bit(c, k) == bits::bit(a, k),
        bits::bit(b, k) != bits::bit(a, k),
        forall|j: int| 0 <= j < 8 && j != k ==> #[trigger] bits::bit(c, j) == bits::bit(b, j),
    ensures
        chart::bits_apart(a, b, n) == chart::bits_apart(a, c, n) + (if k < n {
            1int
        } else {
            0
        }),
    decreases n,
{
    if n > 0 {
        lemma_one_bit(a, b, c, k, (n - 1) as nat);
        assert(bits::bit(c, n - 1) == bits::bit(b, n - 1) || n - 1 == k);
    }
}

/// The distance of two glyphs counts their pixels one by one: a glyph that is turned to another in
/// one pixel more is one nearer to it.
pub proof fn law_distance_counts_pixels(a: Seq<u8>, b: Seq<u8>, c: Seq<u8>, row: int, k: int)
    requires
        0 <= row < 8,
        0 <= k < 8,
        forall|i: int| 0 <= i < 8 && i != row ==> #[trigger] c[i] == b[i],
        bits::bit(c[row], k) == bits::bit(a[row], k),
        bits::bit(b[row], k) != bits::bit(a[row], k),
        forall|j: int|
            0 <= j < 8 && j != k ==> #[trigger] bits::bit(c[row], j) == bits::bit(b[row], j),
    ensures
        chart::distance(a, b, 8) == chart::distance(a, c, 8) + 1,
{
    lemma_one_row(a, b, c, row, k, 8);
}

proof fn lemma_one_row(a: Seq<u8>, b: Seq<u8>, c: Seq<u8>, row: int, k: int, n: nat)
    requires
        0 <= row < 8,
        0 <= k < 8,
        n <= 8,
        forall|i: int| 0 <= i < 8 && i != row ==> #[trigger] c[i] == b[i],
        bits::bit(c[row], k) == bits::bit(a[row], k),
        bits::bit(b[row], k) != bits::bit(a[row], k),
        forall|j: int|
            0 <= j < 8 && j != k ==> #[trigger] bits::bit(c[row], j) == bits::bit(b[row], j),
    ensures
        chart::distance(a, b, n) == chart::distance(a, c, n) + (if row < n {
            1int
        } else {
            0
        }),
    decreases n,
{
    if n > 0 {
        lemma_one_row(a, b, c, row, k, (n - 1) as nat);
        if n - 1 == row {
            lemma_one_bit(a[row], b[row], c[row], k, 8);
        }
    }
}

proof fn lemma_nearest(reg: Seq<Seq<u8>>, g: Seq<u8>, n: nat)
    requires
        1 <= n <= reg.len(),
    ensures
        0 <= chart::nearest(reg, g, n) < n,
        forall|i: int|
            0 <= i < n ==> chart::distance(reg[chart::nearest(reg, g, n)], g, 8)
                <= chart::distance(#[trigger] reg[i], g, 8),
    decreases n,
{
    if n > 1 {
        lemma_nearest(reg, g, (n - 1) as nat);
    }
}

/// A glyph with a slot keeps it; one without gets the next; where all eight are taken, the slot of a
/// glyph that is nearest stands for it, and a bar where every one is more than ten pixels off.
pub proof fn law_slot_holds_glyph(reg: &mut [Glyph; 8], count: &mut usize, g: Glyph, code: u8)
    requires
        call_ensures(chart::slot_for, (reg, count, g), code),
        *old(count) <= 8,
    ensures
        forall|i: int| 0 <= i < *old(count) ==> #[trigger] final(reg)[i]@ == old(reg)[i]@,
        (exists|i: int| 0 <= i < *old(count) && #[trigger] old(reg)[i]@ == g@) ==> code < *old(count) && old(reg)[code as int]@ == g@ && *final(count) == *old(count),
        !(exists|i: int| 0 <= i < *old(count) && #[trigger] old(reg)[i]@ == g@) && *old(count) < 8
            ==> code == *old(count) && *final(count) == *old(count) + 1 && final(reg)[code as int]@ == g@,
        !(exists|i: int| 0 <= i < *old(count) && #[trigger] old(reg)[i]@ == g@) && *old(count) == 8
            ==> *final(count) == 8 && if forall|i: int|
            0 <= i < 8 ==> chart::distance(#[trigger] old(reg)[i]@, g@, 8) > 10 {
            code == 0x7C
        } else {
            code < 8 && forall|i: int|
                0 <= i < 8 ==> chart::distance(old(reg)[code as int]@, g@, 8) <= chart::distance(
                    #[trigger] old(reg)[i]@,
                    g@,
                    8,
                )
        },
{
    let before = chart::registered(*old(reg), *old(count) as int);
    let after = chart::registered(*final(reg), *final(count) as int);
    assert(after == chart::placed(before, g@));
    assert forall|i: int| 0 <= i < *old(count) implies #[trigger] final(reg)[i]@ == old(reg)[i]@ by {
        assert(after[i] == before[i]);
    }
    if exists|i: int| 0 <= i < *old(count) && #[trigger] old(reg)[i]@ == g@ {
        let i = choose|i: int| 0 <= i < *old(count) && #[trigger] old(reg)[i]@ == g@;
        assert(before[i] == g@);
        lemma_first(before, g@, i);
        let s = choose|s: int| chart::first_with(before, g@, s);
        assert(before[s] == old(reg)[s]@);
        assert(after.len() == before.len());
    } else {
        assert(!exists|s: int| chart::first_with(before, g@, s)) by {
            if exists|s: int| chart::first_with(before, g@, s) {
                let s = choose|s: int| chart::first_with(before, g@, s);
                assert(before[s] == old(reg)[s]@);
            }
        }
        if *old(count) < 8 {
            assert(after.len() == before.len() + 1);
            assert(after.last() == g@);
            assert(after[*old(count) as int] == final(reg)[*old(count) as int]@);
        } else {
            assert(after.len() == before.len());
            lemma_nearest(before, g@, 8);
            let s = chart::nearest(before, g@, 8);
            assert(before[s] == old(reg)[s]@);
            assert forall|i: int| 0 <= i < 8 implies chart::distance(old(reg)[s]@, g@, 8)
                <= chart::distance(#[trigger] old(reg)[i]@, g@, 8) by {
                assert(before[i] == old(reg)[i]@);
            }
        }
    }
}

proof fn lemma_first(reg: Seq<Seq<u8>>, g: Seq<u8>, t: int)
    requires
        0 <= t < reg.len(),
        reg[t] == g,
    ensures
        exists|s: int| chart::first_with(reg, g, s),
    decreases t,
{
    if exists|u: int| 0 <= u < t && #[trigger] reg[u] == g {
        let u = choose|u: int| 0 <= u < t && #[trigger] reg[u] == g;
        lemma_first(reg, g, u);
    } else {
        assert(chart::first_with(reg, g, t));
    }
}

// ── The whole chart ───────────────────────────────────────────────────────────
/// A character stands for a glyph: its slot holds that glyph, or, where all eight slots are taken, one
/// that is at most ten pixels off; or it is a bar, where none of them is as near.
spec fn stands_for(reg: Seq<Seq<u8>>, code: u8, g: Seq<u8>) -> bool {
    ||| code < reg.len() && reg[code as int] == g
    ||| code < reg.len() && reg.len() == 8 && chart::distance(reg[code as int], g, 8) <= 10
    ||| code == 0x7C && reg.len() == 8
}

spec fn well_drawn(d: Drawing) -> bool {
    &&& d.reg.len() <= 8
    &&& forall|s: int| 0 <= s < d.reg.len() ==> #[trigger] d.reg[s] != cgram::BLANK@
    &&& d.rows.len() == 3
    &&& forall|r: int| 0 <= r < 3 ==> #[trigger] d.rows[r].len() == 20
}

proof fn lemma_put(d: Drawing, row: int, col: int, g: Seq<u8>)
    requires
        well_drawn(d),
        0 <= row < 3,
        0 <= col < 20,
    ensures
        ({
            let e = d.put(row, col, g);
            &&& well_drawn(e)
            &&& g != cgram::BLANK@ ==> stands_for(e.reg, e.rows[row][col], g)
            &&& g == cgram::BLANK@ ==> e.rows[row][col] == d.rows[row][col]
            &&& forall|r: int, c: int|
                0 <= r < 3 && 0 <= c < 20 && (r != row || c != col) ==> #[trigger] e.rows[r][c]
                    == d.rows[r][c]
            &&& forall|code: u8, h: Seq<u8>| #[trigger]
                stands_for(d.reg, code, h) ==> stands_for(e.reg, code, h)
        }),
{
    if g != cgram::BLANK@ {
        let e = d.put(row, col, g);
        if exists|s: int| chart::first_with(d.reg, g, s) {
            let s = choose|s: int| chart::first_with(d.reg, g, s);
            assert(d.reg[s] == g);
        } else if d.reg.len() < 8 {
            assert(e.reg == d.reg.push(g));
            assert(e.reg[d.reg.len() as int] == g);
        } else {
            lemma_nearest(d.reg, g, 8);
        }
        assert(e.rows[row][col] == chart::code_for(d.reg, g));
    }
}

/// What the three rows show in the column of sample `i`.
spec fn sample_shown(d: Drawing, ground: Drawing, heights: Seq<i32>, i: int, b: int) -> bool {
    let g = chart::line_part(
        chart::left_end(heights, i),
        chart::right_end(heights, i),
        16 - 8 * b,
    );
    let col = chart::first_column(heights.len()) + i;
    if g == cgram::BLANK@ {
        d.rows[b][col] == ground.rows[b][col]
    } else {
        stands_for(d.reg, d.rows[b][col], g)
    }
}

proof fn lemma_line(d: Drawing, heights: Seq<i32>, n: nat)
    requires
        well_drawn(d),
        n <= heights.len() <= 8,
    ensures
        well_drawn(d.line(heights, n)),
        forall|i: int, b: int|
            0 <= i < n && 0 <= b < 3 ==> #[trigger] sample_shown(
                d.line(heights, n),
                d,
                heights,
                i,
                b,
            ),
        forall|r: int, c: int|
            0 <= r < 3 && 0 <= c < 20 && !(chart::first_column(heights.len()) <= c
                < chart::first_column(heights.len()) + n) ==> #[trigger] d.line(
                heights,
                n,
            ).rows[r][c] == d.rows[r][c],
    decreases n,
{
    if n > 0 {
        lemma_line(d, heights, (n - 1) as nat);
        let p = d.line(heights, (n - 1) as nat);
        let l = chart::left_end(heights, n - 1);
        let r = chart::right_end(heights, n - 1);
        let col = chart::first_column(heights.len()) + n - 1;
        let p0 = p.put(0, col, chart::line_part(l, r, 16));
        let p1 = p0.put(1, col, chart::line_part(l, r, 8));
        let p2 = p1.put(2, col, chart::line_part(l, r, 0));
        lemma_put(p, 0, col, chart::line_part(l, r, 16));
        lemma_put(p0, 1, col, chart::line_part(l, r, 8));
        lemma_put(p1, 2, col, chart::line_part(l, r, 0));
        assert(p2 == d.line(heights, n));
        assert forall|i: int, b: int| 0 <= i < n && 0 <= b < 3 implies #[trigger] sample_shown(
            p2,
            d,
            heights,
            i,
            b,
        ) by {
            let g = chart::line_part(
                chart::left_end(heights, i),
                chart::right_end(heights, i),
                16 - 8 * b,
            );
            let c = chart::first_column(heights.len()) + i;
            if i < n - 1 {
                assert(sample_shown(p, d, heights, i, b));
                assert(p2.rows[b][c] == p1.rows[b][c]);
                assert(p1.rows[b][c] == p0.rows[b][c]);
                assert(p0.rows[b][c] == p.rows[b][c]);
                if g != cgram::BLANK@ {
                    assert(stands_for(p.reg, p.rows[b][c], g));
                    assert(stands_for(p0.reg, p.rows[b][c], g));
                    assert(stands_for(p1.reg, p.rows[b][c], g));
                }
            } else {
                assert(p.rows[b][col] == d.rows[b][col]);
                if b == 0 {
                    assert(p2.rows[0][col] == p1.rows[0][col]);
                    assert(p1.rows[0][col] == p0.rows[0][col]);
                    if g != cgram::BLANK@ {
                        assert(stands_for(p0.reg, p0.rows[0][col], g));
                        assert(stands_for(p1.reg, p0.rows[0][col], g));
                    }
                } else if b == 1 {
                    assert(p0.rows[1][col] == p.rows[1][col]);
                    assert(p2.rows[1][col] == p1.rows[1][col]);
                    if g != cgram::BLANK@ {
                        assert(stands_for(p1.reg, p1.rows[1][col], g));
                    }
                } else {
                    assert(p0.rows[2][col] == p.rows[2][col]);
                    assert(p1.rows[2][col] == p0.rows[2][col]);
                }
            }
        }
        assert forall|q: int, c: int|
            0 <= q < 3 && 0 <= c < 20 && !(chart::first_column(heights.len()) <= c
                < chart::first_column(heights.len()) + n) implies #[trigger] p2.rows[q][c]
            == d.rows[q][c] by {
            assert(p2.rows[q][c] == p1.rows[q][c]);
            assert(p1.rows[q][c] == p0.rows[q][c]);
            assert(p0.rows[q][c] == p.rows[q][c]);
        }
    }
}

proof fn lemma_ground(labels: Option<(String, String)>)
    ensures
        well_drawn(chart::ground(labels)),
        forall|r: int, c: int|
            0 <= r < 3 && 5 <= c < 20 ==> #[trigger] chart::ground(labels).rows[r][c] == 0x20u8,
{
}

/// The line runs through the samples. Sample `i` has the `i`th of as many neighbouring columns,
/// centred behind the labels; there the line enters halfway from the sample before and leaves halfway
/// to the sample behind, in the outermost columns at the sample itself. Each of the three rows below
/// the header shows the part of the line at its height, eight pixels to a row from the bottom up:
/// blank where there is none, else a character whose glyph is that part, or is at most ten pixels off
/// where the glyphs have run out, or a bar.
#[verifier::spinoff_prover]
#[verifier::rlimit(60)]
pub proof fn law_chart_follows_samples(
    state: UiState,
    text: ChartText,
    r: ([[u8; 20]; 4], [Glyph; 8]),
    i: int,
    b: int,
    enter: i32,
    leave: i32,
    g: Glyph,
)
    requires
        text.valid(),
        call_ensures(chart::build_chart, (&state, &text), r),
        2 <= text.heights@.len(),
        0 <= i < text.heights@.len(),
        0 <= b < 3,
        i == 0 ==> enter == text.heights@[i],
        i > 0 ==> 2 * enter <= text.heights@[i - 1] + text.heights@[i] < 2 * enter + 2,
        i == text.heights@.len() - 1 ==> leave == text.heights@[i],
        i < text.heights@.len() - 1 ==> 2 * leave <= text.heights@[i] + text.heights@[i + 1] < 2
            * leave + 2,
        call_ensures(chart::line_glyph, (enter, leave, (8 * b) as i32), g),
    ensures
        ({
            let c = r.0[3 - b][5 + (15 - text.heights@.len()) / 2 + i];
            if forall|k: int| 0 <= k < 8 ==> #[trigger] g[k] == 0 {
                c == 0x20
            } else {
                ||| c < 8 && r.1[c as int]@ == g@
                ||| r.1[7]@ != cgram::BLANK@ && c < 8 && chart::distance(r.1[c as int]@, g@, 8) <= 10
                ||| r.1[7]@ != cgram::BLANK@ && c == 0x7C
            }
        }),
{
    let h = text.heights@;
    let ground = chart::ground(text.labels);
    lemma_ground(text.labels);
    lemma_line(ground, h, h.len());
    let d = ground.line(h, h.len());
    let row = 2 - b;
    assert(sample_shown(d, ground, h, i, row));
    assert(enter == chart::left_end(h, i));
    assert(leave == chart::right_end(h, i));
    assert(16 - 8 * row == 8 * b);
    let col = chart::first_column(h.len()) + i;
    assert(screen::row_views(r.0)[3 - b] == r.0[3 - b]@);
    assert(chart::chart_rows(state, text)[3 - b] == d.rows[row]);
    let c = r.0[3 - b][col];
    assert(c == d.rows[row][col]);
    assert(g@ == chart::line_part(enter as int, leave as int, 8 * b));
    assert((forall|k: int| 0 <= k < 8 ==> #[trigger] g[k] == 0) <==> g@ == cgram::BLANK@) by {
        if forall|k: int| 0 <= k < 8 ==> #[trigger] g[k] == 0 {
            assert(g@ =~= cgram::BLANK@);
        } else {
            let k = choose|k: int| 0 <= k < 8 && #[trigger] g[k] != 0;
            assert(g@[k] != cgram::BLANK@[k]);
        }
    }
    let glyphs = chart::chart_glyphs(text);
    assert(screen::glyph_views(r.1) == glyphs);
    assert(screen::glyph_views(r.1)[7] == r.1[7]@);
    if g@ != cgram::BLANK@ && c < 8 {
        assert(screen::glyph_views(r.1)[c as int] == r.1[c as int]@);
    }
    if d.reg.len() == 8 {
        assert(glyphs[7] == d.reg[7]);
    }
}

/// The byte that is `j` places before the end of a text, or a blank where the text is not as long.
pub open spec fn from_end(text: Seq<u8>, j: int) -> u8 {
    if j < text.len() {
        text[text.len() - 1 - j]
    } else {
        0x20
    }
}

/// Where the label of each asset stands in the name of its screen.
pub open spec fn label_at(s: Screen) -> int {
    if s == Screen::UsdBrl {
        7
    } else {
        1
    }
}

/// The header has the current price at its right end, where there is one; the change in percent with
/// its middle in the middle of the row; and on the left, where no change covers them, the letters
/// that name the asset in the name of its screen.
pub proof fn law_chart_header(
    state: UiState,
    text: ChartText,
    r: ([[u8; 20]; 4], [Glyph; 8]),
    price: crate::double::Double,
    name: &'static str,
    k: int,
)
    requires
        text.valid(),
        call_ensures(chart::build_chart, (&state, &text), r),
        call_ensures(chart::current_price, (&state,), price),
        call_ensures(Screen::name, (state.screen,), name),
    ensures
        0 <= k < 5 ==> r.0[0][19 - k] == if price.above_zero() {
            from_end(vstd::utf8::encode_utf8(text.price@), k)
        } else {
            0x20
        },
        text.change is Some ==> ({
            let t = vstd::utf8::encode_utf8(text.change->0@);
            0 <= k < t.len() && t.len() <= 20 && 10 - t.len() / 2 + k < 15 ==> r.0[0][10 - t.len()
                / 2 + k] == t[k]
        }),
        text.change is None && 0 <= k < 3 ==> r.0[0][k] == name@[label_at(state.screen) + k] as u8,
        text.change is None ==> r.0[0][3] == if state.screen == Screen::UsdBrl {
            0x20
        } else {
            name@[4] as u8
        },
        text.change is None && 4 <= k < 15 ==> r.0[0][k] == 0x20,
{
    assert(screen::row_views(r.0)[0] == r.0[0]@);
    let top = chart::chart_rows(state, text)[0];
    assert(top == r.0[0]@);
    reveal_strlit(" BTC / USD");
    reveal_strlit(" SOL / USD");
    reveal_strlit(" GOLD USD/oz");
    reveal_strlit(" OIL WTI/bbl");
    reveal_strlit(" USD / BRL");
}

/// Beside the line stand the highest price, in the top row, and the lowest, in the bottom row, each
/// with its end in the fifth column.
pub proof fn law_chart_labels(
    state: UiState,
    text: ChartText,
    r: ([[u8; 20]; 4], [Glyph; 8]),
    k: int,
)
    requires
        text.valid(),
        call_ensures(chart::build_chart, (&state, &text), r),
        2 <= text.heights@.len(),
        0 <= k < 5,
    ensures
        r.0[1][4 - k] == match text.labels {
            Some(l) => from_end(vstd::utf8::encode_utf8(l.0@), k),
            None => 0x20,
        },
        r.0[2][4 - k] == 0x20,
        r.0[3][4 - k] == match text.labels {
            Some(l) => from_end(vstd::utf8::encode_utf8(l.1@), k),
            None => 0x20,
        },
{
    let h = text.heights@;
    let ground = chart::ground(text.labels);
    lemma_ground(text.labels);
    lemma_line(ground, h, h.len());
    let d = ground.line(h, h.len());
    assert forall|b: int| 0 <= b < 3 implies #[trigger] r.0[b + 1][4 - k] == ground.rows[b][4
        - k] by {
        assert(screen::row_views(r.0)[b + 1] == r.0[b + 1]@);
        assert(chart::chart_rows(state, text)[b + 1] == d.rows[b]);
        assert(d.rows[b][4 - k] == ground.rows[b][4 - k]);
    }
    assert(r.0[0int + 1][4 - k] == ground.rows[0][4 - k]);
    assert(r.0[1int + 1][4 - k] == ground.rows[1][4 - k]);
    assert(r.0[2int + 1][4 - k] == ground.rows[2][4 - k]);
}

/// With fewer than two samples the chart says so in its third row, and draws nothing.
pub proof fn law_chart_without_samples(
    state: UiState,
    text: ChartText,
    r: ([[u8; 20]; 4], [Glyph; 8]),
    k: int,
)
    requires
        text.valid(),
        call_ensures(chart::build_chart, (&state, &text), r),
        text.heights@.len() < 2,
        0 <= k < 20,
    ensures
        r.0[1][k] == 0x20,
        r.0[2][k] == "  not enough data   "@[k] as u8,
        r.0[3][k] == 0x20,
        forall|s: int, row: int| 0 <= s < 8 && 0 <= row < 8 ==> #[trigger] r.1[s][row] == 0,
{
    reveal_strlit("  not enough data   ");
    assert(screen::row_views(r.0)[1] == r.0[1]@);
    assert(screen::row_views(r.0)[2] == r.0[2]@);
    assert(screen::row_views(r.0)[3] == r.0[3]@);
    assert forall|s: int, row: int| 0 <= s < 8 && 0 <= row < 8 implies #[trigger] r.1[s][row]
        == 0 by {
        assert(screen::glyph_views(r.1)[s] == r.1[s]@);
        assert(chart::chart_glyphs(text)[s] == cgram::BLANK@);
    }
}

/// The chart shows the newest samples, at most eight, in the order they have.
pub proof fn law_newest_samples(prices: &[crate::double::Double], r: &[crate::double::Double], k: int)
    requires
        call_ensures(chart::last_samples, (prices,), r),
    ensures
        r@.len() == if prices@.len() < 8 {
            prices@.len()
        } else {
            8
        },
        0 <= k < r@.len() ==> r@[r@.len() - 1 - k] == prices@[prices@.len() - 1 - k],
{
}

} // verus!
