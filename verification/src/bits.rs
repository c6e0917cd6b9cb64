//! Single bits of bytes, and the 5x8 glyphs of the display.

use vstd::prelude::*;

verus! {

/// Bit `k` of `b`, counted from the least significant one.
pub open spec fn bit(b: u8, k: int) -> bool {
    (b >> (k as u8)) & 1 == 1
}

/// Whether the pixel at `row` (0 on top) and `col` (0 on the left) of a glyph is lit.
pub open spec fn lit(g: Seq<u8>, row: int, col: int) -> bool {
    bit(g[row], 4 - col)
}

/// A glyph that uses nothing but the five visible columns.
pub open spec fn five_wide(g: Seq<u8>) -> bool {
    forall|r: int| 0 <= r < g.len() ==> #[trigger] g[r] < 32
}

pub open spec fn weight(on: bool, w: int) -> int {
    if on {
        w
    } else {
        0
    }
}

/// The byte of a glyph row with the given pixels lit, from left to right.
pub open spec fn row_byte(on: spec_fn(int) -> bool) -> u8 {
    (weight(on(0), 16) + weight(on(1), 8) + weight(on(2), 4) + weight(on(3), 2) + weight(
        on(4),
        1,
    )) as u8
}

/// The glyph whose pixels are lit as the predicate says of each (row, column).
pub open spec fn glyph_of(on: spec_fn(int, int) -> bool) -> Seq<u8> {
    Seq::new(8, |row: int| row_byte(|col: int| on(row, col)))
}

/// A glyph row that is known pixel by pixel is known.
pub proof fn lemma_row_byte(b: u8, on: spec_fn(int) -> bool)
    requires
        b < 32,
        forall|col: int| 0 <= col < 5 ==> #[trigger] bit(b, 4 - col) == on(col),
    ensures
        b == row_byte(on),
{
    lemma_row_byte_bits(on);
    let v = row_byte(on);
    assert(bit(b, 4 - 0) == on(0));
    assert(bit(b, 4 - 1) == on(1));
    assert(bit(b, 4 - 2) == on(2));
    assert(bit(b, 4 - 3) == on(3));
    assert(bit(b, 4 - 4) == on(4));
    assert(b == v) by (bit_vector)
        requires
            b < 32,
            v < 32,
            (b >> 4u8) & 1 == 1 <==> (v >> 4u8) & 1 == 1,
            (b >> 3u8) & 1 == 1 <==> (v >> 3u8) & 1 == 1,
            (b >> 2u8) & 1 == 1 <==> (v >> 2u8) & 1 == 1,
            (b >> 1u8) & 1 == 1 <==> (v >> 1u8) & 1 == 1,
            (b >> 0u8) & 1 == 1 <==> (v >> 0u8) & 1 == 1,
    ;
}

/// The bits of a glyph row.
pub proof fn lemma_row_byte_bits(on: spec_fn(int) -> bool)
    ensures
        row_byte(on) < 32,
        bit(row_byte(on), 4) == on(0),
        bit(row_byte(on), 3) == on(1),
        bit(row_byte(on), 2) == on(2),
        bit(row_byte(on), 1) == on(3),
        bit(row_byte(on), 0) == on(4),
{
    let a: u8 = weight(on(0), 1) as u8;
    let b: u8 = weight(on(1), 1) as u8;
    let c: u8 = weight(on(2), 1) as u8;
    let d: u8 = weight(on(3), 1) as u8;
    let e: u8 = weight(on(4), 1) as u8;
    let v: u8 = row_byte(on);
    assert(v == 16 * a + 8 * b + 4 * c + 2 * d + e);
    assert((v >> 4u8) & 1 == a && (v >> 3u8) & 1 == b && (v >> 2u8) & 1 == c && (v >> 1u8) & 1 == d
        && (v >> 0u8) & 1 == e) by (bit_vector)
        requires
            a <= 1,
            b <= 1,
            c <= 1,
            d <= 1,
            e <= 1,
            v == 16 * a + 8 * b + 4 * c + 2 * d + e,
    ;
}

/// A glyph that is known pixel by pixel is known.
pub proof fn lemma_glyph_of(g: Seq<u8>, on: spec_fn(int, int) -> bool)
    requires
        g.len() == 8,
        five_wide(g),
        forall|row: int, col: int|
            0 <= row < 8 && 0 <= col < 5 ==> #[trigger] lit(g, row, col) == on(row, col),
    ensures
        g == glyph_of(on),
{
    assert forall|row: int| 0 <= row < 8 implies #[trigger] g[row] == glyph_of(on)[row] by {
        let f = |col: int| on(row, col);
        assert forall|col: int| 0 <= col < 5 implies #[trigger] bit(g[row], 4 - col) == f(col) by {
            assert(lit(g, row, col) == on(row, col));
        }
        lemma_row_byte(g[row], f);
    }
    assert(g =~= glyph_of(on));
}

/// A pixel of such a glyph is lit where the predicate says so.
pub proof fn lemma_glyph_lit(on: spec_fn(int, int) -> bool, row: int, col: int)
    requires
        0 <= row < 8,
        0 <= col < 5,
    ensures
        lit(glyph_of(on), row, col) == on(row, col),
        five_wide(glyph_of(on)),
{
    assert forall|r: int| 0 <= r < 8 implies #[trigger] glyph_of(on)[r] < 32 by {
        lemma_row_byte_bits(|c: int| on(r, c));
    }
    lemma_row_byte_bits(|c: int| on(row, c));
    if col == 0 {
    } else if col == 1 {
    } else if col == 2 {
    } else if col == 3 {
    } else {
        assert(col == 4);
    }
}

/// `b` with bit `k` set.
pub fn set_bit(b: u8, k: u8) -> (r: u8)
    requires
        k < 8,
    ensures
        forall|j: int| 0 <= j < 8 ==> #[trigger] bit(r, j) == (bit(b, j) || j == k),
        k < 5 && b < 32 ==> r < 32,
        r == b | (1u8 << k),
{
    let r: u8 = b | (1u8 << k);
    proof {
        assert forall|j: int| 0 <= j < 8 implies #[trigger] bit(r, j) == (bit(b, j) || j == k) by {
            let jj: u8 = j as u8;
            assert(((b | (1u8 << k)) >> jj) & 1 == 1 <==> ((b >> jj) & 1 == 1 || jj == k))
                by (bit_vector)
                requires
                    jj < 8,
                    k < 8,
            ;
        }
        assert(k < 5 && b < 32 ==> (b | (1u8 << k)) < 32) by (bit_vector);
    }
    r
}

/// `b` with bit `k` cleared.
pub fn clear_bit(b: u8, k: u8) -> (r: u8)
    requires
        k < 8,
    ensures
        forall|j: int| 0 <= j < 8 ==> #[trigger] bit(r, j) == (bit(b, j) && j != k),
{
    let r: u8 = b & !(1u8 << k);
    proof {
        assert forall|j: int| 0 <= j < 8 implies #[trigger] bit(r, j) == (bit(b, j) && j != k) by {
            let jj: u8 = j as u8;
            assert(((b & !(1u8 << k)) >> jj) & 1 == 1 <==> ((b >> jj) & 1 == 1 && jj != k))
                by (bit_vector)
                requires
                    jj < 8,
                    k < 8,
            ;
        }
    }
    r
}

/// Bit `k` of `b`.
pub fn test_bit(b: u8, k: u8) -> (r: bool)
    requires
        k < 8,
    ensures
        r == bit(b, k as int),
{
    (b >> k) & 1 == 1
}

/// No bit of zero is set.
pub proof fn lemma_zero_has_no_bits()
    ensures
        forall|k: int| 0 <= k < 8 ==> !#[trigger] bit(0, k),
{
    assert forall|k: int| 0 <= k < 8 implies !#[trigger] bit(0, k) by {
        let kk: u8 = k as u8;
        assert((0u8 >> kk) & 1 == 0) by (bit_vector)
            requires
                kk < 8,
        ;
    }
}

/// Two bytes with the same eight bits are the same byte.
pub proof fn lemma_same_bits(a: u8, b: u8)
    requires
        forall|k: int| 0 <= k < 8 ==> #[trigger] bit(a, k) == bit(b, k),
    ensures
        a == b,
{
    assert(bit(a, 0) == bit(b, 0));
    assert(bit(a, 1) == bit(b, 1));
    assert(bit(a, 2) == bit(b, 2));
    assert(bit(a, 3) == bit(b, 3));
    assert(bit(a, 4) == bit(b, 4));
    assert(bit(a, 5) == bit(b, 5));
    assert(bit(a, 6) == bit(b, 6));
    assert(bit(a, 7) == bit(b, 7));
    assert(a == b) by (bit_vector)
        requires
            (a >> 0u8) & 1 == 1 <==> (b >> 0u8) & 1 == 1,
            (a >> 1u8) & 1 == 1 <==> (b >> 1u8) & 1 == 1,
            (a >> 2u8) & 1 == 1 <==> (b >> 2u8) & 1 == 1,
            (a >> 3u8) & 1 == 1 <==> (b >> 3u8) & 1 == 1,
            (a >> 4u8) & 1 == 1 <==> (b >> 4u8) & 1 == 1,
            (a >> 5u8) & 1 == 1 <==> (b >> 5u8) & 1 == 1,
            (a >> 6u8) & 1 == 1 <==> (b >> 6u8) & 1 == 1,
            (a >> 7u8) & 1 == 1 <==> (b >> 7u8) & 1 == 1,
    ;
}

/// The byte whose bits are set as the predicate says, counted from the least significant one.
pub open spec fn byte_of(on: spec_fn(int) -> bool) -> u8 {
    (weight(on(0), 1) + weight(on(1), 2) + weight(on(2), 4) + weight(on(3), 8) + weight(on(4), 16)
        + weight(on(5), 32) + weight(on(6), 64) + weight(on(7), 128)) as u8
}

/// The bits of such a byte.
pub proof fn lemma_byte_of_bits(on: spec_fn(int) -> bool)
    ensures
        forall|k: int| 0 <= k < 8 ==> #[trigger] bit(byte_of(on), k) == on(k),
{
    let a: u8 = weight(on(0), 1) as u8;
    let b: u8 = weight(on(1), 1) as u8;
    let c: u8 = weight(on(2), 1) as u8;
    let d: u8 = weight(on(3), 1) as u8;
    let e: u8 = weight(on(4), 1) as u8;
    let f: u8 = weight(on(5), 1) as u8;
    let g: u8 = weight(on(6), 1) as u8;
    let h: u8 = weight(on(7), 1) as u8;
    let v: u8 = byte_of(on);
    assert(v == a + 2 * b + 4 * c + 8 * d + 16 * e + 32 * f + 64 * g + 128 * h);
    assert((v >> 0u8) & 1 == a && (v >> 1u8) & 1 == b && (v >> 2u8) & 1 == c && (v >> 3u8) & 1 == d
        && (v >> 4u8) & 1 == e && (v >> 5u8) & 1 == f && (v >> 6u8) & 1 == g && (v >> 7u8) & 1
        == h) by (bit_vector)
        requires
            a <= 1,
            b <= 1,
            c <= 1,
            d <= 1,
            e <= 1,
            f <= 1,
            g <= 1,
            h <= 1,
            v == a + 2 * b + 4 * c + 8 * d + 16 * e + 32 * f + 64 * g + 128 * h,
    ;
    assert forall|k: int| 0 <= k < 8 implies #[trigger] bit(byte_of(on), k) == on(k) by {
        if k == 0 {
        } else if k == 1 {
        } else if k == 2 {
        } else if k == 3 {
        } else if k == 4 {
        } else if k == 5 {
        } else if k == 6 {
        } else {
            assert(k == 7);
        }
    }
}

/// A byte that is known bit by bit is known.
pub proof fn lemma_byte_of(b: u8, on: spec_fn(int) -> bool)
    requires
        forall|k: int| 0 <= k < 8 ==> #[trigger] bit(b, k) == on(k),
    ensures
        b == byte_of(on),
{
    lemma_byte_of_bits(on);
    assert forall|k: int| 0 <= k < 8 implies #[trigger] bit(b, k) == bit(byte_of(on), k) by {}
    lemma_same_bits(b, byte_of(on));
}

/// `b` shifted towards its least significant bit, with a new most significant one.
pub fn shift_in_high(b: u8, on: bool) -> (r: u8)
    ensures
        bit(r, 7) == on,
        forall|k: int| 0 <= k < 7 ==> #[trigger] bit(r, k) == bit(b, k + 1),
{
    let x: u8 = if on {
        1
    } else {
        0
    };
    let r: u8 = (b >> 1) | (x << 7);
    proof {
        assert((((b >> 1) | (x << 7)) >> 7u8) & 1 == 1 <==> x == 1) by (bit_vector)
            requires
                x <= 1,
        ;
        assert forall|k: int| 0 <= k < 7 implies #[trigger] bit(r, k) == bit(b, k + 1) by {
            let kk: u8 = k as u8;
            let next: u8 = (k + 1) as u8;
            assert((((b >> 1) | (x << 7)) >> kk) & 1 == 1 <==> (b >> next) & 1 == 1)
                by (bit_vector)
                requires
                    kk < 7,
                    next == kk + 1,
                    x <= 1,
            ;
        }
    }
    r
}

/// `b` shifted towards its most significant bit, with a new least significant one.
pub fn shift_in_low(b: u8, on: bool) -> (r: u8)
    ensures
        bit(r, 0) == on,
        forall|k: int| 0 < k < 8 ==> #[trigger] bit(r, k) == bit(b, k - 1),
{
    let x: u8 = if on {
        1
    } else {
        0
    };
    let r: u8 = (b << 1) | x;
    proof {
        assert((((b << 1) | x) >> 0u8) & 1 == 1 <==> x == 1) by (bit_vector)
            requires
                x <= 1,
        ;
        assert forall|k: int| 0 < k < 8 implies #[trigger] bit(r, k) == bit(b, k - 1) by {
            let kk: u8 = k as u8;
            let before: u8 = (k - 1) as u8;
            assert((((b << 1) | x) >> kk) & 1 == 1 <==> (b >> before) & 1 == 1) by (bit_vector)
                requires
                    0 < kk < 8,
                    before == kk - 1,
                    x <= 1,
            ;
        }
    }
    r
}

/// The bits of a complement are the other ones.
pub proof fn lemma_complement(b: u8)
    ensures
        forall|k: int| 0 <= k < 8 ==> #[trigger] bit(!b, k) == !bit(b, k),
{
    assert forall|k: int| 0 <= k < 8 implies #[trigger] bit(!b, k) == !bit(b, k) by {
        let kk: u8 = k as u8;
        assert(((!b) >> kk) & 1 == 1 <==> !((b >> kk) & 1 == 1)) by (bit_vector)
            requires
                kk < 8,
        ;
    }
}

/// Whether two byte slices hold the same bytes.
pub fn bytes_equal(a: &[u8], b: &[u8]) -> (r: bool)
    ensures
        r == (a@ == b@),
{
    if a.len() != b.len() {
        return false;
    }
    let mut i: usize = 0;
    while i < a.len()
        invariant
            a@.len() == b@.len(),
            i <= a@.len(),
            forall|k: int| 0 <= k < i ==> a@[k] == b@[k],
        decreases a@.len() - i,
    {
        if a[i] != b[i] {
            assert(a@[i as int] != b@[i as int]);
            return false;
        }
        i += 1;
    }
    assert(a@ =~= b@);
    true
}

} // verus!
