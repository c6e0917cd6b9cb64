//! Custom 5x8 glyphs. Bit 4 of a row byte is the leftmost pixel.

use vstd::prelude::*;

use crate::bits;
use crate::config::Screen;

verus! {

pub type Glyph = [u8; 8];

// Lamp
pub const GLYPH_LAMP_ON: Glyph = [
    0b01110,
    0b11111,
    0b11111,
    0b11111,
    0b11111,
    0b01110,
    0b00100,
    0b00000,
];

pub const GLYPH_LAMP_OFF: Glyph = [
    0b01110,
    0b10001,
    0b10001,
    0b10001,
    0b10001,
    0b01110,
    0b00100,
    0b00000,
];

pub const GLYPH_LAMP_UNK: Glyph = [
    0b01110,
    0b10001,
    0b10101,
    0b10001,
    0b10101,
    0b01110,
    0b00100,
    0b00000,
];

// WiFi
pub const GLYPH_WIFI_ON: Glyph = [
    0b00000,
    0b00100,
    0b01110,
    0b11111,
    0b00100,
    0b00100,
    0b00100,
    0b00000,
];

pub const GLYPH_WIFI_OFF: Glyph = [
    0b10001,
    0b01010,
    0b00100,
    0b01010,
    0b10001,
    0b00000,
    0b00000,
    0b00000,
];

// Price change arrows (slots 2 and 3)
pub const GLYPH_UP_ARROW: Glyph   = [0x00, 0x04, 0x0E, 0x1F, 0x00, 0x00, 0x00, 0x00];

pub const GLYPH_DOWN_ARROW: Glyph = [0x00, 0x1F, 0x0E, 0x04, 0x00, 0x00, 0x00, 0x00];

// Weather (slot 4)
pub const GLYPH_SUN_CLOUD: Glyph = [
    0b00100,
    0b10101,
    0b01110,
    0b11111,
    0b11111,
    0b01110,
    0b00000,
    0b00000,
];

pub const GLYPH_RAIN: Glyph = [
    0b00000,
    0b00000,
    0b00100,
    0b00100,
    0b10101,
    0b01010,
    0b00000,
    0b00000,
];

// Degree symbol
pub const GLYPH_DEGREE: Glyph = [0x06, 0x09, 0x09, 0x06, 0x00, 0x00, 0x00, 0x00];

// Asset icons
pub const GLYPH_ASSET_BTC: Glyph = [
    0b01110,
    0b10001,
    0b10001,
    0b11110,
    0b10001,
    0b10001,
    0b01110,
    0b00000,
];

pub const GLYPH_ASSET_SOL: Glyph = [0x0F, 0x10, 0x0E, 0x01, 0x1E, 0x04, 0x0A, 0x04];

pub const GLYPH_ASSET_GOLD: Glyph = [0x00, 0x00, 0x0E, 0x1B, 0x11, 0x1F, 0x00, 0x00];

pub const GLYPH_ASSET_OIL: Glyph = [
    0b00100,
    0b00100,
    0b01010,
    0b01010,
    0b10001,
    0b10001,
    0b01110,
    0b00000,
];

// Hourglass animation (17 frames)
pub const HOURGLASS: [Glyph; 17] = [
    [0x1F, 0x1F, 0x0E, 0x04, 0x0A, 0x11, 0x11, 0x0E],
    [0x1F, 0x1F, 0x0E, 0x04, 0x0E, 0x11, 0x11, 0x0E],
    [0x1F, 0x1F, 0x0E, 0x04, 0x0A, 0x15, 0x11, 0x0E],
    [0x1F, 0x1F, 0x0E, 0x04, 0x0A, 0x11, 0x15, 0x0E],
    [0x1F, 0x1F, 0x0E, 0x04, 0x0E, 0x11, 0x15, 0x0E],
    [0x1F, 0x1F, 0x0E, 0x04, 0x0A, 0x15, 0x15, 0x0E],
    [0x1F, 0x1F, 0x0E, 0x04, 0x0A, 0x11, 0x17, 0x0E],
    [0x1F, 0x1F, 0x0E, 0x04, 0x0E, 0x11, 0x17, 0x0E],
    [0x1F, 0x1F, 0x0E, 0x04, 0x0A, 0x15, 0x17, 0x0E],
    [0x1F, 0x1F, 0x0E, 0x04, 0x0A, 0x11, 0x1F, 0x0E],
    [0x1F, 0x1F, 0x0A, 0x04, 0x0E, 0x11, 0x1F, 0x0E],
    [0x1F, 0x1B, 0x0E, 0x04, 0x0A, 0x15, 0x1F, 0x0E],
    [0x1F, 0x1B, 0x0A, 0x04, 0x0E, 0x19, 0x1F, 0x0E],
    [0x1F, 0x19, 0x0E, 0x04, 0x0A, 0x1B, 0x1F, 0x0E],
    [0x1F, 0x11, 0x0E, 0x04, 0x0E, 0x1B, 0x1F, 0x0E],
    [0x1F, 0x11, 0x0E, 0x04, 0x0A, 0x1F, 0x1F, 0x0E],
    [0x1F, 0x11, 0x0A, 0x04, 0x0E, 0x1F, 0x1F, 0x0E],
];

/// The icon of an asset. The USD/BRL screen shows an ASCII `$` instead and has none of its own.
pub fn asset_glyph(screen: Screen) -> (r: &'static Glyph)
    ensures
        *r == asset_icon(screen),
{
    match screen {
        Screen::Btc => &GLYPH_ASSET_BTC,
        Screen::Sol => &GLYPH_ASSET_SOL,
        Screen::Gold => &GLYPH_ASSET_GOLD,
        Screen::Oil => &GLYPH_ASSET_OIL,
        Screen::UsdBrl => &GLYPH_ASSET_BTC,
    }
}

pub open spec fn asset_icon(screen: Screen) -> Glyph {
    match screen {
        Screen::Btc => GLYPH_ASSET_BTC,
        Screen::Sol => GLYPH_ASSET_SOL,
        Screen::Gold => GLYPH_ASSET_GOLD,
        Screen::Oil => GLYPH_ASSET_OIL,
        Screen::UsdBrl => GLYPH_ASSET_BTC,
    }
}

/// Whether a countdown with this many dots left shows the dot at (row, col): the dots fill rows
/// 1 to 6, top to bottom and left to right, and the ones that are gone are the first.
pub open spec fn dot_left(dots_remaining: int, row: int, col: int) -> bool {
    1 <= row <= 6 && (row - 1) * 5 + col >= 30 - dots_remaining
}

/// The countdown glyph with this many dots left.
pub open spec fn countdown(dots_remaining: int) -> Seq<u8> {
    bits::glyph_of(|row: int, col: int| dot_left(dots_remaining, row, col))
}

/// Build a countdown glyph (5 wide, 6 rows of dots). More than 30 dots count as 30.
pub fn countdown_glyph(dots_remaining: u8) -> (g: Glyph)
    ensures
        g@ == countdown(if dots_remaining <= 30 { dots_remaining as int } else { 30 }),
{
    let mut g: Glyph = [0u8; 8];
    let total: u8 = 30;
    let remaining: u8 = if dots_remaining <= total {
        dots_remaining
    } else {
        total
    };
    let removed: u8 = total - remaining;
    proof {
        bits::lemma_zero_has_no_bits();
    }
    let mut dot_idx: u8 = 0;
    while dot_idx < total
        invariant
            total == 30,
            dot_idx <= total,
            removed == 30 - remaining,
            remaining <= 30,
            bits::five_wide(g@),
            forall|row: int, col: int|
                0 <= row < 8 && 0 <= col < 5 ==> #[trigger] bits::lit(g@, row, col) == (dot_left(
                    remaining as int,
                    row,
                    col,
                ) && (row - 1) * 5 + col < dot_idx),
        decreases total - dot_idx,
    {
        if dot_idx >= removed {
            let row: usize = 1 + (dot_idx / 5) as usize;
            let col: u8 = dot_idx % 5;
            let ghost before = g@;
            g[row] = bits::set_bit(g[row], 4 - col);
            assert forall|r: int, c: int| 0 <= r < 8 && 0 <= c < 5 implies #[trigger] bits::lit(
                g@,
                r,
                c,
            ) == (dot_left(remaining as int, r, c) && (r - 1) * 5 + c < dot_idx + 1) by {
                assert(bits::lit(before, r, c) == (dot_left(remaining as int, r, c) && (r - 1) * 5
                    + c < dot_idx));
                assert(g@[r] == before[r] || r == row);
            }
        }
        dot_idx += 1;
    }
    proof {
        bits::lemma_glyph_of(g@, |row: int, col: int| dot_left(remaining as int, row, col));
    }
    g
}

/// A full countdown shows all thirty dots, an empty one none, and each dot less takes away one
/// more: a dot that is gone stays gone.
pub proof fn law_countdown_runs_down(dots: int, row: int, col: int)
    requires
        0 <= dots < 30,
        0 <= row < 8,
        0 <= col < 5,
    ensures
        dot_left(30, row, col) == (1 <= row <= 6),
        !dot_left(0, row, col),
        dot_left(dots, row, col) ==> dot_left(dots + 1, row, col),
        dot_left(dots + 1, row, col) && !dot_left(dots, row, col) <==> 1 <= row <= 6 && (row - 1) * 5
            + col == 29 - dots,
{
}

} // verus!
