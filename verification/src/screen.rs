//! What the display shows: dirty tracking of rows and custom characters, and the state that the
//! screens are drawn from.

use vstd::prelude::*;

use crate::api;
use crate::api::MarketData;
use crate::bits;
use crate::config::Screen;
use crate::glyphs::Glyph;
use crate::lcd;
use crate::lcd::{Lcd, LcdOp};
use crate::tuya::LampState;

verus! {

/// Row + CGRAM dirty-tracking cache.
///
/// CGRAM is always written before DDRAM so icons are already correct by the time the row bytes
/// land on the display: no wrong-glyph flashes.
pub struct RowCache {
    rows: [[u8; 20]; 4],
    /// Last-written glyph per slot; filled with 0xFF where none was written.
    cgram: [[u8; 8]; 8],
}

/// What was last written, as far as the cache knows.
pub ghost struct Shown {
    pub rows: Seq<Seq<u8>>,
    pub cgram: Seq<Seq<u8>>,
}

impl View for RowCache {
    type V = Shown;

    closed spec fn view(&self) -> Shown {
        Shown {
            rows: Seq::new(4, |i: int| self.rows[i]@),
            cgram: Seq::new(8, |i: int| self.cgram[i]@),
        }
    }
}

pub open spec fn unwritten(n: nat) -> Seq<u8> {
    Seq::new(n, |i: int| 0xFFu8)
}

impl Shown {
    /// Four rows and eight slots.
    pub open spec fn valid(self) -> bool {
        &&& self.rows.len() == 4
        &&& self.cgram.len() == 8
    }

    /// The row is already there and need not be written. Row 0 is always written.
    pub open spec fn row_stands(self, row: u8, data: Seq<u8>) -> bool {
        0 < row < 4 && self.rows[row as int] == data
    }

    pub open spec fn with_row(self, row: u8, data: Seq<u8>) -> Shown {
        if row < 4 {
            Shown { rows: self.rows.update(row as int, data), ..self }
        } else {
            self
        }
    }

    pub open spec fn row_ops(self, row: u8, data: Seq<u8>, backlight: u8) -> Seq<LcdOp> {
        if self.row_stands(row, data) {
            Seq::empty()
        } else {
            lcd::cursor_ops(0, row, backlight) + lcd::data_ops(data, backlight)
        }
    }

    pub open spec fn with_glyph(self, slot: int, glyph: Seq<u8>) -> Shown {
        Shown { cgram: self.cgram.update(slot, glyph), ..self }
    }

    pub open spec fn glyph_ops(self, slot: int, glyph: Seq<u8>, backlight: u8) -> Seq<LcdOp> {
        if self.cgram[slot] == glyph {
            Seq::empty()
        } else {
            lcd::char_ops(slot as u8, glyph, backlight)
        }
    }

    /// The wanted ones among the first `n` glyphs, loaded.
    pub open spec fn loaded(self, glyphs: Seq<Seq<u8>>, want: Seq<bool>, n: nat) -> Shown
        decreases n,
    {
        if n == 0 {
            self
        } else if want[n - 1] {
            self.loaded(glyphs, want, (n - 1) as nat).with_glyph(n - 1, glyphs[n - 1])
        } else {
            self.loaded(glyphs, want, (n - 1) as nat)
        }
    }

    pub open spec fn load_ops(
        self,
        glyphs: Seq<Seq<u8>>,
        want: Seq<bool>,
        n: nat,
        backlight: u8,
    ) -> Seq<LcdOp>
        decreases n,
    {
        if n == 0 {
            Seq::empty()
        } else if want[n - 1] {
            self.load_ops(glyphs, want, (n - 1) as nat, backlight) + self.loaded(
                glyphs,
                want,
                (n - 1) as nat,
            ).glyph_ops(n - 1, glyphs[n - 1], backlight)
        } else {
            self.load_ops(glyphs, want, (n - 1) as nat, backlight)
        }
    }

    /// The first `n` rows, written.
    pub open spec fn filled(self, rows: Seq<Seq<u8>>, n: nat) -> Shown
        decreases n,
    {
        if n == 0 {
            self
        } else {
            self.filled(rows, (n - 1) as nat).with_row((n - 1) as u8, rows[n - 1])
        }
    }

    pub open spec fn fill_ops(self, rows: Seq<Seq<u8>>, n: nat, backlight: u8) -> Seq<LcdOp>
        decreases n,
    {
        if n == 0 {
            Seq::empty()
        } else {
            self.fill_ops(rows, (n - 1) as nat, backlight) + self.filled(
                rows,
                (n - 1) as nat,
            ).row_ops((n - 1) as u8, rows[n - 1], backlight)
        }
    }
}

/// The views of an array of glyphs.
pub open spec fn glyph_views(g: [[u8; 8]; 8]) -> Seq<Seq<u8>> {
    Seq::new(8, |i: int| g[i]@)
}

/// The views of an array of rows.
pub open spec fn row_views(r: [[u8; 20]; 4]) -> Seq<Seq<u8>> {
    Seq::new(4, |i: int| r[i]@)
}

impl RowCache {
    pub fn new() -> (r: Self)
        ensures
            r@.valid(),
            r@.rows == Seq::new(4, |i: int| unwritten(20)),
            r@.cgram == Seq::new(8, |i: int| unwritten(8)),
    {
        let r = RowCache { rows: [[0xFF; 20]; 4], cgram: [[0xFF; 8]; 8] };
        proof {
            assert forall|i: int| 0 <= i < 4 implies #[trigger] r@.rows[i] == unwritten(20) by {
                assert(r@.rows[i] =~= unwritten(20));
            }
            assert forall|i: int| 0 <= i < 8 implies #[trigger] r@.cgram[i] == unwritten(8) by {
                assert(r@.cgram[i] =~= unwritten(8));
            }
            assert(r@.rows =~= Seq::new(4, |i: int| unwritten(20)));
            assert(r@.cgram =~= Seq::new(8, |i: int| unwritten(8)));
        }
        r
    }

    /// Forgets the rows, so that all of them are written again. What CGRAM holds is kept by the
    /// display and stays known.
    pub fn invalidate(&mut self)
        ensures
            final(self)@.rows == Seq::new(4, |i: int| unwritten(20)),
            final(self)@.cgram == old(self)@.cgram,
    {
        self.rows = [[0xFF; 20]; 4];
        proof {
            assert forall|i: int| 0 <= i < 4 implies #[trigger] self@.rows[i] == unwritten(
                20,
            ) by {
                assert(self@.rows[i] =~= unwritten(20));
            }
            assert(self@.rows =~= Seq::new(4, |i: int| unwritten(20)));
            assert(self@.cgram =~= old(self)@.cgram);
        }
    }

    /// Write a row to the LCD, skipping if content is unchanged (row 0 always writes).
    pub fn commit(&mut self, lcd: &mut Lcd, row: u8, data: &[u8; 20])
        ensures
            final(self)@ == old(self)@.with_row(row, data@),
            lcd::queued(
                *old(lcd),
                *final(lcd),
                old(self)@.row_ops(row, data@, old(lcd).backlight),
            ),
    {
        let r: usize = row as usize;
        if r > 0 && r < 4 && bits::bytes_equal(self.rows[r].as_slice(), data.as_slice()) {
            proof {
                assert(old(self)@.rows[row as int] == data@);
                assert(self@.rows =~= old(self)@.with_row(row, data@).rows);
                assert(lcd.ops@ =~= old(lcd).ops@ + old(self)@.row_ops(
                    row,
                    data@,
                    old(lcd).backlight,
                ));
            }
            return ;
        }
        if r < 4 {
            self.rows[r] = *data;
        }
        proof {
            assert(self@.rows =~= old(self)@.with_row(row, data@).rows);
            assert(self@.cgram =~= old(self)@.cgram);
            if r < 4 {
                assert(old(self)@.rows[row as int] == old(self).rows[r as int]@);
            }
        }
        lcd.set_cursor(0, row);
        lcd.write_raw(data.as_slice());
        assert(lcd.ops@ =~= old(lcd).ops@ + old(self)@.row_ops(row, data@, old(lcd).backlight));
    }

    /// Write a glyph to a CGRAM slot only if it changed since last write.
    pub fn write_glyph(&mut self, lcd: &mut Lcd, slot: u8, glyph: &[u8; 8])
        requires
            slot < 8,
        ensures
            final(self)@ == old(self)@.with_glyph(slot as int, glyph@),
            lcd::queued(
                *old(lcd),
                *final(lcd),
                old(self)@.glyph_ops(slot as int, glyph@, old(lcd).backlight),
            ),
    {
        let s: usize = slot as usize;
        if !bits::bytes_equal(self.cgram[s].as_slice(), glyph.as_slice()) {
            self.cgram[s] = *glyph;
            lcd.create_char(slot, glyph);
        }
        proof {
            assert(old(self)@.cgram[slot as int] == old(self).cgram[s as int]@);
            assert(self@.cgram =~= old(self)@.with_glyph(slot as int, glyph@).cgram);
            assert(self@.rows =~= old(self)@.rows);
            assert(lcd.ops@ =~= old(lcd).ops@ + old(self)@.glyph_ops(
                slot as int,
                glyph@,
                old(lcd).backlight,
            ));
        }
    }

    /// Writes the wanted ones of eight glyphs, each to the slot of its number.
    pub fn load(&mut self, lcd: &mut Lcd, glyphs: &[Glyph; 8], want: &[bool; 8])
        ensures
            final(self)@ == old(self)@.loaded(glyph_views(*glyphs), want@, 8),
            lcd::queued(
                *old(lcd),
                *final(lcd),
                old(self)@.load_ops(glyph_views(*glyphs), want@, 8, old(lcd).backlight),
            ),
    {
        let ghost m = self@;
        let ghost g = glyph_views(*glyphs);
        let ghost light = lcd.backlight;
        let mut slot: u8 = 0;
        assert(lcd.ops@ =~= old(lcd).ops@ + m.load_ops(g, want@, 0, light));
        while slot < 8
            invariant
                slot <= 8,
                g == glyph_views(*glyphs),
                light == old(lcd).backlight,
                self@ == m.loaded(g, want@, slot as nat),
                lcd::queued(*old(lcd), *lcd, m.load_ops(g, want@, slot as nat, light)),
            decreases 8 - slot,
        {
            if want[slot as usize] {
                self.write_glyph(lcd, slot, &glyphs[slot as usize]);
            }
            slot += 1;
            assert(lcd.ops@ =~= old(lcd).ops@ + m.load_ops(g, want@, slot as nat, light));
        }
    }

    /// Writes all four rows, top to bottom.
    pub fn fill(&mut self, lcd: &mut Lcd, rows: &[[u8; 20]; 4])
        ensures
            final(self)@ == old(self)@.filled(row_views(*rows), 4),
            lcd::queued(
                *old(lcd),
                *final(lcd),
                old(self)@.fill_ops(row_views(*rows), 4, old(lcd).backlight),
            ),
    {
        let ghost m = self@;
        let ghost r = row_views(*rows);
        let ghost light = lcd.backlight;
        let mut row: u8 = 0;
        assert(lcd.ops@ =~= old(lcd).ops@ + m.fill_ops(r, 0, light));
        while row < 4
            invariant
                row <= 4,
                r == row_views(*rows),
                light == old(lcd).backlight,
                self@ == m.filled(r, row as nat),
                lcd::queued(*old(lcd), *lcd, m.fill_ops(r, row as nat, light)),
            decreases 4 - row,
        {
            self.commit(lcd, row, &rows[row as usize]);
            row += 1;
            assert(lcd.ops@ =~= old(lcd).ops@ + m.fill_ops(r, row as nat, light));
        }
    }
}

/// A row below the first that was just written is not written again, and a row that was not
/// written yet, or was forgotten, always is.
pub proof fn law_unchanged_row_stands(m: Shown, row: u8, data: Seq<u8>, backlight: u8)
    requires
        m.valid(),
        0 < row < 4,
    ensures
        m.with_row(row, data).row_ops(row, data, backlight) == Seq::<LcdOp>::empty(),
        m.with_row(row, data).with_row(row, data) == m.with_row(row, data),
        m.rows[row as int] != data ==> m.row_ops(row, data, backlight) == lcd::cursor_ops(
            0,
            row,
            backlight,
        ) + lcd::data_ops(data, backlight),
{
    assert(m.with_row(row, data).with_row(row, data).rows =~= m.with_row(row, data).rows);
}

/// The first row is written every time.
pub proof fn law_first_row_always_written(m: Shown, data: Seq<u8>, backlight: u8)
    ensures
        m.row_ops(0, data, backlight) == lcd::cursor_ops(0, 0, backlight) + lcd::data_ops(
            data,
            backlight,
        ),
{
}

/// A glyph that was just loaded is not sent again.
pub proof fn law_unchanged_glyph_stands(m: Shown, slot: int, glyph: Seq<u8>, backlight: u8)
    requires
        m.valid(),
        0 <= slot < 8,
    ensures
        m.with_glyph(slot, glyph).glyph_ops(slot, glyph, backlight) == Seq::<LcdOp>::empty(),
        m.with_glyph(slot, glyph).rows == m.rows,
{
}

/// All UI state needed for rendering.
pub struct UiState {
    pub screen: Screen,
    pub data: MarketData,
    pub lamp: LampState,
    pub wifi_connected: bool,
    pub fetching: bool,
    pub loading_frame: u16,
    pub lamp_loading_frame: u16,
    pub fetch_completed_at: u64,
    pub lamp_anim_until: u64,
    pub pot_enabled: bool,
    /// Volume in percent; 255 while it was not read yet.
    pub volume_pct: u8,
}

impl Default for UiState {
    fn default() -> (r: Self)
        ensures
            r.screen == Screen::Btc,
            r.data == api::no_data(),
            r.lamp == (LampState { on: false, known: false }),
            !r.wifi_connected,
            !r.fetching,
            r.loading_frame == 0,
            r.lamp_loading_frame == 0,
            r.fetch_completed_at == 0,
            r.lamp_anim_until == 0,
            r.pot_enabled,
            r.volume_pct == 255,
    {
        UiState {
            screen: Screen::Btc,
            data: MarketData::default(),
            lamp: LampState::default(),
            wifi_connected: false,
            fetching: false,
            loading_frame: 0,
            lamp_loading_frame: 0,
            fetch_completed_at: 0,
            lamp_anim_until: 0,
            pot_enabled: true,
            volume_pct: 255,
        }
    }
}

} // verus!
