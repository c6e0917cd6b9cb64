//! The display shows what was written to it.

use vstd::prelude::*;

use crate::bits;
use crate::cgram;
use crate::cgram::CgramPool;
use crate::chart;
use crate::chart::ChartText;
use crate::glyphs;
use crate::glyphs::Glyph;
use crate::lcd;
use crate::lcd::{Lcd, LcdOp};
use crate::screen;
use crate::screen::{RowCache, Shown, UiState};
use crate::ticker;
use crate::ticker::TickerText;

verus! {

// ── The controller ────────────────────────────────────────────────────────────
/// The memory of the display's controller, and where the next byte of data goes.
pub ghost struct Memory {
    /// Characters by address.
    pub text: Map<int, u8>,
    /// Rows of the eight custom characters, one behind the other.
    pub glyphs: Map<int, u8>,
    pub to_glyphs: bool,
    pub address: int,
}

impl Memory {
    /// One byte, data or command. Of the commands only those that set an address matter here.
    pub open spec fn take(self, data: bool, b: u8) -> Memory {
        if data && self.to_glyphs {
            Memory {
                glyphs: self.glyphs.insert(self.address, b),
                address: self.address + 1,
                ..self
            }
        } else if data {
            Memory { text: self.text.insert(self.address, b), address: self.address + 1, ..self }
        } else if b >= 0x80 {
            Memory { to_glyphs: false, address: b - 0x80, ..self }
        } else if b >= 0x40 {
            Memory { to_glyphs: true, address: b - 0x40, ..self }
        } else {
            self
        }
    }

    pub open spec fn take_all(self, bytes: Seq<(bool, u8)>) -> Memory
        decreases bytes.len(),
    {
        if bytes.len() == 0 {
            self
        } else {
            let m = self.take_all(bytes.drop_last());
            m.take(bytes.last().0, bytes.last().1)
        }
    }
}

/// The level of a line of the bus during a write.
pub open spec fn line(op: LcdOp, mask: u8) -> bool {
    op matches LcdOp::Write(w) && w & mask != 0
}

/// The upper four lines during a write, as a number.
pub open spec fn half(op: LcdOp) -> int {
    match op {
        LcdOp::Write(w) => (w / 16) as int,
        _ => 0,
    }
}

/// What the controller gets out of writes that come six to a byte: it takes the upper lines while
/// enable is high, in the second and in the fifth write, and tells data from commands by the lowest.
pub open spec fn received(ops: Seq<LcdOp>) -> Seq<(bool, u8)>
    decreases ops.len(),
{
    if ops.len() < 6 {
        Seq::empty()
    } else {
        seq![(line(ops[1], 0x01), (16 * half(ops[1]) + half(ops[4])) as u8)] + received(ops.skip(6))
    }
}

/// What the controller holds after the writes.
pub open spec fn sent(m: Memory, ops: Seq<LcdOp>) -> Memory {
    m.take_all(received(ops))
}

/// Address of the first character of a row: the controller has two lines of 40, the lower at 64, and
/// the display shows their second halves below their first.
pub open spec fn row_start(row: int) -> int {
    if row == 0 {
        0
    } else if row == 1 {
        64
    } else if row == 2 {
        20
    } else {
        84
    }
}

pub open spec fn plain_light(b: u8) -> bool {
    b == 0 || b == 8
}

proof fn lemma_byte(v: u8, rs: bool, light: u8, rest: Seq<LcdOp>)
    requires
        plain_light(light),
    ensures
        received(lcd::byte_ops(v, rs, light) + rest) == seq![(rs, v)] + received(rest),
{
    let b = lcd::byte_ops(v, rs, light);
    let ops = b + rest;
    lcd::law_byte_arrives(v, rs, light);
    assert(ops.skip(6) =~= rest);
    assert(ops[1] == b[1] && ops[4] == b[4]);
    assert(lcd::lines_are(b[1], true, rs, light));
    let r: u8 = lcd::rs_bit(rs);
    let high: u8 = (((v & 0xF0) | r) | 4u8) | light;
    let low: u8 = ((((v << 4) & 0xF0) | r) | 4u8) | light;
    assert(b[1] == LcdOp::Write(high));
    assert(b[4] == LcdOp::Write(low));
    assert(high / 16 == v / 16 && low / 16 == v % 16 && (high & 1 != 0) == (r == 1)) by (bit_vector)
        requires
            r == 0 || r == 1,
            light == 0 || light == 8,
            high == (((v & 0xF0) | r) | 4u8) | light,
            low == ((((v << 4) & 0xF0) | r) | 4u8) | light,
    ;
    assert(16 * (v / 16) + v % 16 == v);
}

/// A run of data bytes, as the controller gets it.
pub open spec fn as_data(data: Seq<u8>) -> Seq<(bool, u8)> {
    Seq::new(data.len(), |i: int| (true, data[i]))
}

proof fn lemma_data(data: Seq<u8>, light: u8, rest: Seq<LcdOp>)
    requires
        plain_light(light),
    ensures
        received(lcd::data_ops(data, light) + rest) == as_data(data) + received(rest),
    decreases data.len(),
{
    if data.len() == 0 {
        assert(lcd::data_ops(data, light) + rest =~= rest);
        assert(as_data(data) + received(rest) =~= received(rest));
    } else {
        let d = data.drop_last();
        let tail = lcd::byte_ops(data.last(), true, light) + rest;
        assert(lcd::data_ops(data, light) + rest =~= lcd::data_ops(d, light) + tail);
        lemma_data(d, light, tail);
        lemma_byte(data.last(), true, light, rest);
        assert(as_data(d) + (seq![(true, data.last())] + received(rest)) =~= as_data(data)
            + received(rest));
    }
}

proof fn lemma_take_concat(m: Memory, a: Seq<(bool, u8)>, b: Seq<(bool, u8)>)
    ensures
        m.take_all(a + b) == m.take_all(a).take_all(b),
    decreases b.len(),
{
    if b.len() == 0 {
        assert(a + b =~= a);
    } else {
        lemma_take_concat(m, a, b.drop_last());
        assert((a + b).drop_last() =~= a + b.drop_last());
    }
}

proof fn lemma_take_data(m: Memory, data: Seq<u8>)
    ensures
        ({
            let e = m.take_all(as_data(data));
            &&& e.to_glyphs == m.to_glyphs
            &&& e.address == m.address + data.len()
            &&& m.to_glyphs ==> e.text == m.text && forall|a: int| #[trigger]
                e.glyphs[a] == if m.address <= a < m.address + data.len() {
                    data[a - m.address]
                } else {
                    m.glyphs[a]
                }
            &&& !m.to_glyphs ==> e.glyphs == m.glyphs && forall|a: int| #[trigger]
                e.text[a] == if m.address <= a < m.address + data.len() {
                    data[a - m.address]
                } else {
                    m.text[a]
                }
        }),
    decreases data.len(),
{
    if data.len() == 0 {
        assert(as_data(data) =~= Seq::<(bool, u8)>::empty());
    } else {
        lemma_take_data(m, data.drop_last());
        assert(as_data(data).drop_last() =~= as_data(data.drop_last()));
    }
}

/// Everything that was sent of `data` behind an address command.
proof fn lemma_addressed(m: Memory, cmd: u8, data: Seq<u8>, light: u8, rest: Seq<LcdOp>)
    requires
        plain_light(light),
    ensures
        sent(m, lcd::command_ops(cmd, light) + lcd::data_ops(data, light) + rest) == sent(
            m.take(false, cmd).take_all(as_data(data)),
            rest,
        ),
{
    let a = lcd::command_ops(cmd, light);
    let b = lcd::data_ops(data, light);
    assert(a + b + rest =~= a + (b + rest));
    lemma_byte(cmd, false, light, b + rest);
    lemma_data(data, light, rest);
    let first = seq![(false, cmd)];
    lemma_take_concat(m, first, as_data(data) + received(rest));
    lemma_take_concat(m.take_all(first), as_data(data), received(rest));
    assert(first.drop_last() =~= Seq::<(bool, u8)>::empty());
    assert(m.take_all(first.drop_last()) == m);
    assert(m.take_all(first) == m.take(false, cmd));
}

/// The display shows what the cache has of a row, where it has anything.
pub open spec fn shows_row(m: Memory, s: Shown, r: int) -> bool {
    s.rows[r] != screen::unwritten(20) ==> forall|k: int|
        0 <= k < 20 ==> #[trigger] m.text[row_start(r) + k] == s.rows[r][k]
}

pub open spec fn holds_glyph(m: Memory, s: Shown, slot: int) -> bool {
    s.cgram[slot] != screen::unwritten(8) ==> forall|k: int|
        0 <= k < 8 ==> #[trigger] m.glyphs[8 * slot + k] == s.cgram[slot][k]
}

/// The display holds what the cache says it holds.
pub open spec fn agrees(m: Memory, s: Shown) -> bool {
    &&& s.rows.len() == 4 && s.cgram.len() == 8
    &&& forall|r: int| 0 <= r < 4 ==> #[trigger] s.rows[r].len() == 20
    &&& forall|i: int| 0 <= i < 8 ==> #[trigger] s.cgram[i].len() == 8
    &&& forall|r: int| 0 <= r < 4 ==> #[trigger] shows_row(m, s, r)
    &&& forall|i: int| 0 <= i < 8 ==> #[trigger] holds_glyph(m, s, i)
}

proof fn lemma_row_written(m: Memory, s: Shown, row: u8, data: Seq<u8>, light: u8, rest: Seq<LcdOp>)
    -> (e: Memory)
    requires
        agrees(m, s),
        row < 4,
        data.len() == 20,
        data != screen::unwritten(20),
        plain_light(light),
    ensures
        agrees(e, s.with_row(row, data)),
        sent(m, s.row_ops(row, data, light) + rest) == sent(e, rest),
        forall|k: int| 0 <= k < 20 ==> #[trigger] e.text[row_start(row as int) + k] == data[k],
{
    let t = s.with_row(row, data);
    if s.row_stands(row, data) {
        assert(s.row_ops(row, data, light) + rest =~= rest);
        assert(s.rows.update(row as int, data) =~= s.rows);
        assert(t == s);
        assert(shows_row(m, s, row as int));
        m
    } else {
        let cmd: u8 = lcd::CMD_SET_DDRAM | ((lcd::row_offset(row) + 0) as u8);
        let off: u8 = lcd::row_offset(row);
        assert(0x80u8 | off == 0x80 + off) by (bit_vector)
            requires
                off < 0x80,
        ;
        assert(cmd == 0x80 + row_start(row as int));
        lemma_addressed(m, cmd, data, light, rest);
        let f = m.take(false, cmd);
        lemma_take_data(f, data);
        let e = f.take_all(as_data(data));
        assert forall|r: int| 0 <= r < 4 implies #[trigger] shows_row(e, t, r) by {
            assert(shows_row(m, s, r));
            if r != row {
                assert forall|k: int| 0 <= k < 20 implies #[trigger] e.text[row_start(r) + k]
                    == m.text[row_start(r) + k] by {}
            }
        }
        assert forall|i: int| 0 <= i < 8 implies #[trigger] holds_glyph(e, t, i) by {
            assert(holds_glyph(m, s, i));
        }
        e
    }
}

proof fn lemma_glyph_written(
    m: Memory,
    s: Shown,
    slot: int,
    glyph: Seq<u8>,
    light: u8,
    rest: Seq<LcdOp>,
) -> (e: Memory)
    requires
        agrees(m, s),
        0 <= slot < 8,
        glyph.len() == 8,
        glyph != screen::unwritten(8),
        plain_light(light),
    ensures
        agrees(e, s.with_glyph(slot, glyph)),
        sent(m, s.glyph_ops(slot, glyph, light) + rest) == sent(e, rest),
        forall|k: int| 0 <= k < 8 ==> #[trigger] e.glyphs[8 * slot + k] == glyph[k],
        e.text == m.text,
{
    let t = s.with_glyph(slot, glyph);
    if s.cgram[slot] == glyph {
        assert(s.glyph_ops(slot, glyph, light) + rest =~= rest);
        assert(s.cgram.update(slot, glyph) =~= s.cgram);
        assert(t == s);
        assert(holds_glyph(m, s, slot));
        m
    } else {
        let u = slot as u8;
        let cmd: u8 = lcd::CMD_SET_CGRAM | ((u & 0x07) << 3);
        assert(0x40u8 | ((u & 0x07) << 3) == 0x40 + 8 * u) by (bit_vector)
            requires
                u < 8,
        ;
        lemma_addressed(m, cmd, glyph, light, rest);
        let f = m.take(false, cmd);
        lemma_take_data(f, glyph);
        let e = f.take_all(as_data(glyph));
        assert forall|r: int| 0 <= r < 4 implies #[trigger] shows_row(e, t, r) by {
            assert(shows_row(m, s, r));
        }
        assert forall|i: int| 0 <= i < 8 implies #[trigger] holds_glyph(e, t, i) by {
            assert(holds_glyph(m, s, i));
            if i != slot {
                assert forall|k: int| 0 <= k < 8 implies #[trigger] e.glyphs[8 * i + k] == m.glyphs[8
                    * i + k] by {}
            }
        }
        e
    }
}

/// What was queued by a call.
pub open spec fn queued_ops(pre: Lcd, post: Lcd) -> Seq<LcdOp> {
    post.ops@.skip(pre.ops@.len() as int)
}

/// A row that was committed is on the display, in its place, whether it had to be sent or not; and the
/// cache goes on agreeing with the display.
pub proof fn law_row_is_shown(
    cache: &mut RowCache,
    lcd: &mut Lcd,
    row: u8,
    data: [u8; 20],
    m: Memory,
)
    requires
        row < 4,
        plain_light(old(lcd).backlight),
        data@ != screen::unwritten(20),
        agrees(m, old(cache)@),
        call_ensures(RowCache::commit, (cache, lcd, row, &data), ()),
    ensures
        forall|k: int|
            0 <= k < 20 ==> #[trigger] sent(m, queued_ops(*old(lcd), *final(lcd))).text[row_start(
                row as int,
            ) + k] == data[k],
        agrees(sent(m, queued_ops(*old(lcd), *final(lcd))), final(cache)@),
{
    let s = old(cache)@;
    let ops = s.row_ops(row, data@, old(lcd).backlight);
    assert(queued_ops(*old(lcd), *final(lcd)) =~= ops);
    let e = lemma_row_written(m, s, row, data@, old(lcd).backlight, Seq::empty());
    assert(ops + Seq::<LcdOp>::empty() =~= ops);
    assert(sent(e, Seq::empty()) == e);
}

/// A glyph that was written is in its slot of the display, whether it had to be sent or not; the text
/// stays as it is.
pub proof fn law_glyph_is_held(
    cache: &mut RowCache,
    lcd: &mut Lcd,
    slot: u8,
    glyph: Glyph,
    m: Memory,
)
    requires
        slot < 8,
        plain_light(old(lcd).backlight),
        glyph@ != screen::unwritten(8),
        agrees(m, old(cache)@),
        call_ensures(RowCache::write_glyph, (cache, lcd, slot, &glyph), ()),
    ensures
        forall|k: int|
            0 <= k < 8 ==> #[trigger] sent(m, queued_ops(*old(lcd), *final(lcd))).glyphs[8 * slot
                + k] == glyph[k],
        sent(m, queued_ops(*old(lcd), *final(lcd))).text == m.text,
        agrees(sent(m, queued_ops(*old(lcd), *final(lcd))), final(cache)@),
{
    let s = old(cache)@;
    let ops = s.glyph_ops(slot as int, glyph@, old(lcd).backlight);
    assert(queued_ops(*old(lcd), *final(lcd)) =~= ops);
    let e = lemma_glyph_written(m, s, slot as int, glyph@, old(lcd).backlight, Seq::empty());
    assert(ops + Seq::<LcdOp>::empty() =~= ops);
    assert(sent(e, Seq::empty()) == e);
}

/// All rows of which each is something other than the mark of a row that was never written.
pub open spec fn plain_rows(rows: Seq<Seq<u8>>) -> bool {
    &&& rows.len() == 4
    &&& forall|r: int| 0 <= r < 4 ==> #[trigger] rows[r].len() == 20 && rows[r] != screen::unwritten(20)
}

pub open spec fn plain_glyphs(glyphs: Seq<Seq<u8>>) -> bool {
    &&& glyphs.len() == 8
    &&& forall|i: int|
        0 <= i < 8 ==> #[trigger] glyphs[i].len() == 8 && glyphs[i] != screen::unwritten(8)
}

/// The first `n` rows are on the display.
proof fn lemma_filled(
    m: Memory,
    s: Shown,
    rows: Seq<Seq<u8>>,
    n: nat,
    light: u8,
    rest: Seq<LcdOp>,
) -> (e: Memory)
    requires
        agrees(m, s),
        plain_rows(rows),
        n <= 4,
        plain_light(light),
    ensures
        agrees(e, s.filled(rows, n)),
        sent(m, s.fill_ops(rows, n, light) + rest) == sent(e, rest),
        forall|r: int| 0 <= r < n ==> #[trigger] s.filled(rows, n).rows[r] == rows[r],
        s.filled(rows, n).cgram == s.cgram,
    decreases n,
{
    if n == 0 {
        assert(s.fill_ops(rows, n, light) + rest =~= rest);
        m
    } else {
        let k = (n - 1) as nat;
        let last = s.filled(rows, k).row_ops(k as u8, rows[k as int], light);
        let d = lemma_filled(m, s, rows, k, light, last + rest);
        assert(s.fill_ops(rows, n, light) + rest =~= s.fill_ops(rows, k, light) + (last + rest));
        lemma_row_written(d, s.filled(rows, k), k as u8, rows[k as int], light, rest)
    }
}

/// The wanted ones of the first `n` glyphs are in their slots.
proof fn lemma_loaded(
    m: Memory,
    s: Shown,
    glyphs: Seq<Seq<u8>>,
    want: Seq<bool>,
    n: nat,
    light: u8,
    rest: Seq<LcdOp>,
) -> (e: Memory)
    requires
        agrees(m, s),
        plain_glyphs(glyphs),
        n <= 8,
        plain_light(light),
    ensures
        agrees(e, s.loaded(glyphs, want, n)),
        sent(m, s.load_ops(glyphs, want, n, light) + rest) == sent(e, rest),
        forall|i: int| 0 <= i < n && want[i] ==> #[trigger] s.loaded(glyphs, want, n).cgram[i]
            == glyphs[i],
    decreases n,
{
    if n == 0 {
        assert(s.load_ops(glyphs, want, n, light) + rest =~= rest);
        m
    } else {
        let k = (n - 1) as nat;
        let before = s.loaded(glyphs, want, k);
        if want[k as int] {
            let last = before.glyph_ops(k as int, glyphs[k as int], light);
            let d = lemma_loaded(m, s, glyphs, want, k, light, last + rest);
            assert(s.load_ops(glyphs, want, n, light) + rest =~= s.load_ops(glyphs, want, k, light)
                + (last + rest));
            lemma_glyph_written(d, before, k as int, glyphs[k as int], light, rest)
        } else {
            lemma_loaded(m, s, glyphs, want, k, light, rest)
        }
    }
}

/// Four rows that were filled in are on the display.
pub proof fn law_rows_are_shown(cache: &mut RowCache, lcd: &mut Lcd, rows: [[u8; 20]; 4], m: Memory)
    requires
        plain_light(old(lcd).backlight),
        plain_rows(screen::row_views(rows)),
        agrees(m, old(cache)@),
        call_ensures(RowCache::fill, (cache, lcd, &rows), ()),
    ensures
        agrees(sent(m, queued_ops(*old(lcd), *final(lcd))), final(cache)@),
        forall|r: int, k: int|
            0 <= r < 4 && 0 <= k < 20 ==> #[trigger] sent(
                m,
                queued_ops(*old(lcd), *final(lcd)),
            ).text[row_start(r) + k] == rows[r][k],
{
    let s = old(cache)@;
    let v = screen::row_views(rows);
    let ops = s.fill_ops(v, 4, old(lcd).backlight);
    assert(queued_ops(*old(lcd), *final(lcd)) =~= ops);
    let e = lemma_filled(m, s, v, 4, old(lcd).backlight, Seq::empty());
    assert(ops + Seq::<LcdOp>::empty() =~= ops);
    assert(sent(e, Seq::empty()) == e);
    assert forall|r: int, k: int| 0 <= r < 4 && 0 <= k < 20 implies #[trigger] e.text[row_start(r)
        + k] == rows[r][k] by {
        assert(shows_row(e, final(cache)@, r));
        assert(s.filled(v, 4).rows[r] == v[r]);
    }
}

/// Glyphs that were loaded are in the slots of their numbers.
pub proof fn law_glyphs_are_held(
    cache: &mut RowCache,
    lcd: &mut Lcd,
    glyphs: [Glyph; 8],
    want: [bool; 8],
    m: Memory,
)
    requires
        plain_light(old(lcd).backlight),
        plain_glyphs(screen::glyph_views(glyphs)),
        agrees(m, old(cache)@),
        call_ensures(RowCache::load, (cache, lcd, &glyphs, &want), ()),
    ensures
        agrees(sent(m, queued_ops(*old(lcd), *final(lcd))), final(cache)@),
        forall|i: int, k: int|
            0 <= i < 8 && want[i] && 0 <= k < 8 ==> #[trigger] sent(
                m,
                queued_ops(*old(lcd), *final(lcd)),
            ).glyphs[8 * i + k] == glyphs[i][k],
{
    let s = old(cache)@;
    let v = screen::glyph_views(glyphs);
    let ops = s.load_ops(v, want@, 8, old(lcd).backlight);
    assert(queued_ops(*old(lcd), *final(lcd)) =~= ops);
    let e = lemma_loaded(m, s, v, want@, 8, old(lcd).backlight, Seq::empty());
    assert(ops + Seq::<LcdOp>::empty() =~= ops);
    assert(sent(e, Seq::empty()) == e);
    assert forall|i: int, k: int|
        0 <= i < 8 && want[i] && 0 <= k < 8 implies #[trigger] e.glyphs[8 * i + k]
        == glyphs[i][k] by {
        assert(holds_glyph(e, final(cache)@, i));
        assert(s.loaded(v, want@, 8).cgram[i] == v[i]);
    }
}

// ── The ticker ────────────────────────────────────────────────────────────────
/// Every glyph of the ticker leaves the three unseen columns alone.
proof fn lemma_ticker_glyphs(state: UiState, now: u64)
    ensures
        plain_glyphs(ticker::ticker_glyphs(state, now)),
{
    let g = ticker::ticker_glyphs(state, now);
    assert forall|i: int| 0 <= i < 8 implies #[trigger] g[i].len() == 8 && g[i]
        != screen::unwritten(8) by {
        lemma_frames(state.lamp_loading_frame as int % 17);
        lemma_frames(state.loading_frame as int % 17);
        let left = 30 - ticker::dots_gone(ticker::elapsed_secs(state, now));
        bits::lemma_glyph_lit(|row: int, col: int| glyphs::dot_left(left, row, col), 0, 0);
        assert(g[i][0] < 32);
        assert(screen::unwritten(8)[0] == 0xFF);
    }
}

proof fn lemma_frames(i: int)
    requires
        0 <= i < 17,
    ensures
        glyphs::HOURGLASS[i][0] == 0x1F,
{
    assert(i == 0 || i == 1 || i == 2 || i == 3 || i == 4 || i == 5 || i == 6 || i == 7 || i == 8 || i
        == 9 || i == 10 || i == 11 || i == 12 || i == 13 || i == 14 || i == 15 || i == 16);
}

proof fn lemma_ticker_rows(state: UiState, text: TickerText, unix: u64)
    requires
        ticker::weather_fits(state, text),
    ensures
        plain_rows(ticker::ticker_rows(state, text, unix)),
{
    let rows = ticker::ticker_rows(state, text, unix);
    let mark = screen::unwritten(20);
    assert(mark[0] == 0xFF);
    assert(rows[0][0] == 1);
    assert(rows[1][0] == 7 || rows[1][0] == 0x24);
    lemma_price_row(state, text.scaled);
    assert(rows[2][0] == 0x50);
    let change = vstd::utf8::encode_utf8(text.change@);
    let temp = vstd::utf8::encode_utf8(text.temp@);
    let cells = ticker::change_cells(state, change);
    let left = ticker::text_row(cells);
    assert(left[0] == cells[0]);
    if ticker::shows_weather(state) {
        let label = vstd::utf8::encode_utf8(
            crate::api::weather_word(state.data.weather_code->0),
        );
        let right = ticker::weather_cells(temp, label);
        assert(right[0] == 4);
        assert(right.len() == 5 + temp.len() + label.len());
        if right.len() == 20 {
            assert(rows[3][0] == right[0]);
        } else {
            assert(rows[3][0] == left[0]);
        }
    }
    assert(rows[3].len() == 20);
    assert(rows[3][0] != 0xFF);
    assert forall|r: int| 0 <= r < 4 implies #[trigger] rows[r].len() == 20 && rows[r] != mark by {
        assert(rows[r][0] != mark[0]);
    }
}

proof fn lemma_price_row(state: UiState, scaled: u64)
    ensures
        ticker::price_row(state, scaled)[0] == 0x50,
{
    reveal_strlit("Price: $ ");
    let full = "Price: $ "@ + crate::fmt::price_text(
        crate::chart::price_of(state),
        scaled,
        state.screen.places(),
    );
    let s = crate::fmt::twenty(full);
    assert(s[0] == 'P');
    assert(s =~= seq!['P'] + s.skip(1));
    crate::text::lemma_encode_concat(seq!['P'], s.skip(1));
    reveal_with_fuel(vstd::utf8::encode_utf8, 2);
    assert(vstd::utf8::is_ascii_chars(seq!['P']));
    vstd::utf8::is_ascii_chars_encode_utf8(seq!['P']);
}

/// After the ticker was drawn the display shows its four rows, header, asset, price and change from
/// top to bottom, and every custom character in them has its glyph.
pub proof fn law_ticker_is_shown(
    lcd: &mut Lcd,
    cache: &mut RowCache,
    state: UiState,
    text: TickerText,
    now: u64,
    unix: u64,
    m: Memory,
    rows: ([u8; 20], [u8; 20], [u8; 20], [u8; 20]),
    glyphs: [Glyph; 8],
    k: int,
)
    requires
        ticker::weather_fits(state, text),
        unix <= i64::MAX,
        plain_light(old(lcd).backlight),
        agrees(m, old(cache)@),
        call_ensures(ticker::render, (lcd, cache, &state, &text, now, unix), ()),
        call_ensures(ticker::build_header, (&state, unix), rows.0),
        call_ensures(ticker::build_asset_row, (&state,), rows.1),
        call_ensures(ticker::build_price_row, (&state, text.scaled), rows.2),
        call_ensures(ticker::build_change_row, (&state, &text), rows.3),
        call_ensures(ticker::all_glyphs, (&state, now), glyphs),
        0 <= k < 20,
    ensures
        ({
            let e = sent(m, queued_ops(*old(lcd), *final(lcd)));
            &&& agrees(e, final(cache)@)
            &&& e.text[k] == rows.0[k]
            &&& e.text[64 + k] == rows.1[k]
            &&& e.text[20 + k] == rows.2[k]
            &&& e.text[84 + k] == rows.3[k]
            &&& forall|c: int, j: int|
                0 <= c < 8 && 0 <= j < 8 && (rows.0[k] == c || rows.1[k] == c || rows.2[k] == c
                    || rows.3[k] == c) ==> #[trigger] e.glyphs[8 * c + j] == glyphs[c][j]
        }),
{
    let s = old(cache)@;
    let light = old(lcd).backlight;
    let v = ticker::ticker_rows(state, text, unix);
    let g = ticker::ticker_glyphs(state, now);
    let want = ticker::slots_in(v);
    lemma_ticker_rows(state, text, unix);
    lemma_ticker_glyphs(state, now);
    let t = s.loaded(g, want, 8);
    let fill = t.fill_ops(v, 4, light);
    let load = s.load_ops(g, want, 8, light);
    assert(queued_ops(*old(lcd), *final(lcd)) =~= load + fill);
    let d = lemma_loaded(m, s, g, want, 8, light, fill);
    let e = lemma_filled(d, t, v, 4, light, Seq::empty());
    assert(fill + Seq::<LcdOp>::empty() =~= fill);
    assert(sent(e, Seq::empty()) == e);
    let f = t.filled(v, 4);
    assert(f == final(cache)@);
    assert(shows_row(e, f, 0) && shows_row(e, f, 1) && shows_row(e, f, 2) && shows_row(e, f, 3));
    assert(f.rows[0] == v[0] && f.rows[1] == v[1] && f.rows[2] == v[2] && f.rows[3] == v[3]);
    assert(e.text[row_start(0) + k] == v[0][k]);
    assert(e.text[row_start(1) + k] == v[1][k]);
    assert(e.text[row_start(2) + k] == v[2][k]);
    assert(e.text[row_start(3) + k] == v[3][k]);
    assert forall|c: int, j: int|
        0 <= c < 8 && 0 <= j < 8 && (rows.0[k] == c || rows.1[k] == c || rows.2[k] == c || rows.3[k]
            == c) implies #[trigger] e.glyphs[8 * c + j] == glyphs[c][j] by {
        let r: int = if rows.0[k] == c {
            0
        } else if rows.1[k] == c {
            1
        } else if rows.2[k] == c {
            2
        } else {
            3
        };
        assert(v[r][k] == c as u8);
        assert(v[r].contains(c as u8));
        assert(want[c]);
        assert(t.cgram[c] == g[c]);
        assert(f.cgram == t.cgram);
        assert(holds_glyph(e, f, c));
        assert(screen::glyph_views(glyphs)[c] == glyphs[c]@);
    }
}

/// After the header was painted the topmost row shows it, with the glyphs of its custom characters, and
/// the cache goes on agreeing with the display.
pub proof fn law_header_is_painted(
    lcd: &mut Lcd,
    cache: &mut RowCache,
    state: UiState,
    now: u64,
    unix: u64,
    m: Memory,
    row: [u8; 20],
    glyphs: [Glyph; 8],
    k: int,
    j: int,
)
    requires
        unix <= i64::MAX,
        plain_light(old(lcd).backlight),
        agrees(m, old(cache)@),
        call_ensures(ticker::paint_header, (lcd, cache, &state, now, unix), ()),
        call_ensures(ticker::build_header, (&state, unix), row),
        call_ensures(ticker::all_glyphs, (&state, now), glyphs),
        0 <= k < 20,
        0 <= j < 8,
    ensures
        ({
            let e = sent(m, queued_ops(*old(lcd), *final(lcd)));
            &&& agrees(e, final(cache)@)
            &&& e.text[k] == row[k]
            &&& row[k] < 8 ==> e.glyphs[8 * row[k] + j] == glyphs[row[k] as int][j]
        }),
{
    let s = old(cache)@;
    let light = old(lcd).backlight;
    let g = ticker::ticker_glyphs(state, now);
    let want = ticker::slots_in(seq![row@]);
    lemma_ticker_glyphs(state, now);
    assert(row@ == ticker::header_row(state, unix));
    assert(row@[0] == 1);
    assert(screen::unwritten(20)[0] == 0xFF);
    let t = s.loaded(g, want, 8);
    let load = s.load_ops(g, want, 8, light);
    let paint = t.row_ops(0, row@, light);
    assert(!t.row_stands(0, row@));
    assert(queued_ops(*old(lcd), *final(lcd)) =~= load + paint);
    let d = lemma_loaded(m, s, g, want, 8, light, paint);
    let e = lemma_row_written(d, t, 0, row@, light, Seq::empty());
    assert(paint + Seq::<LcdOp>::empty() =~= paint);
    assert(sent(e, Seq::empty()) == e);
    assert(e.text[row_start(0) + k] == row@[k]);
    if row[k] < 8 {
        let c = row[k] as int;
        assert(seq![row@][0].contains(c as u8));
        assert(want[c]);
        assert(t.cgram[c] == g[c]);
        assert(t.with_row(0, row@).cgram == t.cgram);
        assert(holds_glyph(e, final(cache)@, c));
        assert(screen::glyph_views(glyphs)[c] == glyphs[c]@);
    }
}

/// Priming puts all eight glyphs of the ticker into their slots, and changes no text.
pub proof fn law_glyphs_are_primed(
    lcd: &mut Lcd,
    cache: &mut RowCache,
    state: UiState,
    now: u64,
    m: Memory,
    glyphs: [Glyph; 8],
    slot: int,
    j: int,
)
    requires
        plain_light(old(lcd).backlight),
        agrees(m, old(cache)@),
        call_ensures(ticker::prime_cgram, (lcd, cache, &state, now), ()),
        call_ensures(ticker::all_glyphs, (&state, now), glyphs),
        0 <= slot < 8,
        0 <= j < 8,
    ensures
        ({
            let e = sent(m, queued_ops(*old(lcd), *final(lcd)));
            &&& agrees(e, final(cache)@)
            &&& e.glyphs[8 * slot + j] == glyphs[slot][j]
        }),
        final(cache)@.rows == old(cache)@.rows,
{
    let s = old(cache)@;
    let light = old(lcd).backlight;
    let g = ticker::ticker_glyphs(state, now);
    let want = chart::all_eight();
    lemma_ticker_glyphs(state, now);
    let load = s.load_ops(g, want, 8, light);
    assert(queued_ops(*old(lcd), *final(lcd)) =~= load);
    let e = lemma_loaded(m, s, g, want, 8, light, Seq::empty());
    assert(load + Seq::<LcdOp>::empty() =~= load);
    assert(sent(e, Seq::empty()) == e);
    assert(want[slot]);
    assert(s.loaded(g, want, 8).cgram[slot] == g[slot]);
    assert(holds_glyph(e, final(cache)@, slot));
    assert(screen::glyph_views(glyphs)[slot] == glyphs[slot]@);
    lemma_loaded_rows(s, g, want, 8);
}

proof fn lemma_loaded_rows(s: Shown, glyphs: Seq<Seq<u8>>, want: Seq<bool>, n: nat)
    ensures
        s.loaded(glyphs, want, n).rows == s.rows,
    decreases n,
{
    if n > 0 {
        lemma_loaded_rows(s, glyphs, want, (n - 1) as nat);
    }
}

// ── The chart ─────────────────────────────────────────────────────────────────
/// After the chart was drawn the display shows its rows and holds its glyphs, each in its place.
pub proof fn law_chart_is_shown(
    lcd: &mut Lcd,
    cache: &mut RowCache,
    state: UiState,
    text: ChartText,
    m: Memory,
    drawn: ([[u8; 20]; 4], [Glyph; 8]),
    r: int,
    k: int,
    slot: int,
    j: int,
)
    requires
        text.valid(),
        plain_light(old(lcd).backlight),
        agrees(m, old(cache)@),
        call_ensures(chart::draw, (lcd, cache, &state, &text), ()),
        call_ensures(chart::build_chart, (&state, &text), drawn),
        plain_rows(screen::row_views(drawn.0)),
        plain_glyphs(screen::glyph_views(drawn.1)),
        0 <= r < 4,
        0 <= k < 20,
        0 <= slot < 8,
        0 <= j < 8,
    ensures
        ({
            let e = sent(m, queued_ops(*old(lcd), *final(lcd)));
            &&& agrees(e, final(cache)@)
            &&& e.text[row_start(r) + k] == drawn.0[r][k]
            &&& e.glyphs[8 * slot + j] == drawn.1[slot][j]
        }),
{
    let s = old(cache)@;
    let light = old(lcd).backlight;
    let v = screen::row_views(drawn.0);
    let g = screen::glyph_views(drawn.1);
    let want = chart::all_eight();
    assert(v == chart::chart_rows(state, text));
    assert(g == chart::chart_glyphs(text));
    let t = s.loaded(g, want, 8);
    let load = s.load_ops(g, want, 8, light);
    let fill = t.fill_ops(v, 4, light);
    assert(queued_ops(*old(lcd), *final(lcd)) =~= load + fill);
    let d = lemma_loaded(m, s, g, want, 8, light, fill);
    let e = lemma_filled(d, t, v, 4, light, Seq::empty());
    assert(fill + Seq::<LcdOp>::empty() =~= fill);
    assert(sent(e, Seq::empty()) == e);
    let f = t.filled(v, 4);
    assert(shows_row(e, f, r));
    assert(f.rows[r] == v[r]);
    assert(v[r] == drawn.0[r]@);
    assert(want[slot]);
    assert(t.cgram[slot] == g[slot]);
    assert(f.cgram == t.cgram);
    assert(holds_glyph(e, f, slot));
    assert(g[slot] == drawn.1[slot]@);
}

// ── The driver ────────────────────────────────────────────────────────────────
proof fn lemma_command(q: Seq<LcdOp>, cmd: u8, light: u8)
    requires
        plain_light(light),
        q == lcd::command_ops(cmd, light),
    ensures
        received(q) == seq![(false, cmd)],
        q.len() == 6,
{
    lemma_byte(cmd, false, light, Seq::empty());
    assert(q + Seq::<LcdOp>::empty() =~= q);
    assert(received(q) =~= seq![(false, cmd)]);
}

/// The controller is woken as its data sheet asks: after a pause eight-bit mode three times, with a
/// pause behind each, then four-bit mode; then it is set to two lines, turned on without a cursor,
/// cleared, and set to write from left to right.
pub proof fn law_power_up(lcd: &mut Lcd)
    requires
        plain_light(old(lcd).backlight),
        call_ensures(Lcd::init, (lcd,), ()),
    ensures
        ({
            let q = queued_ops(*old(lcd), *final(lcd));
            &&& q.len() == 41
            &&& q[0] == LcdOp::DelayMs(50)
            &&& half(q[2]) == 3 && half(q[6]) == 3 && half(q[10]) == 3 && half(q[14]) == 2
            &&& line(q[2], 4) && line(q[6], 4) && line(q[10], 4) && line(q[14], 4)
            &&& !line(q[3], 4) && !line(q[7], 4) && !line(q[11], 4) && !line(q[15], 4)
            &&& q[4] == LcdOp::DelayMs(5) && q[8] == LcdOp::DelayMs(5) && q[12] == LcdOp::DelayMs(1)
            &&& received(q.subrange(16, 22)) == seq![(false, 0x28u8)]
            &&& received(q.subrange(22, 28)) == seq![(false, 0x0Cu8)]
            &&& received(q.subrange(28, 34)) == seq![(false, 0x01u8)]
            &&& q[34] == LcdOp::DelayMs(2)
            &&& received(q.subrange(35, 41)) == seq![(false, 0x06u8)]
        }),
        final(lcd).backlight == old(lcd).backlight,
{
    let light = old(lcd).backlight;
    let q = queued_ops(*old(lcd), *final(lcd));
    assert(q =~= lcd::init_ops(light));
    assert(((0x30u8 | 4u8) | light) / 16 == 3 && ((0x20u8 | 4u8) | light) / 16 == 2 && ((0x30u8 | 4u8)
        | light) & 4 != 0 && ((0x20u8 | 4u8) | light) & 4 != 0 && ((0x30u8 & !4u8) | light) & 4 == 0
        && ((0x20u8 & !4u8) | light) & 4 == 0 && 0x20u8 | 0x08u8 == 0x28 && 0x08u8 | 0x04u8 == 0x0C
        && 0x04u8 | 0x02u8 == 0x06) by (bit_vector)
        requires
            light == 0 || light == 8,
    ;
    assert(q.subrange(16, 22) =~= lcd::command_ops(0x28, light));
    assert(q.subrange(22, 28) =~= lcd::command_ops(0x0C, light));
    assert(q.subrange(28, 34) =~= lcd::command_ops(0x01, light));
    assert(q.subrange(35, 41) =~= lcd::command_ops(0x06, light));
    lemma_command(q.subrange(16, 22), 0x28, light);
    lemma_command(q.subrange(22, 28), 0x0C, light);
    lemma_command(q.subrange(28, 34), 0x01, light);
    lemma_command(q.subrange(35, 41), 0x06, light);
}

/// Clearing and going home are one command each, behind which the controller gets two milliseconds.
pub proof fn law_clear_and_home(lcd: &mut Lcd, other: &mut Lcd)
    requires
        plain_light(old(lcd).backlight),
        plain_light(old(other).backlight),
        call_ensures(Lcd::clear, (lcd,), ()),
        call_ensures(Lcd::home, (other,), ()),
    ensures
        received(queued_ops(*old(lcd), *final(lcd)).drop_last()) == seq![(false, 0x01u8)],
        queued_ops(*old(lcd), *final(lcd)).last() == LcdOp::DelayMs(2),
        received(queued_ops(*old(other), *final(other)).drop_last()) == seq![(false, 0x02u8)],
        queued_ops(*old(other), *final(other)).last() == LcdOp::DelayMs(2),
{
    let a = queued_ops(*old(lcd), *final(lcd));
    let b = queued_ops(*old(other), *final(other));
    assert(a =~= lcd::clear_ops(old(lcd).backlight));
    assert(b =~= lcd::home_ops(old(other).backlight));
    assert(a.drop_last() =~= lcd::command_ops(0x01, old(lcd).backlight));
    assert(b.drop_last() =~= lcd::command_ops(0x02, old(other).backlight));
    lemma_command(a.drop_last(), 0x01, old(lcd).backlight);
    lemma_command(b.drop_last(), 0x02, old(other).backlight);
}

/// Text that is printed behind a cursor that was set stands in that row, from that column on, byte by
/// byte.
pub proof fn law_print_at_cursor(
    lcd: &mut Lcd,
    then: &mut Lcd,
    col: u8,
    row: u8,
    text: &str,
    m: Memory,
    k: int,
)
    requires
        plain_light(old(lcd).backlight),
        row < 4,
        col < 20,
        call_ensures(Lcd::set_cursor, (lcd, col, row), ()),
        *old(then) == *final(lcd),
        call_ensures(Lcd::print, (then, text), ()),
        0 <= k < vstd::utf8::encode_utf8(text@).len(),
    ensures
        sent(m, queued_ops(*old(lcd), *final(then))).text[row_start(row as int) + col + k]
            == vstd::utf8::encode_utf8(text@)[k],
        sent(m, queued_ops(*old(lcd), *final(then))).glyphs == m.glyphs,
{
    let light = old(lcd).backlight;
    let data = vstd::utf8::encode_utf8(text@);
    let at = (lcd::row_offset(row) + col) as u8;
    let cmd: u8 = 0x80u8 | at;
    assert(0x80u8 | at == 0x80 + at) by (bit_vector)
        requires
            at < 0x80,
    ;
    let q = queued_ops(*old(lcd), *final(then));
    assert(q =~= lcd::command_ops(cmd, light) + lcd::data_ops(data, light) + Seq::empty());
    lemma_addressed(m, cmd, data, light, Seq::empty());
    lemma_take_data(m.take(false, cmd), data);
}

/// Raw bytes reach the display as text does.
pub proof fn law_raw_bytes(lcd: &mut Lcd, data: &[u8])
    requires
        plain_light(old(lcd).backlight),
        call_ensures(Lcd::write_raw, (lcd, data), ()),
    ensures
        received(queued_ops(*old(lcd), *final(lcd))) == as_data(data@),
{
    let light = old(lcd).backlight;
    let q = queued_ops(*old(lcd), *final(lcd));
    assert(q =~= lcd::data_ops(data@, light) + Seq::empty());
    lemma_data(data@, light, Seq::empty());
    assert(as_data(data@) + Seq::<(bool, u8)>::empty() =~= as_data(data@));
}

/// The patterns of the eight custom characters stand one behind the other, each in eight rows.
pub proof fn law_character_is_held(
    lcd: &mut Lcd,
    slot: u8,
    pattern: [u8; 8],
    m: Memory,
    other: int,
    k: int,
)
    requires
        plain_light(old(lcd).backlight),
        slot < 8,
        call_ensures(Lcd::create_char, (lcd, slot, &pattern), ()),
        0 <= other < 8,
        0 <= k < 8,
    ensures
        ({
            let e = sent(m, queued_ops(*old(lcd), *final(lcd)));
            &&& e.glyphs[8 * other + k] == if other == slot {
                pattern[k]
            } else {
                m.glyphs[8 * other + k]
            }
            &&& e.text == m.text
        }),
{
    let light = old(lcd).backlight;
    let q = queued_ops(*old(lcd), *final(lcd));
    assert(q =~= lcd::char_ops(slot, pattern@, light) + Seq::empty());
    lemma_character(m, slot, pattern@, light, Seq::empty());
}

proof fn lemma_character(m: Memory, slot: u8, pattern: Seq<u8>, light: u8, rest: Seq<LcdOp>) -> (e:
    Memory)
    requires
        plain_light(light),
        slot < 8,
        pattern.len() == 8,
    ensures
        sent(m, lcd::char_ops(slot, pattern, light) + rest) == sent(e, rest),
        e.text == m.text,
        forall|a: int| #[trigger]
            e.glyphs[a] == if 8 * slot <= a < 8 * slot + 8 {
                pattern[a - 8 * slot]
            } else {
                m.glyphs[a]
            },
{
    let cmd: u8 = lcd::CMD_SET_CGRAM | ((slot & 0x07) << 3);
    assert(0x40u8 | ((slot & 0x07) << 3) == 0x40 + 8 * slot) by (bit_vector)
        requires
            slot < 8,
    ;
    lemma_addressed(m, cmd, pattern, light, rest);
    lemma_take_data(m.take(false, cmd), pattern);
    m.take(false, cmd).take_all(as_data(pattern))
}

/// The backlight follows what was asked last, and stays with every byte that follows.
pub proof fn law_backlight(lcd: &mut Lcd, then: &mut Lcd, on: bool, data: &[u8], i: int)
    requires
        call_ensures(Lcd::write_backlight, (lcd, on), ()),
        *old(then) == *final(lcd),
        call_ensures(Lcd::write_raw, (then, data), ()),
        0 <= i < queued_ops(*old(lcd), *final(then)).len(),
    ensures
        line(queued_ops(*old(lcd), *final(then))[i], 8) == on,
        final(lcd).ops@ != old(lcd).ops@,
{
    let light = final(lcd).backlight;
    let q = queued_ops(*old(lcd), *final(then));
    assert(light == 8 || light == 0);
    lemma_lit_data(data@, light);
    assert(q =~= seq![LcdOp::Write(light)] + lcd::data_ops(data@, light));
    assert(8u8 & 8 != 0 && 0u8 & 8 == 0) by (bit_vector);
    if i > 0 {
        assert(q[i] == lcd::data_ops(data@, light)[i - 1]);
    }
    assert(final(lcd).ops@.len() == old(lcd).ops@.len() + 1);
}

proof fn lemma_lit_data(data: Seq<u8>, light: u8)
    requires
        plain_light(light),
    ensures
        forall|i: int|
            0 <= i < lcd::data_ops(data, light).len() ==> line(
                #[trigger] lcd::data_ops(data, light)[i],
                8,
            ) == (light == 8),
    decreases data.len(),
{
    if data.len() > 0 {
        lemma_lit_data(data.drop_last(), light);
        let v = data.last();
        let b = lcd::byte_ops(v, true, light);
        let high: u8 = (v & 0xF0) | 1u8;
        let low: u8 = ((v << 4) & 0xF0) | 1u8;
        assert(high & 8 == 0 && low & 8 == 0) by (bit_vector)
            requires
                high == (v & 0xF0) | 1u8,
                low == ((v << 4) & 0xF0) | 1u8,
        ;
        lemma_lit_nibble(high, light);
        lemma_lit_nibble(low, light);
        assert forall|i: int| 0 <= i < 6 implies line(#[trigger] b[i], 8) == (light == 8) by {
            if i < 3 {
                assert(b[i] == lcd::nibble_ops(high, light)[i]);
            } else {
                assert(b[i] == lcd::nibble_ops(low, light)[i - 3]);
            }
        }
        let d = lcd::data_ops(data.drop_last(), light);
        assert forall|i: int| 0 <= i < lcd::data_ops(data, light).len() implies line(
            #[trigger] lcd::data_ops(data, light)[i],
            8,
        ) == (light == 8) by {
            if i >= d.len() {
                assert(lcd::data_ops(data, light)[i] == b[i - d.len()]);
            } else {
                assert(lcd::data_ops(data, light)[i] == d[i]);
            }
        }
    }
}

proof fn lemma_lit_nibble(n: u8, light: u8)
    requires
        n & 8 == 0,
        plain_light(light),
    ensures
        forall|i: int| 0 <= i < 3 ==> line(#[trigger] lcd::nibble_ops(n, light)[i], 8) == (light == 8),
{
    assert(((n | light) & 8 != 0) == (light == 8) && (((n | 4u8) | light) & 8 != 0) == (light == 8)
        && (((n & !4u8) | light) & 8 != 0) == (light == 8)) by (bit_vector)
        requires
            n & 8 == 0,
            light == 0 || light == 8,
    ;
}

// ── The slots ─────────────────────────────────────────────────────────────────
/// A claim takes the lowest slot that is free, no other, and comes back empty-handed only where the
/// pool is full.
pub proof fn law_claim(
    pool: &mut CgramPool,
    r: Option<u8>,
    full: bool,
    slot: u8,
    before: bool,
    after: bool,
    count: usize,
    count_after: usize,
)
    requires
        call_ensures(CgramPool::is_full, (&*old(pool),), full),
        call_ensures(CgramPool::claim, (pool,), r),
        slot < 8,
        call_ensures(CgramPool::is_used, (&*old(pool), slot), before),
        call_ensures(CgramPool::is_used, (&*final(pool), slot), after),
        call_ensures(CgramPool::count_used, (&*old(pool),), count),
        call_ensures(CgramPool::count_used, (&*final(pool),), count_after),
    ensures
        full <==> r is None,
        full ==> before && count == 8,
        r is None ==> after == before && count_after == count,
        r matches Some(s) ==> s < 8 && count_after == count + 1 && (slot < s ==> before) && (slot == s
            ==> !before && after) && (slot != s ==> after == before),
{
    cgram::law_at_most_eight(*old(pool));
    if full {
        let all = vstd::set_lib::set_int_range(0, 8);
        vstd::set_lib::lemma_int_range(0, 8);
        assert(old(pool)@.contains(slot as int));
        assert(old(pool)@ =~= all);
    }
}

/// A slot that is given back is free, and only that one.
pub proof fn law_free(pool: &mut CgramPool, given: u8, slot: u8, before: bool, after: bool)
    requires
        given < 8,
        slot < 8,
        call_ensures(CgramPool::free, (pool, given), ()),
        call_ensures(CgramPool::is_used, (&*old(pool), slot), before),
        call_ensures(CgramPool::is_used, (&*final(pool), slot), after),
    ensures
        slot == given ==> !after,
        slot != given ==> after == before,
{
}

proof fn lemma_released(m: Memory, used: Set<int>, n: nat, light: u8, rest: Seq<LcdOp>) -> (e:
    Memory)
    requires
        plain_light(light),
        n <= 8,
    ensures
        sent(m, cgram::release_ops(used, n, light) + rest) == sent(e, rest),
        e.text == m.text,
        forall|s: int, k: int|
            0 <= s < 8 && 0 <= k < 8 ==> #[trigger] e.glyphs[8 * s + k] == if s < n && used.contains(
                s,
            ) {
                0
            } else {
                m.glyphs[8 * s + k]
            },
    decreases n,
{
    if n == 0 {
        assert(cgram::release_ops(used, n, light) + rest =~= rest);
        m
    } else {
        let p = (n - 1) as nat;
        if used.contains(p as int) {
            let last = lcd::char_ops(p as u8, cgram::BLANK@, light);
            assert(cgram::release_ops(used, n, light) + rest =~= cgram::release_ops(used, p, light) + (
            last + rest));
            let d = lemma_released(m, used, p, light, last + rest);
            lemma_character(d, p as u8, cgram::BLANK@, light, rest)
        } else {
            lemma_released(m, used, p, light, rest)
        }
    }
}

/// When the slots are released those that were out are blank on the display, the others and the text
/// stay, and the pool has all eight again.
pub proof fn law_slots_are_released(
    pool: &mut CgramPool,
    lcd: &mut Lcd,
    m: Memory,
    slot: u8,
    k: int,
    before: bool,
    after: bool,
)
    requires
        plain_light(old(lcd).backlight),
        call_ensures(CgramPool::release, (pool, lcd), ()),
        slot < 8,
        0 <= k < 8,
        call_ensures(CgramPool::is_used, (&*old(pool), slot), before),
        call_ensures(CgramPool::is_used, (&*final(pool), slot), after),
    ensures
        !after,
        ({
            let e = sent(m, queued_ops(*old(lcd), *final(lcd)));
            &&& e.text == m.text
            &&& e.glyphs[8 * slot + k] == if before {
                0
            } else {
                m.glyphs[8 * slot + k]
            }
        }),
{
    let light = old(lcd).backlight;
    let q = queued_ops(*old(lcd), *final(lcd));
    assert(q =~= cgram::release_ops(old(pool)@, 8, light) + Seq::empty());
    let e = lemma_released(m, old(pool)@, 8, light, Seq::empty());
    assert(sent(e, Seq::empty()) == e);
    assert(e.glyphs[8 * slot + k] == if old(pool)@.contains(slot as int) {
        0
    } else {
        m.glyphs[8 * slot + k]
    });
}

/// After the rows were invalidated each is sent again, also where the same row stood there; glyphs are
/// not.
pub proof fn law_invalidated_rows_are_sent(
    cache: &mut RowCache,
    rows: &mut RowCache,
    glyphs: &mut RowCache,
    lcd: &mut Lcd,
    other: &mut Lcd,
    row: u8,
    data: [u8; 20],
    slot: u8,
    glyph: Glyph,
)
    requires
        row < 4,
        slot < 8,
        plain_light(old(lcd).backlight),
        data@ != screen::unwritten(20),
        call_ensures(RowCache::invalidate, (cache,), ()),
        *old(rows) == *final(cache),
        call_ensures(RowCache::commit, (rows, lcd, row, &data), ()),
        *old(glyphs) == *final(cache),
        glyph@ == old(cache)@.cgram[slot as int],
        call_ensures(RowCache::write_glyph, (glyphs, other, slot, &glyph), ()),
    ensures
        received(queued_ops(*old(lcd), *final(lcd))) == seq![
            (false, (0x80 + row_start(row as int)) as u8),
        ] + as_data(data@),
        final(other).ops@ == old(other).ops@,
{
    let light = old(lcd).backlight;
    let off: u8 = lcd::row_offset(row);
    assert(0x80u8 | off == 0x80 + off) by (bit_vector)
        requires
            off < 0x80,
    ;
    let cmd: u8 = 0x80u8 | off;
    let q = queued_ops(*old(lcd), *final(lcd));
    let d = lcd::data_ops(data@, light);
    assert(!old(rows)@.row_stands(row, data@));
    assert(q =~= lcd::command_ops(cmd, light) + (d + Seq::empty()));
    lemma_byte(cmd, false, light, d + Seq::empty());
    lemma_data(data@, light, Seq::empty());
    assert(as_data(data@) + Seq::<(bool, u8)>::empty() =~= as_data(data@));
}

} // verus!
