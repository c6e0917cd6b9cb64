//! HD44780 character display behind a PCF8574 I2C expander.
//!
//! The driver turns display operations into the bytes that go over the bus and the pauses between
//! them. They queue up in `ops`; the application takes them out and puts them on the wire.

use vstd::prelude::*;

verus! {

// PCF8574 backpack bit assignments
pub const RS: u8 = 0x01;

pub const EN: u8 = 0x04;

pub const BACKLIGHT: u8 = 0x08;

// HD44780 commands
pub const CMD_CLEAR: u8 = 0x01;

pub const CMD_HOME: u8 = 0x02;

pub const CMD_ENTRY_MODE: u8 = 0x04;

pub const CMD_DISPLAY_CTRL: u8 = 0x08;

pub const CMD_FUNCTION_SET: u8 = 0x20;

pub const CMD_SET_CGRAM: u8 = 0x40;

pub const CMD_SET_DDRAM: u8 = 0x80;

// Flags
pub const ENTRY_LEFT: u8 = 0x02;

pub const DISPLAY_ON: u8 = 0x04;

pub const MODE_2LINE: u8 = 0x08;

/// One thing to do on the bus.
#[derive(Clone, Copy, PartialEq, Eq, Structural, Debug)]
pub enum LcdOp {
    /// Send one byte to the expander.
    Write(u8),
    /// Wait this many milliseconds.
    DelayMs(u32),
}

/// The display, as far as the firmware has to know it.
pub struct Lcd {
    /// I2C address of the expander.
    pub addr: u8,
    /// The backlight bit that goes out with every byte.
    pub backlight: u8,
    /// What is still to be sent, oldest first.
    pub ops: Vec<LcdOp>,
}

/// DDRAM address of the first column of a row of a 20x4 display. Rows past the last count as the
/// last.
pub open spec fn row_offset(row: u8) -> u8 {
    if row == 0 {
        0x00
    } else if row == 1 {
        0x40
    } else if row == 2 {
        0x14
    } else {
        0x54
    }
}

/// Four bits on the upper half of the expander, clocked in by a pulse on EN.
pub open spec fn nibble_ops(value: u8, backlight: u8) -> Seq<LcdOp> {
    seq![
        LcdOp::Write(value | backlight),
        LcdOp::Write((value | EN) | backlight),
        LcdOp::Write((value & !EN) | backlight),
    ]
}

pub open spec fn rs_bit(rs: bool) -> u8 {
    if rs {
        RS
    } else {
        0
    }
}

/// One byte: the upper half, then the lower half. `rs` tells data from commands.
pub open spec fn byte_ops(value: u8, rs: bool, backlight: u8) -> Seq<LcdOp> {
    nibble_ops((value & 0xF0) | rs_bit(rs), backlight) + nibble_ops(
        ((value << 4) & 0xF0) | rs_bit(rs),
        backlight,
    )
}

pub open spec fn command_ops(cmd: u8, backlight: u8) -> Seq<LcdOp> {
    byte_ops(cmd, false, backlight)
}

/// A run of data bytes.
pub open spec fn data_ops(data: Seq<u8>, backlight: u8) -> Seq<LcdOp>
    decreases data.len(),
{
    if data.len() == 0 {
        Seq::empty()
    } else {
        data_ops(data.drop_last(), backlight) + byte_ops(data.last(), true, backlight)
    }
}

/// Clearing takes the controller up to two milliseconds.
pub open spec fn clear_ops(backlight: u8) -> Seq<LcdOp> {
    command_ops(CMD_CLEAR, backlight).push(LcdOp::DelayMs(2))
}

pub open spec fn home_ops(backlight: u8) -> Seq<LcdOp> {
    command_ops(CMD_HOME, backlight).push(LcdOp::DelayMs(2))
}

pub open spec fn cursor_ops(col: u8, row: u8, backlight: u8) -> Seq<LcdOp> {
    command_ops(CMD_SET_DDRAM | ((row_offset(row) + col) as u8), backlight)
}

/// A custom character: its address in CGRAM, then its eight rows.
pub open spec fn char_ops(slot: u8, pattern: Seq<u8>, backlight: u8) -> Seq<LcdOp> {
    command_ops(CMD_SET_CGRAM | ((slot & 0x07) << 3), backlight) + data_ops(pattern, backlight)
}

/// The power-up sequence: three times eight-bit mode, then four-bit mode, then the settings.
pub open spec fn init_ops(backlight: u8) -> Seq<LcdOp> {
    seq![LcdOp::DelayMs(50)] + nibble_ops(0x30, backlight) + seq![LcdOp::DelayMs(5)] + nibble_ops(
        0x30,
        backlight,
    ) + seq![LcdOp::DelayMs(5)] + nibble_ops(0x30, backlight) + seq![LcdOp::DelayMs(1)]
        + nibble_ops(0x20, backlight) + command_ops(CMD_FUNCTION_SET | MODE_2LINE, backlight)
        + command_ops(CMD_DISPLAY_CTRL | DISPLAY_ON, backlight) + clear_ops(backlight)
        + command_ops(CMD_ENTRY_MODE | ENTRY_LEFT, backlight)
}

/// `post` is `pre` with `ops` queued behind what was there.
pub open spec fn queued(pre: Lcd, post: Lcd, ops: Seq<LcdOp>) -> bool {
    &&& post.addr == pre.addr
    &&& post.backlight == pre.backlight
    &&& post.ops@ == pre.ops@ + ops
}

impl Lcd {
    /// A display at the given bus address, backlight on, nothing queued.
    pub fn new(addr: u8) -> (r: Self)
        ensures
            r.addr == addr,
            r.backlight == BACKLIGHT,
            r.ops@.len() == 0,
    {
        Lcd { addr, backlight: BACKLIGHT, ops: Vec::new() }
    }

    /// Hands out everything that is queued, oldest first, and empties the queue.
    pub fn take_ops(&mut self) -> (r: Vec<LcdOp>)
        ensures
            r@ == old(self).ops@,
            final(self).ops@.len() == 0,
            final(self).addr == old(self).addr,
            final(self).backlight == old(self).backlight,
    {
        let mut out: Vec<LcdOp> = Vec::new();
        out.append(&mut self.ops);
        out
    }

    pub fn init(&mut self)
        ensures
            queued(*old(self), *final(self), init_ops(old(self).backlight)),
    {
        self.delay_ms(50);
        self.write4bits(0x30);
        self.delay_ms(5);
        self.write4bits(0x30);
        self.delay_ms(5);
        self.write4bits(0x30);
        self.delay_ms(1);
        self.write4bits(0x20);
        self.command(CMD_FUNCTION_SET | MODE_2LINE);
        self.command(CMD_DISPLAY_CTRL | DISPLAY_ON);
        self.clear();
        self.command(CMD_ENTRY_MODE | ENTRY_LEFT);
        assert(self.ops@ =~= old(self).ops@ + init_ops(old(self).backlight));
    }

    pub fn clear(&mut self)
        ensures
            queued(*old(self), *final(self), clear_ops(old(self).backlight)),
    {
        self.command(CMD_CLEAR);
        self.delay_ms(2);
        assert(self.ops@ =~= old(self).ops@ + clear_ops(old(self).backlight));
    }

    pub fn home(&mut self)
        ensures
            queued(*old(self), *final(self), home_ops(old(self).backlight)),
    {
        self.command(CMD_HOME);
        self.delay_ms(2);
        assert(self.ops@ =~= old(self).ops@ + home_ops(old(self).backlight));
    }

    pub fn set_cursor(&mut self, col: u8, row: u8)
        requires
            row_offset(row) + col <= 255,
        ensures
            queued(*old(self), *final(self), cursor_ops(col, row, old(self).backlight)),
    {
        let offset: u8 = if row == 0 {
            0x00
        } else if row == 1 {
            0x40
        } else if row == 2 {
            0x14
        } else {
            0x54
        };
        self.command(CMD_SET_DDRAM | (offset + col));
    }

    pub fn print(&mut self, text: &str)
        ensures
            queued(
                *old(self),
                *final(self),
                data_ops(vstd::utf8::encode_utf8(text@), old(self).backlight),
            ),
    {
        self.write_raw(text.as_bytes());
    }

    /// Write raw bytes (CGRAM character codes 0-7 among them).
    pub fn write_raw(&mut self, data: &[u8])
        ensures
            queued(*old(self), *final(self), data_ops(data@, old(self).backlight)),
    {
        let mut i: usize = 0;
        assert(self.ops@ =~= old(self).ops@ + data_ops(data@.subrange(0, 0), self.backlight));
        while i < data.len()
            invariant
                i <= data@.len(),
                queued(*old(self), *self, data_ops(data@.subrange(0, i as int), old(self).backlight)),
            decreases data@.len() - i,
        {
            let ghost before = self.ops@;
            self.write_byte(data[i], true);
            i += 1;
            proof {
                let part = data@.subrange(0, i as int);
                assert(part.drop_last() =~= data@.subrange(0, i - 1));
                assert(self.ops@ =~= old(self).ops@ + data_ops(part, old(self).backlight));
            }
        }
        assert(data@.subrange(0, i as int) =~= data@);
    }

    /// Define a custom character at CGRAM slot (0-7).
    pub fn create_char(&mut self, slot: u8, pattern: &[u8; 8])
        ensures
            queued(*old(self), *final(self), char_ops(slot, pattern@, old(self).backlight)),
    {
        self.command(CMD_SET_CGRAM | ((slot & 0x07) << 3));
        self.write_raw(pattern.as_slice());
        assert(self.ops@ =~= old(self).ops@ + char_ops(slot, pattern@, old(self).backlight));
    }

    pub fn backlight_on(&mut self)
        ensures
            final(self).addr == old(self).addr,
            final(self).backlight == BACKLIGHT,
            final(self).ops@ == old(self).ops@.push(LcdOp::Write(BACKLIGHT)),
    {
        self.write_backlight(true);
    }

    pub fn backlight_off(&mut self)
        ensures
            final(self).addr == old(self).addr,
            final(self).backlight == 0,
            final(self).ops@ == old(self).ops@.push(LcdOp::Write(0)),
    {
        self.write_backlight(false);
    }

    /// Set backlight state without any LCD command (just bit 3 of the expander). Safe to call
    /// between LCD operations for software PWM dimming.
    pub fn write_backlight(&mut self, on: bool)
        ensures
            final(self).addr == old(self).addr,
            final(self).backlight == (if on { BACKLIGHT } else { 0 }),
            final(self).ops@ == old(self).ops@.push(LcdOp::Write(final(self).backlight)),
    {
        self.backlight = if on {
            BACKLIGHT
        } else {
            0
        };
        self.ops.push(LcdOp::Write(self.backlight));
    }

    fn delay_ms(&mut self, ms: u32)
        ensures
            queued(*old(self), *final(self), seq![LcdOp::DelayMs(ms)]),
    {
        self.ops.push(LcdOp::DelayMs(ms));
        assert(self.ops@ =~= old(self).ops@ + seq![LcdOp::DelayMs(ms)]);
    }

    fn command(&mut self, cmd: u8)
        ensures
            queued(*old(self), *final(self), command_ops(cmd, old(self).backlight)),
    {
        self.write_byte(cmd, false);
    }

    fn write_byte(&mut self, value: u8, rs: bool)
        ensures
            queued(*old(self), *final(self), byte_ops(value, rs, old(self).backlight)),
    {
        let rs_bit: u8 = if rs {
            RS
        } else {
            0
        };
        let high: u8 = (value & 0xF0) | rs_bit;
        let low: u8 = ((value << 4) & 0xF0) | rs_bit;
        self.write4bits(high);
        self.write4bits(low);
        assert(self.ops@ =~= old(self).ops@ + byte_ops(value, rs, old(self).backlight));
    }

    fn write4bits(&mut self, value: u8)
        ensures
            queued(*old(self), *final(self), nibble_ops(value, old(self).backlight)),
    {
        self.expand_write(value);
        self.pulse_enable(value);
        assert(self.ops@ =~= old(self).ops@ + nibble_ops(value, old(self).backlight));
    }

    fn pulse_enable(&mut self, value: u8)
        ensures
            queued(
                *old(self),
                *final(self),
                seq![
                    LcdOp::Write((value | EN) | old(self).backlight),
                    LcdOp::Write((value & !EN) | old(self).backlight),
                ],
            ),
    {
        self.expand_write(value | EN);
        // EN has to stay high for 450 ns; one bus transfer takes longer than that.
        self.expand_write(value & !EN);
        assert(self.ops@ =~= old(self).ops@ + seq![
            LcdOp::Write((value | EN) | old(self).backlight),
            LcdOp::Write((value & !EN) | old(self).backlight),
        ]);
    }

    fn expand_write(&mut self, data: u8)
        ensures
            queued(*old(self), *final(self), seq![LcdOp::Write(data | old(self).backlight)]),
    {
        let byte: u8 = data | self.backlight;
        self.ops.push(LcdOp::Write(byte));
        assert(self.ops@ =~= old(self).ops@ + seq![LcdOp::Write(data | old(self).backlight)]);
    }
}

/// The byte that the controller assembles from six expander writes. It latches the upper four
/// lines when EN falls, that is after the second and the fifth write.
pub open spec fn latched_byte(ops: Seq<LcdOp>) -> u8
    recommends
        ops.len() == 6,
{
    match (ops[1], ops[4]) {
        (LcdOp::Write(high), LcdOp::Write(low)) => (high & 0xF0) | (low >> 4),
        _ => 0,
    }
}

/// A write with EN and RS as given and the backlight bit as given.
pub open spec fn lines_are(op: LcdOp, enable: bool, rs: bool, backlight: u8) -> bool {
    match op {
        LcdOp::Write(w) => {
            &&& (w & EN != 0) == enable
            &&& (w & RS != 0) == rs
            &&& w & BACKLIGHT == backlight
        },
        LcdOp::DelayMs(_) => false,
    }
}

/// A byte handed to the display arrives there whole, marked as data or command as it was sent,
/// whatever the backlight does; EN is high on the second write of each half and low on the
/// others, and every write carries the backlight bit.
pub proof fn law_byte_arrives(value: u8, rs: bool, backlight: u8)
    requires
        backlight == 0 || backlight == BACKLIGHT,
    ensures
        byte_ops(value, rs, backlight).len() == 6,
        latched_byte(byte_ops(value, rs, backlight)) == value,
        forall|i: int|
            0 <= i < 6 ==> lines_are(
                #[trigger] byte_ops(value, rs, backlight)[i],
                i == 1 || i == 4,
                rs,
                backlight,
            ),
{
    let r = rs_bit(rs);
    assert({
        let h = (((value & 0xF0) | r) | 0x04) | backlight;
        let l = ((((value << 4) & 0xF0) | r) | 0x04) | backlight;
        (h & 0xF0) | (l >> 4) == value
    }) by (bit_vector)
        requires
            r == 0 || r == 1,
            backlight == 0 || backlight == 8,
    ;
    let high = (value & 0xF0) | r;
    let low = ((value << 4) & 0xF0) | r;
    lemma_lines(high, r, backlight);
    lemma_lines(low, r, backlight);
    assert(((value & 0xF0) | r) & 0x0F == r && (((value << 4) & 0xF0) | r) & 0x0F == r)
        by (bit_vector)
        requires
            r == 0 || r == 1,
    ;
}

proof fn lemma_lines(half: u8, r: u8, backlight: u8)
    requires
        r == 0 || r == 1,
        backlight == 0 || backlight == BACKLIGHT,
    ensures
        half & 0x0F == r ==> {
            &&& (half | backlight) & EN == 0
            &&& ((half | EN) | backlight) & EN != 0
            &&& ((half & !EN) | backlight) & EN == 0
            &&& (half | backlight) & RS == r
            &&& ((half | EN) | backlight) & RS == r
            &&& ((half & !EN) | backlight) & RS == r
            &&& (half | backlight) & BACKLIGHT == backlight
            &&& ((half | EN) | backlight) & BACKLIGHT == backlight
            &&& ((half & !EN) | backlight) & BACKLIGHT == backlight
        },
{
    assert(half & 0x0F == r ==> {
        &&& (half | backlight) & 4 == 0
        &&& ((half | 4) | backlight) & 4 != 0
        &&& ((half & !4u8) | backlight) & 4 == 0
        &&& (half | backlight) & 1 == r
        &&& ((half | 4) | backlight) & 1 == r
        &&& ((half & !4u8) | backlight) & 1 == r
        &&& (half | backlight) & 8 == backlight
        &&& ((half | 4) | backlight) & 8 == backlight
        &&& ((half & !4u8) | backlight) & 8 == backlight
    }) by (bit_vector)
        requires
            r == 0 || r == 1,
            backlight == 0 || backlight == 8,
    ;
}

} // verus!
