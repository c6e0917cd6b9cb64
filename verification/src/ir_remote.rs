//! Infrared remote: NEC frames out of pulse lengths, and what each button does.
//!
//! NEC timing (microseconds): header mark about 9000 low, header space about 4500 high, then 32
//! bits, each a mark of about 562 low and a high space whose length is the bit: about 562 for a 0,
//! about 1687 for a 1. Address and command arrive least significant bit first, each followed by
//! its complement.

use vstd::prelude::*;

use crate::bits;
use crate::clock;
use crate::media;
use crate::media::Targets;
use crate::pulse;
use crate::tuya;
use crate::tuya::LampHandle;

verus! {

#[derive(Clone, Copy, PartialEq, Eq, Structural, Debug)]
pub enum IrError {
    Timeout,
    ChecksumMismatch,
}

/// A space longer than this many microseconds is a one.
pub const ONE_SPACE_US: i64 = 1_000;

/// Pulses of a frame: header mark, header space, and mark and space of each of 32 bits.
pub const PULSES: usize = 66;

/// The pulse that comes as number `i`: whether the pin is high during it, and how many microseconds
/// it may take.
pub open spec fn nec_pulse(i: int) -> (bool, i64) {
    if i == 0 {
        (false, 11_000i64)
    } else if i == 1 {
        (true, 6_000i64)
    } else if i % 2 == 0 {
        (false, 700i64)
    } else {
        (true, 2_200i64)
    }
}

/// The next pulse to wait for.
pub fn pulse_at(i: usize) -> (r: (bool, i64))
    ensures
        r == nec_pulse(i as int),
{
    if i == 0 {
        (false, 11_000)
    } else if i == 1 {
        (true, 6_000)
    } else if i % 2 == 0 {
        (false, 700)
    } else {
        (true, 2_200)
    }
}

/// The bits of a frame out of the lengths of its 66 pulses.
pub open spec fn frame_bits(us: Seq<i64>) -> Seq<bool> {
    Seq::new(32, |i: int| us[3 + 2 * i] > ONE_SPACE_US)
}

/// Byte `k` of a frame.
pub open spec fn frame_byte(b: Seq<bool>, k: int) -> u8 {
    bits::byte_of(|j: int| b[8 * k + j])
}

/// Address and command of a frame, if both are followed by their complements.
pub open spec fn frame(b: Seq<bool>) -> Result<(u8, u8), IrError> {
    if frame_byte(b, 0) == !frame_byte(b, 1) && frame_byte(b, 2) == !frame_byte(b, 3) {
        Ok((frame_byte(b, 0), frame_byte(b, 2)))
    } else {
        Err(IrError::ChecksumMismatch)
    }
}

fn read_byte(us: &[i64], k: usize) -> (r: u8)
    requires
        us@.len() == PULSES,
        k < 4,
    ensures
        r == frame_byte(frame_bits(us@), k as int),
{
    let ghost all = frame_bits(us@);
    let mut b: u8 = 0;
    let mut n: usize = 0;
    while n < 8
        invariant
            n <= 8,
            us@.len() == PULSES,
            k < 4,
            all == frame_bits(us@),
            forall|j: int| 0 <= j < n ==> #[trigger] bits::bit(b, 8 - n + j) == all[8 * k + j],
        decreases 8 - n,
    {
        let at: usize = 3 + 2 * (8 * k + n);
        let on: bool = us[at] > ONE_SPACE_US;
        let ghost before = b;
        assert(all[8 * k + n] == on);
        b = bits::shift_in_high(b, on);
        proof {
            assert forall|j: int| 0 <= j < n + 1 implies #[trigger] bits::bit(b, 8 - (n + 1) + j)
                == all[8 * k + j] by {
                if j < n {
                    assert(bits::bit(b, 7 - n + j) == bits::bit(before, 7 - n + j + 1));
                    assert(bits::bit(before, 8 - n + j) == all[8 * k + j]);
                }
            }
        }
        n += 1;
    }
    proof {
        let on = |j: int| all[8 * k + j];
        assert forall|j: int| 0 <= j < 8 implies #[trigger] bits::bit(b, j) == on(j) by {
            assert(bits::bit(b, 8 - 8 + j) == all[8 * k + j]);
        }
        bits::lemma_byte_of(b, on);
    }
    b
}

/// Reads one NEC frame out of the lengths of its pulses; `None` for a pulse that did not end in
/// time.
pub fn read_nec_frame(pulses: &[Option<i64>]) -> (r: Result<(u8, u8), IrError>)
    requires
        pulses@.len() == PULSES,
    ensures
        r == if pulse::all_ended(pulses@) {
            frame(frame_bits(pulse::lengths(pulses@)))
        } else {
            Err(IrError::Timeout)
        },
{
    let us: Vec<i64> = match pulse::collect(pulses) {
        Some(v) => v,
        None => {
            return Err(IrError::Timeout);
        },
    };
    let address: u8 = read_byte(us.as_slice(), 0);
    let address_inv: u8 = read_byte(us.as_slice(), 1);
    let command: u8 = read_byte(us.as_slice(), 2);
    let command_inv: u8 = read_byte(us.as_slice(), 3);
    if address != !address_inv || command != !command_inv {
        return Err(IrError::ChecksumMismatch);
    }
    Ok((address, command))
}

/// The bits that a remote sends for an address and a command.
pub open spec fn sent_bits(address: u8, command: u8) -> Seq<bool> {
    Seq::new(
        32,
        |i: int|
            if i < 8 {
                bits::bit(address, i)
            } else if i < 16 {
                !bits::bit(address, i - 8)
            } else if i < 24 {
                bits::bit(command, i - 16)
            } else {
                !bits::bit(command, i - 24)
            },
    )
}

proof fn lemma_frame_bit(b: Seq<bool>, k: int, j: int)
    requires
        0 <= k < 4,
        0 <= j < 8,
    ensures
        bits::bit(frame_byte(b, k), j) == b[8 * k + j],
{
    bits::lemma_byte_of_bits(|j: int| b[8 * k + j]);
}

/// What a remote sends is what is read.
pub proof fn law_frame_comes_back(address: u8, command: u8)
    ensures
        frame(sent_bits(address, command)) == Ok::<(u8, u8), IrError>((address, command)),
{
    let b = sent_bits(address, command);
    bits::lemma_complement(frame_byte(b, 1));
    bits::lemma_complement(frame_byte(b, 3));
    assert forall|j: int| 0 <= j < 8 implies #[trigger] bits::bit(frame_byte(b, 0), j) == bits::bit(
        address,
        j,
    ) by {
        lemma_frame_bit(b, 0, j);
    }
    bits::lemma_same_bits(frame_byte(b, 0), address);
    assert forall|j: int| 0 <= j < 8 implies #[trigger] bits::bit(!frame_byte(b, 1), j)
        == bits::bit(address, j) by {
        lemma_frame_bit(b, 1, j);
        assert(bits::bit(!frame_byte(b, 1), j) == !bits::bit(frame_byte(b, 1), j));
    }
    bits::lemma_same_bits(!frame_byte(b, 1), address);
    assert forall|j: int| 0 <= j < 8 implies #[trigger] bits::bit(frame_byte(b, 2), j) == bits::bit(
        command,
        j,
    ) by {
        lemma_frame_bit(b, 2, j);
    }
    bits::lemma_same_bits(frame_byte(b, 2), command);
    assert forall|j: int| 0 <= j < 8 implies #[trigger] bits::bit(!frame_byte(b, 3), j)
        == bits::bit(command, j) by {
        lemma_frame_bit(b, 3, j);
        assert(bits::bit(!frame_byte(b, 3), j) == !bits::bit(frame_byte(b, 3), j));
    }
    bits::lemma_same_bits(!frame_byte(b, 3), command);
}

/// A frame is taken only where each bit of address and command is followed, eight bits on, by the
/// other one. So a frame with one bit read wrong is never taken.
pub proof fn law_frame_is_checked(b: Seq<bool>)
    requires
        b.len() == 32,
    ensures
        frame(b) is Ok <==> forall|i: int|
            (0 <= i < 8 || 16 <= i < 24) ==> #[trigger] b[i] != b[i + 8],
{
    bits::lemma_complement(frame_byte(b, 1));
    bits::lemma_complement(frame_byte(b, 3));
    if frame(b) is Ok {
        assert forall|i: int| (0 <= i < 8 || 16 <= i < 24) implies #[trigger] b[i] != b[i + 8] by {
            if i < 8 {
                lemma_frame_bit(b, 0, i);
                lemma_frame_bit(b, 1, i);
                assert(bits::bit(!frame_byte(b, 1), i) == !bits::bit(frame_byte(b, 1), i));
            } else {
                lemma_frame_bit(b, 2, i - 16);
                lemma_frame_bit(b, 3, i - 16);
                assert(bits::bit(!frame_byte(b, 3), i - 16) == !bits::bit(
                    frame_byte(b, 3),
                    i - 16,
                ));
            }
        }
    }
    if forall|i: int| (0 <= i < 8 || 16 <= i < 24) ==> #[trigger] b[i] != b[i + 8] {
        assert forall|j: int| 0 <= j < 8 implies #[trigger] bits::bit(frame_byte(b, 0), j)
            == bits::bit(!frame_byte(b, 1), j) by {
            lemma_frame_bit(b, 0, j);
            lemma_frame_bit(b, 1, j);
            assert(b[j] != b[j + 8]);
            assert(bits::bit(!frame_byte(b, 1), j) == !bits::bit(frame_byte(b, 1), j));
        }
        bits::lemma_same_bits(frame_byte(b, 0), !frame_byte(b, 1));
        assert forall|j: int| 0 <= j < 8 implies #[trigger] bits::bit(frame_byte(b, 2), j)
            == bits::bit(!frame_byte(b, 3), j) by {
            lemma_frame_bit(b, 2, j);
            lemma_frame_bit(b, 3, j);
            assert(b[16 + j] != b[16 + j + 8]);
            assert(bits::bit(!frame_byte(b, 3), j) == !bits::bit(frame_byte(b, 3), j));
        }
        bits::lemma_same_bits(frame_byte(b, 2), !frame_byte(b, 3));
    }
}

// ── Buttons ───────────────────────────────────────────────────────────────────
/// The same button again within this many milliseconds is an echo, no second press.
pub const DEDUP_WINDOW_MS: u32 = 300;

/// Change of the lamp's brightness by one press.
pub const STEP: i32 = 80;

/// Change of the desktop's volume by one press.
pub const VOLUME_STEP: i32 = 11;

/// The machine whose volume the remote sets.
pub const DESKTOP_MACHINE_ID: &'static str = "silent-ms7e56";

/// What the remote remembers.
#[derive(Clone, Copy, PartialEq, Eq, Structural, Debug)]
pub struct IrRemote {
    /// Address and command of the last frame; 0xFFFF before the first.
    pub last_key: u16,
    pub last_at_ms: u32,
    /// Frames that were read, echoes among them.
    pub raw_count: u32,
    /// The remote last picked a colour, not white.
    pub in_colour_mode: bool,
    pub last_hue: u16,
    pub last_val: u16,
    /// Volume of the desktop, in the internal range.
    pub desktop_volume: u8,
}

pub open spec fn key_of(address: u8, command: u8) -> int {
    address * 256 + command
}

/// The same key again within the window.
pub open spec fn is_echo(r: IrRemote, key: int, now: u32) -> bool {
    r.last_key == key && clock::since(now, r.last_at_ms) < DEDUP_WINDOW_MS
}

pub open spec fn bounded(v: int, low: int, high: int) -> int {
    if v < low {
        low
    } else if v > high {
        high
    } else {
        v
    }
}

fn clamp(v: i32, low: i32, high: i32) -> (r: i32)
    requires
        low <= high,
    ensures
        r == bounded(v as int, low as int, high as int),
{
    if v < low {
        low
    } else if v > high {
        high
    } else {
        v
    }
}

/// A setting that was never touched counts as the middle.
pub open spec fn or_middle(v: u16) -> int {
    if v == tuya::LAMP_UNKNOWN {
        500
    } else {
        v as int
    }
}

/// The lamp with its white brightness and temperature moved on, each within its range.
pub open spec fn stepped_white(h: LampHandle, brightness: int, temp: int, now: u32) -> LampHandle {
    tuya::asked(
        LampHandle {
            last_brightness: bounded(or_middle(h.last_brightness) + brightness, 10, 1000) as u16,
            last_temp: bounded(or_middle(h.last_temp) + temp, 0, 1000) as u16,
            ..h
        },
        4,
        now,
    )
}

/// Nudges the lamp's white brightness and temperature, carrying the other axis forward unchanged.
pub fn step_brightness_temp(
    handle: &mut LampHandle,
    brightness_delta: i32,
    temp_delta: i32,
    now: u32,
)
    requires
        or_middle(old(handle).last_brightness) + brightness_delta <= i32::MAX,
        or_middle(old(handle).last_temp) + temp_delta <= i32::MAX,
    ensures
        *final(handle) == stepped_white(
            *old(handle),
            brightness_delta as int,
            temp_delta as int,
            now,
        ),
{
    let cur_b: u16 = if handle.last_brightness == tuya::LAMP_UNKNOWN {
        500
    } else {
        handle.last_brightness
    };
    let cur_t: u16 = if handle.last_temp == tuya::LAMP_UNKNOWN {
        500
    } else {
        handle.last_temp
    };
    let new_b: u16 = clamp(cur_b as i32 + brightness_delta, 10, 1000) as u16;
    let new_t: u16 = clamp(cur_t as i32 + temp_delta, 0, 1000) as u16;
    handle.queue_brightness_temp(new_b, new_t, now);
}

/// The value of a colour, moved on.
pub open spec fn stepped_val(r: IrRemote, delta: int) -> u16 {
    bounded(r.last_val + delta, 10, 1000) as u16
}

/// The hue of each digit button. Button 1 has none: it toggles the lamp.
pub open spec fn hue_of(command: u8) -> Option<u16> {
    if command == 0x46 {
        Some(0)
    } else if command == 0x47 {
        Some(40)
    } else if command == 0x44 {
        Some(80)
    } else if command == 0x40 {
        Some(120)
    } else if command == 0x43 {
        Some(160)
    } else if command == 0x07 {
        Some(200)
    } else if command == 0x15 {
        Some(240)
    } else if command == 0x09 {
        Some(280)
    } else {
        None
    }
}

/// Hue for each digit button: buttons 2 to 9, 40 degrees apart.
pub fn digit_hue(command: u8) -> (r: Option<u16>)
    ensures
        r == hue_of(command),
{
    match command {
        0x46 => Some(0),
        0x47 => Some(40),
        0x44 => Some(80),
        0x40 => Some(120),
        0x43 => Some(160),
        0x07 => Some(200),
        0x15 => Some(240),
        0x09 => Some(280),
        _ => None,
    }
}

/// What a button does to the remote's own memory.
pub open spec fn remembered(r: IrRemote, command: u8) -> IrRemote {
    if command == 0x45 || command == 0x16 || command == 0x0D {
        IrRemote { in_colour_mode: false, ..r }
    } else if command == 0x18 && r.in_colour_mode {
        IrRemote { last_val: stepped_val(r, STEP as int), ..r }
    } else if command == 0x52 && r.in_colour_mode {
        IrRemote { last_val: stepped_val(r, -STEP), ..r }
    } else if command == 0x5A {
        IrRemote { desktop_volume: bounded(r.desktop_volume + VOLUME_STEP, 0, 153) as u8, ..r }
    } else if command == 0x08 {
        IrRemote { desktop_volume: bounded(r.desktop_volume - VOLUME_STEP, 0, 153) as u8, ..r }
    } else {
        match hue_of(command) {
            Some(hue) => IrRemote { last_hue: hue, last_val: 1000, in_colour_mode: true, ..r },
            None => r,
        }
    }
}

/// What a button does to the lamp.
pub open spec fn lamp_after(r: IrRemote, h: LampHandle, command: u8, now: u32) -> LampHandle {
    if command == 0x45 {
        tuya::asked(h, tuya::flipped(h.target, tuya::shown(h).on), now)
    } else if command == 0x16 {
        tuya::asked(h, 2, now)
    } else if command == 0x0D {
        tuya::asked(h, 3, now)
    } else if command == 0x18 {
        if r.in_colour_mode {
            tuya::asked(
                LampHandle { colour: (r.last_hue, 1000, stepped_val(r, STEP as int)), ..h },
                5,
                now,
            )
        } else {
            stepped_white(h, STEP as int, 0, now)
        }
    } else if command == 0x52 {
        if r.in_colour_mode {
            tuya::asked(
                LampHandle { colour: (r.last_hue, 1000, stepped_val(r, -STEP)), ..h },
                5,
                now,
            )
        } else {
            stepped_white(h, -STEP, 0, now)
        }
    } else {
        match hue_of(command) {
            Some(hue) => tuya::asked(LampHandle { colour: (hue, 1000, 1000), ..h }, 5, now),
            None => h,
        }
    }
}

impl IrRemote {
    pub fn new() -> (r: Self)
        ensures
            r == (IrRemote {
                last_key: 0xFFFF,
                last_at_ms: 0,
                raw_count: 0,
                in_colour_mode: false,
                last_hue: 0,
                last_val: 1000,
                desktop_volume: 76,
            }),
    {
        IrRemote {
            last_key: 0xFFFF,
            last_at_ms: 0,
            raw_count: 0,
            in_colour_mode: false,
            last_hue: 0,
            last_val: 1000,
            desktop_volume: 76,
        }
    }

    /// How many frames were read, and the key of the last.
    pub fn decode_status(&self) -> (r: (u32, u16))
        ensures
            r == (self.raw_count, self.last_key),
    {
        (self.raw_count, self.last_key)
    }

    /// Takes note of a frame. Returns whether it is a press to act on; an echo is not.
    pub fn receive(&mut self, address: u8, command: u8, now: u32) -> (fresh: bool)
        ensures
            fresh == !is_echo(*old(self), key_of(address, command), now),
            *final(self) == (IrRemote {
                last_key: key_of(address, command) as u16,
                last_at_ms: now,
                raw_count: ((old(self).raw_count + 1) % 0x1_0000_0000) as u32,
                ..*old(self)
            }),
    {
        let key: u16 = address as u16 * 256 + command as u16;
        let echo: bool = key == self.last_key && clock::ms_since(now, self.last_at_ms)
            < DEDUP_WINDOW_MS;
        self.last_key = key;
        self.last_at_ms = now;
        self.raw_count = self.raw_count.wrapping_add(1);
        !echo
    }

    /// Nudges the value of the current colour at full saturation, so that brightness dims or
    /// brightens that colour instead of switching to white.
    pub fn step_colour_value(&mut self, handle: &mut LampHandle, delta: i32, now: u32)
        requires
            old(self).last_val + delta <= i32::MAX,
        ensures
            *final(self) == (IrRemote { last_val: stepped_val(*old(self), delta as int), ..*old(
                self,
            ) }),
            *final(handle) == tuya::asked(
                LampHandle {
                    colour: (old(self).last_hue, 1000, stepped_val(*old(self), delta as int)),
                    ..*old(handle)
                },
                5,
                now,
            ),
    {
        let new_val: u16 = clamp(self.last_val as i32 + delta, 10, 1000) as u16;
        self.last_val = new_val;
        handle.queue_colour(self.last_hue, 1000, new_val, now);
    }

    /// Moves the desktop's volume and asks for it.
    pub fn step_desktop_volume(&mut self, volumes: &mut Targets<u8>, delta: i32)
        requires
            old(volumes).valid(),
            old(self).desktop_volume + delta <= i32::MAX,
        ensures
            final(volumes).valid(),
            *final(self) == (IrRemote {
                desktop_volume: bounded(old(self).desktop_volume + delta, 0, 153) as u8,
                ..*old(self)
            }),
            final(volumes)@ == old(volumes)@.insert(
                DESKTOP_MACHINE_ID@,
                final(self).desktop_volume,
            ),
    {
        let new_vol: u8 = clamp(self.desktop_volume as i32 + delta, 0, 153) as u8;
        self.desktop_volume = new_vol;
        media::queue_volume_for_machine(volumes, DESKTOP_MACHINE_ID, new_vol);
    }

    /// Does what a button stands for. Buttons without a meaning do nothing.
    pub fn dispatch(
        &mut self,
        command: u8,
        handle: &mut LampHandle,
        volumes: &mut Targets<u8>,
        play_pause: &mut bool,
        now: u32,
    )
        requires
            old(volumes).valid(),
        ensures
            final(volumes).valid(),
            *final(self) == remembered(*old(self), command),
            *final(handle) == lamp_after(*old(self), *old(handle), command, now),
            final(volumes)@ == if command == 0x5A || command == 0x08 {
                old(volumes)@.insert(DESKTOP_MACHINE_ID@, final(self).desktop_volume)
            } else {
                old(volumes)@
            },
            *final(play_pause) == (*old(play_pause) || command == 0x19),
    {
        match command {
            0x45 => {
                // 1
                let current_on: bool = handle.display_state().on;
                handle.flip_target(current_on, now);
                self.in_colour_mode = false;
            },
            0x16 => {
                // *
                handle.queue_warm_dim(now);
                self.in_colour_mode = false;
            },
            0x0D => {
                // #
                handle.queue_bright_white(now);
                self.in_colour_mode = false;
            },
            0x18 => {
                // up
                if self.in_colour_mode {
                    self.step_colour_value(handle, STEP, now);
                } else {
                    step_brightness_temp(handle, STEP, 0, now);
                }
            },
            0x52 => {
                // down
                if self.in_colour_mode {
                    self.step_colour_value(handle, -STEP, now);
                } else {
                    step_brightness_temp(handle, -STEP, 0, now);
                }
            },
            0x5A => {
                // right
                self.step_desktop_volume(volumes, VOLUME_STEP);
            },
            0x08 => {
                // left
                self.step_desktop_volume(volumes, -VOLUME_STEP);
            },
            0x19 => {
                // 0
                *play_pause = true;
            },
            0x1C => {
                // ok: as the black button, which does nothing but flash the red LED
            },
            _ => {
                // 2 to 9
                if let Some(hue) = digit_hue(command) {
                    self.last_hue = hue;
                    self.last_val = 1000;
                    self.in_colour_mode = true;
                    handle.queue_colour(hue, 1000, 1000, now);
                }
            },
        }
    }
}

/// Brightness while a colour is on changes that colour and never goes back to white.
pub proof fn law_brightness_keeps_colour(r: IrRemote, h: LampHandle, command: u8, now: u32)
    requires
        r.in_colour_mode,
        command == 0x18 || command == 0x52,
    ensures
        lamp_after(r, h, command, now).target == 5,
        lamp_after(r, h, command, now).colour.0 == r.last_hue,
        remembered(r, command).in_colour_mode,
        remembered(r, command).last_hue == r.last_hue,
{
}

/// Whatever buttons are pressed, brightness and volume stay within their ranges.
pub proof fn law_ranges_hold(r: IrRemote, h: LampHandle, command: u8, now: u32)
    requires
        10 <= r.last_val <= 1000,
        r.desktop_volume <= 153,
    ensures
        10 <= remembered(r, command).last_val <= 1000,
        remembered(r, command).desktop_volume <= 153,
        lamp_after(r, h, command, now).target == 4 && h.target != 4 ==> 10 <= lamp_after(
            r,
            h,
            command,
            now,
        ).last_brightness <= 1000 && lamp_after(r, h, command, now).last_temp <= 1000,
{
}

/// A frame that comes again within the window is acted on once; one that comes later is acted on
/// again.
pub proof fn law_echo_is_dropped(r: IrRemote, key: int, now: u32, elapsed: int)
    requires
        0 <= key < 0x1_0000,
        0 <= elapsed < 0x1_0000_0000,
    ensures
        is_echo(
            IrRemote { last_key: key as u16, last_at_ms: now, ..r },
            key,
            clock::later(now, elapsed),
        ) <==> elapsed < DEDUP_WINDOW_MS,
{
}

/// No two digits share a colour.
pub proof fn law_digits_differ(a: u8, b: u8)
    requires
        hue_of(a) is Some,
        hue_of(a) == hue_of(b),
    ensures
        a == b,
        hue_of(a)->0 < 360,
{
}

} // verus!
