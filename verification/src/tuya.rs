//! The lamp: what is known of it, what is wanted of it, and when to talk to it.
//!
//! A `LampHandle` never talks itself. The application asks it for the next command, sends that over
//! the session with the lamp, and reports back what came of it.

use vstd::prelude::*;

use crate::clock;
use crate::config;
use crate::json;
use crate::json::Document;
use crate::text;

verus! {

#[derive(Clone, Copy, PartialEq, Eq, Structural, Debug)]
pub struct LampState {
    pub on: bool,
    pub known: bool,
}

impl Default for LampState {
    fn default() -> (r: Self)
        ensures
            r == (LampState { on: false, known: false }),
    {
        LampState { on: false, known: false }
    }
}

/// A brightness or colour temperature that was never set.
pub const LAMP_UNKNOWN: u16 = 0xFFFF;

/// Brightness of the lamp: 10 to 1000.
pub const LEAST_BRIGHTNESS: u16 = 10;

pub const MOST_BRIGHTNESS: u16 = 1000;

/// Milliseconds after a request from a user during which the lamp is not asked for its state.
pub const ASKED_SUPPRESS_MS: u32 = 10_000;

/// Milliseconds after a command went through during which the lamp is not asked for its state.
pub const SENT_SUPPRESS_MS: u32 = 5_000;

/// Milliseconds before a command that failed is tried again.
pub const RETRY_MS: u32 = 5_000;

/// Lamp handle with a persistent session.
///
/// `target`: -1=OFF, 0=idle, 1=ON, 2=warm-dim, 3=bright-white, 4=white as set, 5=colour as set.
pub struct LampHandle {
    pub ip: [u8; 4],
    pub port: u16,
    pub key: [u8; 16],
    pub version: u8,
    /// Last confirmed state.
    pub state: LampState,
    pub target: i8,
    /// No status query before this time; 0 where there is no such time.
    pub suppress_until_ms: u32,
    /// No retry before this time; 0 where there is no such time.
    pub retry_after_ms: u32,
    /// Whether a session is live. It is kept across polls and refreshes, dropped on any failure
    /// and opened again on next use.
    pub connected: bool,
    /// Last brightness that was asked for.
    pub last_brightness: u16,
    /// Last colour temperature that was asked for.
    pub last_temp: u16,
    /// Last hue, saturation and value that were asked for.
    pub colour: (u16, u16, u16),
}

/// A command for the lamp: the target that it serves, and its data points.
pub struct LampCommand {
    pub target: i8,
    pub dps: String,
}

/// How opening a session went.
#[derive(Clone, Copy, PartialEq, Eq, Structural, Debug)]
pub enum Connect {
    /// No connection.
    Refused,
    /// A connection, but no agreement on a key.
    NoKey,
    /// A session.
    Ready,
}

/// Four hexadecimal digits.
pub open spec fn hex4(n: u16) -> Seq<char> {
    seq![
        text::hex_digit(n as int / 4096),
        text::hex_digit(n as int / 256 % 16),
        text::hex_digit(n as int / 16 % 16),
        text::hex_digit(n as int % 16),
    ]
}

/// The data points of a command.
pub open spec fn dps_of(h: LampHandle) -> Seq<char> {
    if h.target == 1 {
        "\"20\":true"@
    } else if h.target == -1 {
        "\"20\":false"@
    } else if h.target == 2 {
        "\"20\":true,\"21\":\"white\",\"22\":10,\"23\":0"@
    } else if h.target == 3 {
        "\"20\":true,\"21\":\"white\",\"22\":1000,\"23\":1000"@
    } else if h.target == 4 {
        "\"20\":true,\"21\":\"white\",\"22\":"@ + text::decimal(h.last_brightness as nat)
            + ",\"23\":"@ + text::decimal(h.last_temp as nat)
    } else {
        "\"20\":true,\"21\":\"colour\",\"24\":\""@ + hex4(h.colour.0) + hex4(h.colour.1) + hex4(
            h.colour.2,
        ) + "\""@
    }
}

/// A command is due.
pub open spec fn command_due(h: LampHandle, now: u32) -> bool {
    &&& h.target == -1 || 1 <= h.target <= 5
    &&& !(h.retry_after_ms > 0 && clock::ahead(now, h.retry_after_ms))
}

/// What a user's request for `target` makes of the handle.
pub open spec fn asked(h: LampHandle, target: i8, now: u32) -> LampHandle {
    LampHandle {
        target,
        retry_after_ms: 0,
        suppress_until_ms: clock::later(now, ASKED_SUPPRESS_MS as int),
        ..h
    }
}

/// The target that the toggle button sets: the other of on and off. What is on its way counts
/// more than what is shown.
pub open spec fn flipped(target: i8, shown_on: bool) -> i8 {
    if target == 0 {
        if shown_on {
            (-1) as i8
        } else {
            1
        }
    } else if target > 0 {
        (-1) as i8
    } else {
        1
    }
}

/// What a command that was sent for `target`, and its success, make of the handle. A target that
/// was set in the meantime stays.
pub open spec fn after_command(h: LampHandle, target: i8, done: bool, now: u32) -> LampHandle {
    if done {
        LampHandle {
            state: LampState { on: target > 0, known: true },
            target: if h.target == target {
                0
            } else {
                h.target
            },
            retry_after_ms: 0,
            suppress_until_ms: clock::later(now, SENT_SUPPRESS_MS as int),
            ..h
        }
    } else {
        LampHandle { retry_after_ms: clock::later(now, RETRY_MS as int), ..h }
    }
}

/// The lamp may be asked for its state.
pub open spec fn query_due(h: LampHandle, now: u32) -> bool {
    !(h.suppress_until_ms > 0 && clock::ahead(now, h.suppress_until_ms))
}

/// State to display: the pending target if a command is queued, else the last confirmed state.
pub open spec fn shown(h: LampHandle) -> LampState {
    if h.target != 0 {
        LampState { on: h.target > 0, known: true }
    } else {
        h.state
    }
}

fn push_hex4(out: &mut String, n: u16)
    ensures
        final(out)@ == old(out)@ + hex4(n),
{
    out.push(hex_char((n / 4096) as u8));
    out.push(hex_char((n / 256 % 16) as u8));
    out.push(hex_char((n / 16 % 16) as u8));
    out.push(hex_char((n % 16) as u8));
    assert(out@ =~= old(out)@ + hex4(n));
}

fn hex_char(d: u8) -> (r: char)
    requires
        d < 16,
    ensures
        r == text::hex_digit(d as int),
{
    if d < 10 {
        (48 + d) as char
    } else {
        (87 + d) as char
    }
}

impl LampHandle {
    /// A handle for the lamp at the given address: nothing known, nothing wanted, no session.
    pub fn new(ip: [u8; 4], key: [u8; 16]) -> (r: Self)
        ensures
            r.ip == ip,
            r.port == config::TUYA_DEVICE_PORT,
            r.key == key,
            r.version == config::TUYA_PROTOCOL_VERSION,
            r.state == (LampState { on: false, known: false }),
            r.target == 0,
            r.suppress_until_ms == 0,
            r.retry_after_ms == 0,
            !r.connected,
            r.last_brightness == LAMP_UNKNOWN,
            r.last_temp == LAMP_UNKNOWN,
            r.colour == (0u16, 0u16, 0u16),
    {
        LampHandle {
            ip,
            port: config::TUYA_DEVICE_PORT,
            key,
            version: config::TUYA_PROTOCOL_VERSION,
            state: LampState::default(),
            target: 0,
            suppress_until_ms: 0,
            retry_after_ms: 0,
            connected: false,
            last_brightness: LAMP_UNKNOWN,
            last_temp: LAMP_UNKNOWN,
            colour: (0, 0, 0),
        }
    }

    // ── Session management ─────────────────────────────────────────────────────
    /// Takes note of how opening a session went. `outcome` is of no account where one is live.
    /// Returns whether a session is live.
    pub fn connect_if_needed(&mut self, outcome: Connect) -> (r: bool)
        ensures
            r == (old(self).connected || outcome == Connect::Ready),
            *final(self) == (LampHandle { connected: r, ..*old(self) }),
    {
        if self.connected {
            return true;
        }
        match outcome {
            Connect::Ready => {
                self.connected = true;
                true
            },
            Connect::NoKey => false,
            Connect::Refused => false,
        }
    }

    /// The state that a status query tells of. Without a session there is none; a query that got
    /// no reply ends the session.
    pub fn do_query_status(&mut self, reply: Option<&str>) -> (r: Option<bool>)
        ensures
            r == match reply {
                Some(t) if old(self).connected => power_of(json::json_parsed(t@)),
                _ => None,
            },
            *final(self) == (LampHandle {
                connected: old(self).connected && reply is Some,
                ..*old(self)
            }),
    {
        if !self.connected {
            return None;
        }
        match reply {
            Some(t) => parse_dps20(t),
            None => {
                self.connected = false;
                None
            },
        }
    }

    /// Whether a command went through. Without a session it did not; one that was not taken ends
    /// the session.
    pub fn do_send_dps(&mut self, taken: bool) -> (r: Option<()>)
        ensures
            r is Some <==> old(self).connected && taken,
            *final(self) == (LampHandle { connected: old(self).connected && taken, ..*old(self) }),
    {
        if !self.connected {
            return None;
        }
        if taken {
            Some(())
        } else {
            self.connected = false;
            None
        }
    }

    // ── Public interface ───────────────────────────────────────────────────────
    fn ask(&mut self, target: i8, now: u32)
        ensures
            *final(self) == asked(*old(self), target, now),
    {
        self.target = target;
        self.retry_after_ms = 0;
        self.suppress_until_ms = clock::ms_later(now, ASKED_SUPPRESS_MS);
    }

    /// Toggle button: flip between off and on. Returns what is wanted now.
    pub fn flip_target(&mut self, current_displayed_on: bool, now: u32) -> (want_on: bool)
        ensures
            *final(self) == asked(*old(self), flipped(old(self).target, current_displayed_on), now),
            want_on == (flipped(old(self).target, current_displayed_on) > 0),
    {
        let target: i8 = if self.target == 0 {
            if current_displayed_on {
                -1
            } else {
                1
            }
        } else if self.target > 0 {
            -1
        } else {
            1
        };
        self.ask(target, now);
        target > 0
    }

    pub fn queue_on(&mut self, now: u32)
        ensures
            *final(self) == asked(*old(self), 1, now),
    {
        self.ask(1, now);
    }

    pub fn queue_off(&mut self, now: u32)
        ensures
            *final(self) == asked(*old(self), (-1) as i8, now),
    {
        self.ask(-1, now);
    }

    pub fn queue_warm_dim(&mut self, now: u32)
        ensures
            *final(self) == asked(*old(self), 2, now),
    {
        self.ask(2, now);
    }

    pub fn queue_bright_white(&mut self, now: u32)
        ensures
            *final(self) == asked(*old(self), 3, now),
    {
        self.ask(3, now);
    }

    /// White light of the given brightness and colour temperature. Leaves colour mode.
    pub fn queue_brightness_temp(&mut self, brightness: u16, temp: u16, now: u32)
        ensures
            *final(self) == asked(
                LampHandle { last_brightness: brightness, last_temp: temp, ..*old(self) },
                4,
                now,
            ),
    {
        self.last_brightness = brightness;
        self.last_temp = temp;
        self.ask(4, now);
    }

    /// Coloured light of the given hue, saturation and value.
    pub fn queue_colour(&mut self, hue: u16, sat: u16, val: u16, now: u32)
        ensures
            *final(self) == asked(LampHandle { colour: (hue, sat, val), ..*old(self) }, 5, now),
    {
        self.colour = (hue, sat, val);
        self.ask(5, now);
    }

    /// The data points of a bare brightness command.
    pub fn apply_brightness(&self, level: u16) -> (dps: String)
        ensures
            dps@ == "\"22\":"@ + text::decimal(
                if level < LEAST_BRIGHTNESS {
                    LEAST_BRIGHTNESS as nat
                } else if level > MOST_BRIGHTNESS {
                    MOST_BRIGHTNESS as nat
                } else {
                    level as nat
                },
            ),
    {
        let bounded: u16 = if level < LEAST_BRIGHTNESS {
            LEAST_BRIGHTNESS
        } else if level > MOST_BRIGHTNESS {
            MOST_BRIGHTNESS
        } else {
            level
        };
        let mut out: String = String::new();
        out.append("\"22\":");
        text::push_decimal(&mut out, bounded as u64);
        assert(out@ =~= "\"22\":"@ + text::decimal(bounded as nat));
        out
    }

    /// Whether a command waits to be sent.
    pub fn has_pending_target(&self) -> (r: bool)
        ensures
            r == (self.target != 0),
    {
        self.target != 0
    }

    /// The command to send now, if any: one is wanted, and if it failed before, the pause is over.
    pub fn poll(&self, now: u32) -> (r: Option<LampCommand>)
        ensures
            r is Some <==> command_due(*self, now),
            r matches Some(c) ==> c.target == self.target && c.dps@ == dps_of(*self),
    {
        if self.target == 0 {
            return None;
        }
        if self.retry_after_ms > 0 && clock::is_ahead(now, self.retry_after_ms) {
            return None;
        }
        let mut dps: String = String::new();
        match self.target {
            1 => dps.append("\"20\":true"),
            -1 => dps.append("\"20\":false"),
            2 => dps.append("\"20\":true,\"21\":\"white\",\"22\":10,\"23\":0"),
            3 => dps.append("\"20\":true,\"21\":\"white\",\"22\":1000,\"23\":1000"),
            4 => {
                dps.append("\"20\":true,\"21\":\"white\",\"22\":");
                text::push_decimal(&mut dps, self.last_brightness as u64);
                dps.append(",\"23\":");
                text::push_decimal(&mut dps, self.last_temp as u64);
            },
            5 => {
                dps.append("\"20\":true,\"21\":\"colour\",\"24\":\"");
                push_hex4(&mut dps, self.colour.0);
                push_hex4(&mut dps, self.colour.1);
                push_hex4(&mut dps, self.colour.2);
                dps.append("\"");
            },
            _ => {
                return None;
            },
        }
        assert(dps@ =~= dps_of(*self));
        Some(LampCommand { target: self.target, dps })
    }

    /// Takes note of what came of a command. Returns true when state changes.
    pub fn poll_done(&mut self, target: i8, done: bool, now: u32) -> (r: bool)
        ensures
            r == done,
            *final(self) == after_command(*old(self), target, done, now),
    {
        if done {
            self.state = LampState { on: target > 0, known: true };
            if self.target == target {
                self.target = 0;
            }
            self.retry_after_ms = 0;
            self.suppress_until_ms = clock::ms_later(now, SENT_SUPPRESS_MS);
            return true;
        }
        self.retry_after_ms = clock::ms_later(now, RETRY_MS);
        false
    }

    pub fn display_state(&self) -> (r: LampState)
        ensures
            r == shown(*self),
    {
        if self.target != 0 {
            LampState { on: self.target > 0, known: true }
        } else {
            self.state
        }
    }

    /// Whether the lamp may be asked for its state: not within the suppress window.
    pub fn refresh_due(&self, now: u32) -> (r: bool)
        ensures
            r == query_due(*self, now),
    {
        !(self.suppress_until_ms > 0 && clock::is_ahead(now, self.suppress_until_ms))
    }

    /// Confirm lamp state, where the lamp told it.
    pub fn refresh(&mut self, told: Option<bool>)
        ensures
            *final(self) == match told {
                Some(on) => LampHandle { state: LampState { on, known: true }, ..*old(self) },
                None => *old(self),
            },
    {
        if let Some(on) = told {
            self.state = LampState { on, known: true };
        }
    }

    /// Brightness in percent, or `LAMP_UNKNOWN`.
    pub fn brightness_pct(&self) -> (r: u16)
        ensures
            r == brightness_percent(self.last_brightness),
    {
        if self.last_brightness == LAMP_UNKNOWN {
            LAMP_UNKNOWN
        } else if self.last_brightness < LEAST_BRIGHTNESS {
            0
        } else {
            (((self.last_brightness - LEAST_BRIGHTNESS) as u32 * 100 + 495) / 990) as u16
        }
    }

    /// Colour temperature in percent, or `LAMP_UNKNOWN`.
    pub fn temp_pct(&self) -> (r: u16)
        ensures
            r == temp_percent(self.last_temp),
    {
        if self.last_temp == LAMP_UNKNOWN {
            LAMP_UNKNOWN
        } else {
            self.last_temp / 10
        }
    }
}

pub open spec fn brightness_percent(b: u16) -> u16 {
    if b == LAMP_UNKNOWN {
        LAMP_UNKNOWN
    } else if b < LEAST_BRIGHTNESS {
        0
    } else {
        (((b - LEAST_BRIGHTNESS) * 100 + 495) / 990) as u16
    }
}

pub open spec fn temp_percent(t: u16) -> u16 {
    if t == LAMP_UNKNOWN {
        LAMP_UNKNOWN
    } else {
        t / 10
    }
}

/// What a node says of the power: a Boolean as it is, a whole number unless it is zero.
pub open spec fn power_node(n: json::Node) -> Option<bool> {
    match json::node_bool(n) {
        Some(b) => Some(b),
        None => match json::node_whole(n) {
            Some(i) => Some(i != 0),
            None => None,
        },
    }
}

/// The power that a status document tells of: data point 20, under `dps` or else under `data`.
pub open spec fn power_of(held: Option<Map<Seq<Seq<char>>, json::Node>>) -> Option<bool> {
    match held {
        Some(h) => match json::node_at(h, seq!["dps"@, "20"@]) {
            Some(n) => power_node(n),
            None => match json::node_at(h, seq!["data"@, "dps"@, "20"@]) {
                Some(n) => power_node(n),
                None => None,
            },
        },
        None => None,
    }
}

/// What a data point says of the power, given as a Boolean and as a whole number.
pub fn power(flag: Option<bool>, whole: Option<i64>) -> (r: Option<bool>)
    ensures
        r == match flag {
            Some(b) => Some(b),
            None => match whole {
                Some(i) => Some(i != 0),
                None => None,
            },
        },
{
    match flag {
        Some(b) => Some(b),
        None => match whole {
            Some(i) => Some(i != 0),
            None => None,
        },
    }
}

/// The power that a status reply tells of.
pub fn parse_dps20(reply: &str) -> (r: Option<bool>)
    ensures
        r == power_of(json::json_parsed(reply@)),
{
    let doc: Document = match Document::parse(reply) {
        Some(d) => d,
        None => {
            return None;
        },
    };
    let short: [&str; 2] = ["dps", "20"];
    let long: [&str; 3] = ["data", "dps", "20"];
    assert(json::keys(short@) =~= seq!["dps"@, "20"@]);
    assert(json::keys(long@) =~= seq!["data"@, "dps"@, "20"@]);
    if doc.has(short.as_slice()) {
        power(doc.bool_at(short.as_slice()), doc.whole_at(short.as_slice()))
    } else {
        power(doc.bool_at(long.as_slice()), doc.whole_at(long.as_slice()))
    }
}

/// Pressing the toggle twice leaves off and on as they were.
pub proof fn law_toggle_twice(target: i8, shown_on: bool)
    ensures
        flipped(target, shown_on) != 0,
        flipped(flipped(target, shown_on), shown_on) == -flipped(target, shown_on),
        (flipped(target, shown_on) > 0) != (if target == 0 { shown_on } else { target > 0 }),
{
}

/// What was asked for is shown at once, and goes on being shown when the command has gone through,
/// unless something else was asked for in the meantime.
pub proof fn law_shown_follows_request(h: LampHandle, target: i8, now: u32, then: u32)
    requires
        target == -1 || 1 <= target <= 5,
    ensures
        shown(asked(h, target, now)) == (LampState { on: target > 0, known: true }),
        shown(after_command(asked(h, target, now), target, true, then)) == (LampState {
            on: target > 0,
            known: true,
        }),
        after_command(asked(h, target, now), target, true, then).target == 0,
        command_due(asked(h, target, now), then),
{
}

/// A request that comes in while another command is on its way is not lost.
pub proof fn law_newer_request_survives(h: LampHandle, sent: i8, done: bool, now: u32)
    requires
        h.target != sent,
    ensures
        after_command(h, sent, done, now).target == h.target,
        h.target != 0 ==> shown(after_command(h, sent, done, now)) == shown(h),
{
}

/// A command that failed is tried again, but not before five seconds have passed.
pub proof fn law_retry_pauses(h: LampHandle, target: i8, now: u32, elapsed: int)
    requires
        h.target == target,
        target == -1 || 1 <= target <= 5,
        0 <= elapsed < 0x8000_0000,
        clock::later(now, RETRY_MS as int) != 0,
    ensures
        after_command(h, target, false, now).target == target,
        command_due(after_command(h, target, false, now), clock::later(now, elapsed)) <==> elapsed
            >= RETRY_MS,
{
    clock::law_deadline_holds(now, RETRY_MS as int, elapsed);
}

/// After a request the lamp is not asked for its state for ten seconds, so that what it still
/// shows does not overwrite what was asked for.
pub proof fn law_query_waits(h: LampHandle, target: i8, now: u32, elapsed: int)
    requires
        0 <= elapsed < 0x8000_0000,
        clock::later(now, ASKED_SUPPRESS_MS as int) != 0,
    ensures
        query_due(asked(h, target, now), clock::later(now, elapsed)) <==> elapsed
            >= ASKED_SUPPRESS_MS,
{
    clock::law_deadline_holds(now, ASKED_SUPPRESS_MS as int, elapsed);
}

/// A percentage that was set is the one that is shown.
pub proof fn law_percent_comes_back(pct: int)
    requires
        0 <= pct <= 100,
    ensures
        brightness_percent((pct * 990 / 100 + 10) as u16) == pct,
        temp_percent((pct * 10) as u16) == pct,
{
}

} // verus!
