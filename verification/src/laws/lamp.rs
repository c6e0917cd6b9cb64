//! The lamp does what its buttons say, wherever they are pressed.

use vstd::prelude::*;

use crate::clock;
use crate::desk::Desk;
use crate::ir_remote;
use crate::ir_remote::IrRemote;
use crate::laws::web::tells;
use crate::led::LedState;
use crate::media::Targets;
use crate::panel;
use crate::screen::UiState;
use crate::text;
use crate::tuya::{Connect, LampCommand, LampHandle, LampState};

verus! {

/// What the lamp is told to be, by the presets' data points.
pub open spec fn warm_dim() -> Seq<char> {
    "\"20\":true,\"21\":\"white\",\"22\":10,\"23\":0"@
}

pub open spec fn bright_white() -> Seq<char> {
    "\"20\":true,\"21\":\"white\",\"22\":1000,\"23\":1000"@
}

pub open spec fn power_on() -> Seq<char> {
    "\"20\":true"@
}

pub open spec fn power_off() -> Seq<char> {
    "\"20\":false"@
}

// ── The handle ────────────────────────────────────────────────────────────────
/// Asking for the lamp on: the next command says so, and so does what is shown.
pub proof fn law_queue_on(
    h: &mut LampHandle,
    now: u32,
    then: u32,
    cmd: Option<LampCommand>,
    shown: LampState,
)
    requires
        call_ensures(LampHandle::queue_on, (h, now), ()),
        call_ensures(LampHandle::poll, (&*final(h), then), cmd),
        call_ensures(LampHandle::display_state, (&*final(h),), shown),
    ensures
        tells(cmd, power_on()),
        shown == (LampState { on: true, known: true }),
{
}

/// Asking for the lamp off.
pub proof fn law_queue_off(
    h: &mut LampHandle,
    now: u32,
    then: u32,
    cmd: Option<LampCommand>,
    shown: LampState,
)
    requires
        call_ensures(LampHandle::queue_off, (h, now), ()),
        call_ensures(LampHandle::poll, (&*final(h), then), cmd),
        call_ensures(LampHandle::display_state, (&*final(h),), shown),
    ensures
        tells(cmd, power_off()),
        shown == (LampState { on: false, known: true }),
{
}

/// Asking for the presets.
pub proof fn law_queue_presets(
    warm: &mut LampHandle,
    bright: &mut LampHandle,
    now: u32,
    then: u32,
    warm_cmd: Option<LampCommand>,
    bright_cmd: Option<LampCommand>,
)
    requires
        call_ensures(LampHandle::queue_warm_dim, (warm, now), ()),
        call_ensures(LampHandle::queue_bright_white, (bright, now), ()),
        call_ensures(LampHandle::poll, (&*final(warm), then), warm_cmd),
        call_ensures(LampHandle::poll, (&*final(bright), then), bright_cmd),
    ensures
        tells(warm_cmd, warm_dim()),
        tells(bright_cmd, bright_white()),
        warm_cmd->0.dps@ != bright_cmd->0.dps@,
{
    reveal_strlit("\"20\":true,\"21\":\"white\",\"22\":10,\"23\":0");
    reveal_strlit("\"20\":true,\"21\":\"white\",\"22\":1000,\"23\":1000");
    assert(warm_dim().len() != bright_white().len());
}

/// Asking for white light: the command has the brightness and the temperature that were asked for,
/// each under its own data point, and they are what is remembered.
pub proof fn law_queue_white(
    h: &mut LampHandle,
    brightness: u16,
    temp: u16,
    now: u32,
    then: u32,
    cmd: Option<LampCommand>,
)
    requires
        call_ensures(LampHandle::queue_brightness_temp, (h, brightness, temp, now), ()),
        call_ensures(LampHandle::poll, (&*final(h), then), cmd),
    ensures
        tells(
            cmd,
            "\"20\":true,\"21\":\"white\",\"22\":"@ + text::decimal(brightness as nat)
                + ",\"23\":"@ + text::decimal(temp as nat),
        ),
        final(h).last_brightness == brightness,
        final(h).last_temp == temp,
        final(h).colour == old(h).colour,
{
}

/// The value of a hexadecimal digit.
pub open spec fn hex_value(c: char) -> int {
    if '0' <= c <= '9' {
        c as int - '0' as int
    } else {
        c as int - 'a' as int + 10
    }
}

/// The number that four hexadecimal digits from place `i` on stand for.
pub open spec fn hex_at(s: Seq<char>, i: int) -> int {
    ((hex_value(s[i]) * 16 + hex_value(s[i + 1])) * 16 + hex_value(s[i + 2])) * 16 + hex_value(
        s[i + 3],
    )
}

/// Asking for colour: the command has hue, saturation and value in this order, four hexadecimal
/// digits each.
pub proof fn law_queue_colour(
    h: &mut LampHandle,
    hue: u16,
    sat: u16,
    val: u16,
    now: u32,
    then: u32,
    cmd: Option<LampCommand>,
)
    requires
        call_ensures(LampHandle::queue_colour, (h, hue, sat, val, now), ()),
        call_ensures(LampHandle::poll, (&*final(h), then), cmd),
    ensures
        cmd is Some,
        ({
            let t = cmd->0.dps@;
            let p = "\"20\":true,\"21\":\"colour\",\"24\":\""@;
            &&& t.len() == p.len() + 13
            &&& t.take(p.len() as int) == p
            &&& hex_at(t, p.len() as int) == hue
            &&& hex_at(t, p.len() as int + 4) == sat
            &&& hex_at(t, p.len() as int + 8) == val
            &&& t.last() == '"'
        }),
        final(h).last_brightness == old(h).last_brightness,
        final(h).last_temp == old(h).last_temp,
{
    let t = cmd->0.dps@;
    let p = "\"20\":true,\"21\":\"colour\",\"24\":\""@;
    reveal_strlit("\"");
    assert(t.take(p.len() as int) =~= p);
    lemma_hex4(hue);
    lemma_hex4(sat);
    lemma_hex4(val);
    let n = p.len() as int;
    assert forall|k: int| 0 <= k < 4 implies t[n + k] == crate::tuya::hex4(hue)[k] && t[n + 4 + k]
        == crate::tuya::hex4(sat)[k] && #[trigger] t[n + 8 + k] == crate::tuya::hex4(val)[k] by {}
    assert(t[n + 8 + 0] == crate::tuya::hex4(val)[0]);
    assert(t[n + 8 + 1] == crate::tuya::hex4(val)[1]);
    assert(t[n + 8 + 2] == crate::tuya::hex4(val)[2]);
    assert(t[n + 8 + 3] == crate::tuya::hex4(val)[3]);
}

proof fn lemma_hex4(n: u16)
    ensures
        hex_at(crate::tuya::hex4(n), 0) == n,
{
    let v = n as int;
    assert(v / 256 == v / 4096 * 16 + v / 256 % 16);
    assert(v / 16 == v / 256 * 16 + v / 16 % 16);
    assert(v == v / 16 * 16 + v % 16);
    assert forall|d: int| 0 <= d < 16 implies hex_value(#[trigger] text::hex_digit(d)) == d by {}
    assert(0 <= v / 4096 < 16);
    assert(hex_value(text::hex_digit(v / 4096)) == v / 4096);
    assert(hex_value(text::hex_digit(v / 256 % 16)) == v / 256 % 16);
    assert(hex_value(text::hex_digit(v / 16 % 16)) == v / 16 % 16);
    assert(hex_value(text::hex_digit(v % 16)) == v % 16);
}

/// The toggle turns over what was asked for last or else what it is told is shown, and says which of
/// the two it came to.
pub proof fn law_flip(
    h: &mut LampHandle,
    shown_on: bool,
    now: u32,
    want_on: bool,
    then: u32,
    cmd: Option<LampCommand>,
)
    requires
        call_ensures(LampHandle::flip_target, (h, shown_on, now), want_on),
        call_ensures(LampHandle::poll, (&*final(h), then), cmd),
    ensures
        want_on == !(if old(h).target != 0 {
            old(h).target > 0
        } else {
            shown_on
        }),
        want_on ==> tells(cmd, power_on()),
        !want_on ==> tells(cmd, power_off()),
{
}

/// A command that went through is what the lamp then is known to be, and it is not sent again; one
/// that failed leaves what is known and is still wanted.
pub proof fn law_command_settles(
    h: &mut LampHandle,
    cmd: Option<LampCommand>,
    at: u32,
    done: bool,
    now: u32,
    changed: bool,
    again: Option<LampCommand>,
    then: u32,
)
    requires
        call_ensures(LampHandle::poll, (&*old(h), at), cmd),
        cmd is Some,
        call_ensures(LampHandle::poll_done, (h, cmd->0.target, done, now), changed),
        call_ensures(LampHandle::poll, (&*final(h), then), again),
    ensures
        changed == done,
        done ==> final(h).state == (LampState { on: old(h).target > 0, known: true }),
        done ==> again is None,
        done ==> final(h).target == 0,
        !done ==> final(h).state == old(h).state && final(h).target == old(h).target,
        !done && again is Some ==> again->0.dps@ == cmd->0.dps@,
{
}

/// What the lamp tells of itself is what is known of it, and is shown unless something else was asked
/// for; where it tells nothing, nothing changes.
pub proof fn law_lamp_tells(h: &mut LampHandle, told: Option<bool>, shown: LampState)
    requires
        call_ensures(LampHandle::refresh, (h, told), ()),
        call_ensures(LampHandle::display_state, (&*final(h),), shown),
    ensures
        told is None ==> *final(h) == *old(h),
        told is Some ==> final(h).state == (LampState { on: told->0, known: true }),
        final(h).target == old(h).target,
        told is Some && old(h).target == 0 ==> shown == (LampState { on: told->0, known: true }),
        old(h).target != 0 ==> shown.on == (old(h).target > 0),
{
}

/// A session is opened once and kept while all goes well: a query without reply or a command that is
/// not taken ends it, and nothing goes through without one.
pub proof fn law_session(
    a: &mut LampHandle,
    b: &mut LampHandle,
    outcome: Connect,
    live: bool,
    taken: bool,
    sent: Option<()>,
)
    requires
        call_ensures(LampHandle::connect_if_needed, (a, outcome), live),
        call_ensures(LampHandle::do_send_dps, (b, taken), sent),
    ensures
        live == final(a).connected,
        old(a).connected ==> live,
        !old(a).connected ==> live == (outcome is Ready),
        final(a).target == old(a).target && final(a).state == old(a).state,
        sent is Some ==> old(b).connected && taken && final(b).connected,
        !old(b).connected ==> sent is None && !final(b).connected,
        !taken ==> sent is None && !final(b).connected,
        old(b).connected && taken ==> sent is Some,
        final(b).target == old(b).target && final(b).state == old(b).state,
{
}

/// A new handle is for the lamp it was made for, knows nothing and wants nothing.
pub proof fn law_new_handle(
    ip: [u8; 4],
    key: [u8; 16],
    h: LampHandle,
    then: u32,
    cmd: Option<LampCommand>,
    shown: LampState,
    ask: bool,
)
    requires
        call_ensures(LampHandle::new, (ip, key), h),
        call_ensures(LampHandle::poll, (&h, then), cmd),
        call_ensures(LampHandle::display_state, (&h,), shown),
        call_ensures(LampHandle::refresh_due, (&h, then), ask),
    ensures
        h.ip == ip && h.key == key && h.port == 6668 && h.version == 5,
        cmd is None,
        !shown.known,
        ask,
        !h.connected,
{
}

/// A bare brightness command has the level that was asked for, brought into the lamp's range.
pub proof fn law_bare_brightness(h: LampHandle, level: u16, dps: String)
    requires
        call_ensures(LampHandle::apply_brightness, (&h, level), dps),
    ensures
        10 <= level <= 1000 ==> dps@ == "\"22\":"@ + text::decimal(level as nat),
        level < 10 ==> dps@ == "\"22\":"@ + text::decimal(10),
        level > 1000 ==> dps@ == "\"22\":"@ + text::decimal(1000),
{
}

// ── The remote ────────────────────────────────────────────────────────────────
/// The remote's toggle button turns over what is shown: a lamp that is shown as on goes off with one
/// press, and one that is shown as off goes on.
pub proof fn law_remote_toggles(
    r: &mut IrRemote,
    h: &mut LampHandle,
    volumes: &mut Targets<u8>,
    play: &mut bool,
    now: u32,
    before: LampState,
    after: LampState,
    then: u32,
    cmd: Option<LampCommand>,
)
    requires
        call_ensures(LampHandle::display_state, (&*old(h),), before),
        old(volumes).valid(),
        call_ensures(IrRemote::dispatch, (r, 0x45u8, h, volumes, play, now), ()),
        call_ensures(LampHandle::display_state, (&*final(h),), after),
        call_ensures(LampHandle::poll, (&*final(h), then), cmd),
    ensures
        after.on == !before.on,
        after.known,
        before.on ==> tells(cmd, power_off()),
        !before.on ==> tells(cmd, power_on()),
        !final(r).in_colour_mode,
        final(volumes)@ == old(volumes)@,
        *final(play) == *old(play),
{
}

/// The remote's preset buttons give the presets, and end the colour.
pub proof fn law_remote_presets(
    command: u8,
    r: &mut IrRemote,
    h: &mut LampHandle,
    volumes: &mut Targets<u8>,
    play: &mut bool,
    now: u32,
    then: u32,
    cmd: Option<LampCommand>,
)
    requires
        old(volumes).valid(),
        call_ensures(IrRemote::dispatch, (r, command, h, volumes, play, now), ()),
        call_ensures(LampHandle::poll, (&*final(h), then), cmd),
    ensures
        command == 0x16 ==> tells(cmd, warm_dim()) && !final(r).in_colour_mode,
        command == 0x0D ==> tells(cmd, bright_white()) && !final(r).in_colour_mode,
{
}

/// Brightness up makes the light brighter by 80 and brightness down dimmer, as far as the range goes.
/// In white, the temperature is kept; in colour, hue is kept and the colour stays at full saturation.
pub proof fn law_remote_brightness(
    up: bool,
    r: &mut IrRemote,
    h: &mut LampHandle,
    volumes: &mut Targets<u8>,
    play: &mut bool,
    now: u32,
)
    requires
        old(volumes).valid(),
        10 <= old(r).last_val <= 1000,
        call_ensures(
            IrRemote::dispatch,
            (
                r,
                if up {
                    0x18u8
                } else {
                    0x52u8
                },
                h,
                volumes,
                play,
                now,
            ),
            (),
        ),
    ensures
        !old(r).in_colour_mode ==> {
            let was = if old(h).last_brightness == 0xFFFF {
                500
            } else {
                old(h).last_brightness as int
            };
            &&& final(h).target == 4
            &&& 10 <= final(h).last_brightness <= 1000
            &&& up && was + 80 <= 1000 ==> final(h).last_brightness == was + 80
            &&& up && was + 80 > 1000 ==> final(h).last_brightness == 1000
            &&& !up && 90 <= was <= 1080 ==> final(h).last_brightness == was - 80
            &&& !up && was < 90 ==> final(h).last_brightness == 10
            &&& old(h).last_temp <= 1000 ==> final(h).last_temp == old(h).last_temp
            &&& old(h).last_temp == 0xFFFF ==> final(h).last_temp == 500
            &&& *final(r) == *old(r)
        },
        old(r).in_colour_mode ==> {
            &&& final(h).target == 5
            &&& final(h).colour == (old(r).last_hue, 1000u16, final(r).last_val)
            &&& up && old(r).last_val <= 920 ==> final(r).last_val == old(r).last_val + 80
            &&& up && old(r).last_val > 920 ==> final(r).last_val == 1000
            &&& !up && old(r).last_val >= 90 ==> final(r).last_val == old(r).last_val - 80
            &&& !up && old(r).last_val < 90 ==> final(r).last_val == 10
            &&& final(r).in_colour_mode
            &&& final(h).last_brightness == old(h).last_brightness
        },
{
}

/// The command of each of the remote's digits from 2 to 9.
pub open spec fn digit_command(n: int) -> u8 {
    if n == 2 {
        0x46
    } else if n == 3 {
        0x47
    } else if n == 4 {
        0x44
    } else if n == 5 {
        0x40
    } else if n == 6 {
        0x43
    } else if n == 7 {
        0x07
    } else if n == 8 {
        0x15
    } else {
        0x09
    }
}

/// The digits from 2 to 9 go round the colours from red on, 40 degrees a digit, at full saturation
/// and value.
pub proof fn law_remote_colours(
    n: int,
    r: &mut IrRemote,
    h: &mut LampHandle,
    volumes: &mut Targets<u8>,
    play: &mut bool,
    now: u32,
    hue: Option<u16>,
)
    requires
        2 <= n <= 9,
        old(volumes).valid(),
        call_ensures(IrRemote::dispatch, (r, digit_command(n), h, volumes, play, now), ()),
        call_ensures(ir_remote::digit_hue, (digit_command(n),), hue),
    ensures
        hue is Some && hue->0 == 40 * (n - 2),
        final(h).target == 5,
        final(h).colour == (hue->0, 1000u16, 1000u16),
        final(r).in_colour_mode,
        final(r).last_hue == hue->0,
        final(r).last_val == 1000,
        final(volumes)@ == old(volumes)@,
        *final(play) == *old(play),
{
}

/// The remote's arrows turn the desktop's volume up and down by 11, as far as its range goes, and ask
/// the desktop, and no other machine, for it; the key for play and pause asks for that. None of them
/// touches the lamp.
pub proof fn law_remote_media(
    command: u8,
    r: &mut IrRemote,
    h: &mut LampHandle,
    volumes: &mut Targets<u8>,
    play: &mut bool,
    now: u32,
    other: Seq<char>,
)
    requires
        old(volumes).valid(),
        old(r).desktop_volume <= 153,
        other != "silent-ms7e56"@,
        call_ensures(IrRemote::dispatch, (r, command, h, volumes, play, now), ()),
    ensures
        command == 0x5A ==> final(r).desktop_volume == if old(r).desktop_volume <= 142 {
            old(r).desktop_volume + 11
        } else {
            153
        },
        command == 0x08 ==> final(r).desktop_volume == if old(r).desktop_volume >= 11 {
            old(r).desktop_volume - 11
        } else {
            0
        },
        command == 0x5A || command == 0x08 ==> final(volumes)@.dom().contains("silent-ms7e56"@)
            && final(volumes)@["silent-ms7e56"@] == final(r).desktop_volume,
        final(volumes)@.dom().contains(other) == old(volumes)@.dom().contains(other),
        final(volumes)@.dom().contains(other) ==> final(volumes)@[other] == old(volumes)@[other],
        command == 0x19 ==> *final(play),
        command != 0x19 ==> *final(play) == *old(play),
        command == 0x5A || command == 0x08 || command == 0x19 ==> *final(h) == *old(h),
        command != 0x5A && command != 0x08 ==> final(r).desktop_volume == old(r).desktop_volume
            && final(volumes)@ == old(volumes)@,
{
}

/// A button without a meaning does nothing.
pub proof fn law_remote_ignores(
    command: u8,
    r: &mut IrRemote,
    h: &mut LampHandle,
    volumes: &mut Targets<u8>,
    play: &mut bool,
    now: u32,
)
    requires
        old(volumes).valid(),
        call_ensures(IrRemote::dispatch, (r, command, h, volumes, play, now), ()),
        command != 0x45 && command != 0x16 && command != 0x0D && command != 0x18 && command != 0x52
            && command != 0x5A && command != 0x08 && command != 0x19,
        forall|n: int| 2 <= n <= 9 ==> command != #[trigger] digit_command(n),
    ensures
        *final(r) == *old(r),
        *final(h) == *old(h),
        final(volumes)@ == old(volumes)@,
        *final(play) == *old(play),
{
    assert(command != digit_command(2) && command != digit_command(3) && command != digit_command(
        4,
    ) && command != digit_command(5) && command != digit_command(6) && command != digit_command(7)
        && command != digit_command(8) && command != digit_command(9));
}

/// A frame is a press unless the same frame came less than 300 ms before; each frame is counted and
/// remembered.
pub proof fn law_remote_receives(
    r: &mut IrRemote,
    address: u8,
    command: u8,
    now: u32,
    fresh: bool,
    status: (u32, u16),
)
    requires
        call_ensures(IrRemote::receive, (r, address, command, now), fresh),
        call_ensures(IrRemote::decode_status, (&*final(r),), status),
    ensures
        status.1 == 256 * address + command,
        old(r).raw_count < u32::MAX ==> status.0 == old(r).raw_count + 1,
        old(r).last_key != status.1 ==> fresh,
        old(r).last_at_ms <= now && old(r).last_key == status.1 ==> fresh == (now - old(r).last_at_ms >= 300),
        final(r).last_at_ms == now,
        final(r).in_colour_mode == old(r).in_colour_mode,
        final(r).desktop_volume == old(r).desktop_volume,
{
}

// ── The buttons on the desk ───────────────────────────────────────────────────
/// The light button turns over what was asked for last or else what is shown, shows it at once, and
/// has it animated for four seconds.
pub proof fn law_light_button(
    ui: &mut UiState,
    h: &mut LampHandle,
    now: u64,
    now_ms: u32,
    then: u32,
    cmd: Option<LampCommand>,
)
    requires
        now + 4_000 <= u64::MAX,
        call_ensures(panel::press_light, (ui, h, now, now_ms), ()),
        call_ensures(LampHandle::poll, (&*final(h), then), cmd),
    ensures
        ({
            let was_on = if old(h).target != 0 {
                old(h).target > 0
            } else {
                old(ui).lamp.on
            };
            &&& final(ui).lamp == LampState { on: !was_on, known: true }
            &&& was_on ==> tells(cmd, power_off())
            &&& !was_on ==> tells(cmd, power_on())
        }),
        final(ui).lamp_anim_until == now + 4_000,
        final(ui).lamp_loading_frame == 0,
        final(ui).screen == old(ui).screen,
{
}

/// The preset buttons give the presets, and show the lamp as on.
pub proof fn law_preset_buttons(
    warm_ui: &mut UiState,
    bright_ui: &mut UiState,
    warm: &mut LampHandle,
    bright: &mut LampHandle,
    now: u64,
    now_ms: u32,
    then: u32,
    warm_cmd: Option<LampCommand>,
    bright_cmd: Option<LampCommand>,
)
    requires
        now + 4_000 <= u64::MAX,
        call_ensures(panel::press_warm, (warm_ui, warm, now, now_ms), ()),
        call_ensures(panel::press_bright, (bright_ui, bright, now, now_ms), ()),
        call_ensures(LampHandle::poll, (&*final(warm), then), warm_cmd),
        call_ensures(LampHandle::poll, (&*final(bright), then), bright_cmd),
    ensures
        tells(warm_cmd, warm_dim()),
        tells(bright_cmd, bright_white()),
        final(warm_ui).lamp == (LampState { on: true, known: true }),
        final(bright_ui).lamp == (LampState { on: true, known: true }),
        final(warm_ui).lamp_anim_until == now + 4_000,
        final(bright_ui).lamp_anim_until == now + 4_000,
{
}

/// The same buttons in the main loop: a press is a pin that goes low, at least 50 ms after the last
/// press; without one nothing changes. Each press acknowledges the pending message.
pub proof fn law_desk_lamp_buttons(
    light: &mut Desk,
    warm: &mut Desk,
    bright: &mut Desk,
    light_ui: &mut UiState,
    warm_ui: &mut UiState,
    bright_ui: &mut UiState,
    a: &mut LampHandle,
    b: &mut LampHandle,
    c: &mut LampHandle,
    leds: &mut LedState,
    warm_leds: &mut LedState,
    bright_leds: &mut LedState,
    high: bool,
    now: u64,
    now_ms: u32,
    pressed: (bool, bool, bool),
    then: u32,
    cmds: (Option<LampCommand>, Option<LampCommand>, Option<LampCommand>),
)
    requires
        now + 4_000 <= u64::MAX,
        old(light).valid_at(now),
        old(warm).valid_at(now),
        old(bright).valid_at(now),
        call_ensures(Desk::press_light, (light, light_ui, a, leds, high, now, now_ms), pressed.0),
        call_ensures(Desk::press_warm, (warm, warm_ui, b, warm_leds, high, now, now_ms), pressed.1),
        call_ensures(
            Desk::press_bright,
            (bright, bright_ui, c, bright_leds, high, now, now_ms),
            pressed.2,
        ),
        call_ensures(LampHandle::poll, (&*final(a), then), cmds.0),
        call_ensures(LampHandle::poll, (&*final(b), then), cmds.1),
        call_ensures(LampHandle::poll, (&*final(c), then), cmds.2),
    ensures
        pressed.0 == (old(light).light.was_high && !high && now - old(light).light.last_press_ms
            >= 50),
        pressed.1 == (old(warm).warm.was_high && !high && now - old(warm).warm.last_press_ms >= 50),
        pressed.2 == (old(bright).bright.was_high && !high && now - old(bright).bright.last_press_ms >= 50),
        pressed.0 ==> {
            let was_on = if old(a).target != 0 {
                old(a).target > 0
            } else {
                old(light_ui).lamp.on
            };
            &&& final(light_ui).lamp == LampState { on: !was_on, known: true }
            &&& was_on ==> tells(cmds.0, power_off())
            &&& !was_on ==> tells(cmds.0, power_on())
            &&& !final(leds).red
        },
        pressed.1 ==> tells(cmds.1, warm_dim()) && final(warm_ui).lamp.on && !final(warm_leds).red,
        pressed.2 ==> tells(cmds.2, bright_white()) && final(bright_ui).lamp.on && !final(bright_leds).red,
        !pressed.0 ==> *final(a) == *old(a) && *final(light_ui) == *old(light_ui) && *final(leds)
            == *old(leds),
        !pressed.1 ==> *final(b) == *old(b) && *final(warm_ui) == *old(warm_ui) && *final(warm_leds)
            == *old(warm_leds),
        !pressed.2 ==> *final(c) == *old(c) && *final(bright_ui) == *old(bright_ui) && *final(bright_leds) == *old(bright_leds),
{
}

/// A command that failed is tried again after five seconds, not sooner; a new request does not wait.
pub proof fn law_failed_command_waits(
    h: &mut LampHandle,
    again: &mut LampHandle,
    target: i8,
    now: u32,
    elapsed: u32,
    then: u32,
    done: bool,
    cmd: Option<LampCommand>,
    new_cmd: Option<LampCommand>,
)
    requires
        old(h).target == target,
        target == -1 || 1 <= target <= 5,
        elapsed < 0x8000_0000,
        now + 5_000 != 0x1_0000_0000,
        call_ensures(LampHandle::poll_done, (h, target, false, now), done),
        call_ensures(clock::ms_later, (now, elapsed), then),
        call_ensures(LampHandle::poll, (&*final(h), then), cmd),
        *old(again) == *final(h),
        call_ensures(LampHandle::queue_off, (again, then), ()),
        call_ensures(LampHandle::poll, (&*final(again), then), new_cmd),
    ensures
        !done,
        cmd is Some <==> elapsed >= 5_000,
        cmd is Some ==> (cmd->0).target == target,
        tells(new_cmd, power_off()),
{
    clock::law_deadline_holds(now, 5_000, elapsed as int);
}

/// The lamp is not asked how it is for ten seconds after a request, and for five after a command that
/// it took.
pub proof fn law_questions_wait(
    h: &mut LampHandle,
    sent: &mut LampHandle,
    target: i8,
    now: u32,
    elapsed: u32,
    then: u32,
    done: bool,
    asked_due: bool,
    sent_due: bool,
)
    requires
        elapsed < 0x8000_0000,
        now + 10_000 != 0x1_0000_0000,
        now + 5_000 != 0x1_0000_0000,
        call_ensures(LampHandle::queue_on, (h, now), ()),
        call_ensures(LampHandle::poll_done, (sent, target, true, now), done),
        call_ensures(clock::ms_later, (now, elapsed), then),
        call_ensures(LampHandle::refresh_due, (&*final(h), then), asked_due),
        call_ensures(LampHandle::refresh_due, (&*final(sent), then), sent_due),
    ensures
        done,
        asked_due <==> elapsed >= 10_000,
        sent_due <==> elapsed >= 5_000,
{
    clock::law_deadline_holds(now, 10_000, elapsed as int);
    clock::law_deadline_holds(now, 5_000, elapsed as int);
}

/// A command that was taken settles the request it was for, and no other: one that came in between is
/// still wanted, and still shown.
pub proof fn law_newer_request_stands(
    h: &mut LampHandle,
    target: i8,
    now: u32,
    done: bool,
    pending: bool,
    shown: LampState,
)
    requires
        call_ensures(LampHandle::poll_done, (h, target, true, now), done),
        call_ensures(LampHandle::has_pending_target, (&*final(h),), pending),
        call_ensures(LampHandle::display_state, (&*final(h),), shown),
    ensures
        old(h).target == target ==> !pending && shown == (LampState { on: target > 0, known: true }),
        old(h).target != target ==> final(h).target == old(h).target,
        old(h).target != target && old(h).target != 0 ==> pending && shown.on == (old(h).target > 0),
{
}

/// A question without an answer ends the session; one with an answer keeps it, and is read as any
/// answer of the lamp.
pub proof fn law_question_needs_answer(
    h: &mut LampHandle,
    silent: &mut LampHandle,
    reply: &str,
    r: Option<bool>,
    read: Option<bool>,
    none: Option<bool>,
)
    requires
        call_ensures(LampHandle::do_query_status, (h, Some(reply)), r),
        call_ensures(crate::tuya::parse_dps20, (reply,), read),
        call_ensures(LampHandle::do_query_status, (silent, None), none),
    ensures
        old(h).connected ==> r == read,
        !old(h).connected ==> r is None,
        final(h).connected == old(h).connected,
        none is None && !final(silent).connected,
        final(silent).target == old(silent).target && final(silent).state == old(silent).state,
{
}

/// A remote starts without a last key, in white, at full colour, with the volume in the middle.
pub proof fn law_new_remote(r: IrRemote, status: (u32, u16))
    requires
        call_ensures(IrRemote::new, (), r),
        call_ensures(IrRemote::decode_status, (&r,), status),
    ensures
        status == (0u32, 0xFFFFu16),
        !r.in_colour_mode,
        r.last_val == 1000 && r.last_hue == 0,
        2 * r.desktop_volume <= 153 < 2 * r.desktop_volume + 2,
{
}

} // verus!
