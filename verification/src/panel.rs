//! Decisions of the boot sequence, the background threads and the main loop.

use vstd::prelude::*;

use crate::api;
use crate::api::MarketData;
use crate::config;
use crate::config::Screen;
use crate::history;
use crate::history::PriceHistory;
use crate::led::LedState;
use crate::screen::UiState;
use crate::text;
use crate::tuya;
use crate::tuya::{LampHandle, LampState};
use crate::web::WebTriggers;

verus! {

/// LCD column where the 5-wide sand canvas starts (centered).
pub const SAND_COL: u8 = 7;

// ── Boot ──────────────────────────────────────────────────────────────────────
/// Why the device started.
#[derive(Clone, Copy, PartialEq, Eq, Structural, Debug)]
pub enum ResetKind {
    PowerOn,
    Brownout,
    Panic,
    IntWatchdog,
    TaskWatchdog,
    OtherWatchdog,
    Software,
    Unknown,
}

/// What a start is reported as, how bad it is, and how many milliseconds the supply needs to settle
/// before the radio starts.
pub open spec fn boot_parts(k: ResetKind) -> (Seq<char>, Seq<char>, u32) {
    match k {
        ResetKind::PowerOn => ("cold_start"@, "info"@, 1000),
        ResetKind::Brownout => ("brownout"@, "critical"@, 3000),
        ResetKind::Panic => ("panic"@, "critical"@, 0),
        ResetKind::IntWatchdog => ("int_watchdog"@, "error"@, 0),
        ResetKind::TaskWatchdog => ("task_watchdog"@, "error"@, 0),
        ResetKind::OtherWatchdog => ("other_watchdog"@, "error"@, 0),
        ResetKind::Software => ("software_reset"@, "info"@, 0),
        ResetKind::Unknown => ("unknown"@, "warning"@, 0),
    }
}

pub fn boot_reason(k: ResetKind) -> (r: (&'static str, &'static str, u32))
    ensures
        boot_parts(k) == (r.0@, r.1@, r.2),
{
    match k {
        ResetKind::PowerOn => ("cold_start", "info", 1000),
        ResetKind::Brownout => ("brownout", "critical", 3000),
        ResetKind::Panic => ("panic", "critical", 0),
        ResetKind::IntWatchdog => ("int_watchdog", "error", 0),
        ResetKind::TaskWatchdog => ("task_watchdog", "error", 0),
        ResetKind::OtherWatchdog => ("other_watchdog", "error", 0),
        ResetKind::Software => ("software_reset", "info", 0),
        ResetKind::Unknown => ("unknown", "warning", 0),
    }
}

/// The message that reports a start.
pub fn boot_message(k: ResetKind) -> (r: String)
    ensures
        r@ == "device booted, reset reason: "@ + boot_parts(k).0,
{
    let mut out: String = String::new();
    out.append("device booted, reset reason: ");
    out.append(boot_reason(k).0);
    out
}

/// Attempts to start the radio before the device restarts.
pub const WIFI_START_ATTEMPTS: u8 = 5;

/// Waiting for the first connection.
#[derive(Clone, Copy, PartialEq, Eq, Structural, Debug)]
pub struct WifiWait {
    pub started_ms: u64,
    pub last_retry_ms: u64,
}

/// What to do while waiting for the first connection.
#[derive(Clone, Copy, PartialEq, Eq, Structural, Debug)]
pub struct WifiWaitStep {
    /// Connected, with an address.
    pub done: bool,
    /// Try to connect.
    pub connect: bool,
    /// Disconnect, connect again and start the animation over.
    pub reset: bool,
}

pub const WIFI_RETRY_MS: u64 = 5_000;

pub const WIFI_RESET_MS: u64 = 30_000;

impl WifiWait {
    pub fn new(now: u64) -> (r: Self)
        ensures
            r == (WifiWait { started_ms: now, last_retry_ms: now }),
    {
        WifiWait { started_ms: now, last_retry_ms: now }
    }

    /// Retries every 5 s while not associated; after 30 s without an address starts over.
    pub fn step(&mut self, now: u64, associated: bool, has_ip: bool) -> (r: WifiWaitStep)
        requires
            old(self).started_ms <= now,
            old(self).last_retry_ms <= now,
        ensures
            r.done == (associated && has_ip),
            r.connect == (!r.done && !associated && now - old(self).last_retry_ms >= WIFI_RETRY_MS),
            r.reset == (!r.done && now - old(self).started_ms >= WIFI_RESET_MS),
            *final(self) == (WifiWait {
                started_ms: if r.reset {
                    now
                } else {
                    old(self).started_ms
                },
                last_retry_ms: if r.reset || r.connect {
                    now
                } else {
                    old(self).last_retry_ms
                },
            }),
    {
        if associated && has_ip {
            return WifiWaitStep { done: true, connect: false, reset: false };
        }
        let connect: bool = !associated && now - self.last_retry_ms >= WIFI_RETRY_MS;
        if connect {
            self.last_retry_ms = now;
        }
        let reset: bool = now - self.started_ms >= WIFI_RESET_MS;
        if reset {
            self.started_ms = now;
            self.last_retry_ms = now;
        }
        WifiWaitStep { done: false, connect, reset }
    }
}

/// Whether radio start attempt number `attempt` (from one) was the last.
pub fn wifi_start_gives_up(attempt: u8) -> (r: bool)
    ensures
        r == (attempt >= WIFI_START_ATTEMPTS),
{
    attempt >= WIFI_START_ATTEMPTS
}

/// What is shown when the main loop starts: connected, with the stored settings and prices.
pub fn start_ui(
    ui: &mut UiState,
    fetch_enabled: bool,
    pot_enabled: bool,
    screen: Option<Screen>,
    cached: Option<MarketData>,
)
    ensures
        *final(ui) == (UiState {
            wifi_connected: true,
            fetching: fetch_enabled,
            pot_enabled,
            screen: match screen {
                Some(s) => s,
                None => old(ui).screen,
            },
            data: match cached {
                Some(d) => d,
                None => old(ui).data,
            },
            ..*old(ui)
        }),
{
    ui.wifi_connected = true;
    ui.fetching = fetch_enabled;
    ui.pot_enabled = pot_enabled;
    if let Some(s) = screen {
        ui.screen = s;
    }
    if let Some(d) = cached {
        ui.data = d;
    }
}

// ── Timers ────────────────────────────────────────────────────────────────────
/// Something that happens at most every so often.
#[derive(Clone, Copy, PartialEq, Eq, Structural, Debug)]
pub struct Timer {
    pub last_ms: u64,
}

impl Timer {
    pub fn new(now: u64) -> (r: Self)
        ensures
            r == (Timer { last_ms: now }),
    {
        Timer { last_ms: now }
    }

    /// It is time again.
    pub open spec fn due(self, now: u64, interval_ms: u64) -> bool {
        now - self.last_ms >= interval_ms
    }

    /// Whether it is time again, if `enabled`. If so, counts from now.
    pub fn fire(&mut self, now: u64, interval_ms: u64, enabled: bool) -> (r: bool)
        requires
            old(self).last_ms <= now,
        ensures
            r == (enabled && old(self).due(now, interval_ms)),
            *final(self) == (Timer {
                last_ms: if r {
                    now
                } else {
                    old(self).last_ms
                },
            }),
    {
        if enabled && now - self.last_ms >= interval_ms {
            self.last_ms = now;
            true
        } else {
            false
        }
    }
}

/// A timer that fired is due again after its interval and not before.
pub proof fn law_timer_keeps_distance(fired: u64, now: u64, interval_ms: u64)
    ensures
        (Timer { last_ms: fired }).due(now, interval_ms) <==> now >= fired + interval_ms,
{
}

pub const CLOCK_MS: u64 = 1_000;

/// The display is set up anew this often, against contrast drift.
pub const LCD_REINIT_MS: u64 = 1_800_000;

pub const LAMP_REFRESH_MS: u64 = 5_000;

pub const VOLUME_READ_MS: u64 = 10;

pub const MIN_MANUAL_FETCH_MS: u64 = 10_000;

// ── Background fetches ────────────────────────────────────────────────────────
/// When weather was last fetched; 0 before the first time.
#[derive(Clone, Copy, PartialEq, Eq, Structural, Debug)]
pub struct WeatherLimiter {
    pub last_fetch_ms: u64,
}

impl WeatherLimiter {
    /// Whether a request is to be served: the first, and then one every ten minutes.
    pub fn serve(&mut self, now: u64, asked: bool) -> (r: bool)
        ensures
            r == (asked && (old(self).last_fetch_ms == 0 || now - old(self).last_fetch_ms
                >= config::WEATHER_MIN_REFRESH_MS)),
            *final(self) == (WeatherLimiter {
                last_fetch_ms: if r {
                    now
                } else {
                    old(self).last_fetch_ms
                },
            }),
    {
        if !asked {
            return false;
        }
        let due: bool = self.last_fetch_ms == 0 || (now >= self.last_fetch_ms && now
            - self.last_fetch_ms >= config::WEATHER_MIN_REFRESH_MS);
        if due {
            self.last_fetch_ms = now;
        }
        due
    }
}

/// Takes over weather that was fetched. Weather that failed leaves what is there. Returns whether it
/// is worth keeping.
pub fn take_weather(ui: &mut UiState, data: &MarketData) -> (r: bool)
    ensures
        r == data.ok_weather,
        *final(ui) == if data.ok_weather {
            UiState {
                data: MarketData {
                    weather_temp: data.weather_temp,
                    weather_code: data.weather_code,
                    ok_weather: true,
                    ..old(ui).data
                },
                ..*old(ui)
            }
        } else {
            *old(ui)
        },
{
    if data.ok_weather {
        ui.data.weather_temp = data.weather_temp;
        ui.data.weather_code = data.weather_code;
        ui.data.ok_weather = true;
        true
    } else {
        false
    }
}

/// Gold and oil are fetched every this many cycles.
pub const FETCH_B_EVERY_N_CYCLES: u32 = 4;

/// Whether gold and oil are fetched in this cycle. Counts the cycle.
pub fn next_cycle(cycle: &mut u32) -> (include_b: bool)
    ensures
        include_b == (*old(cycle) % FETCH_B_EVERY_N_CYCLES == 0),
        *final(cycle) == (*old(cycle) + 1) % 0x1_0000_0000,
{
    let include_b: bool = *cycle % FETCH_B_EVERY_N_CYCLES == 0;
    *cycle = cycle.wrapping_add(1);
    include_b
}

/// A fetch begins.
pub fn begin_fetch(ui: &mut UiState)
    ensures
        *final(ui) == (UiState { fetching: true, loading_frame: 0, ..*old(ui) }),
{
    ui.fetching = true;
    ui.loading_frame = 0;
}

/// A fetch has ended.
pub fn end_fetch(ui: &mut UiState, data: MarketData, now: u64)
    ensures
        *final(ui) == (UiState {
            data: api::merged(old(ui).data, data),
            fetching: false,
            fetch_completed_at: now,
            ..*old(ui)
        }),
{
    api::merge(&mut ui.data, data);
    ui.fetching = false;
    ui.fetch_completed_at = now;
}

/// How long to sleep on before the next cycle, in steps of at most 100 ms; nothing where the time
/// has come or someone asked.
pub fn wait_step(now: u64, until: u64, asked: bool) -> (r: Option<u64>)
    ensures
        r == if asked || now >= until {
            None
        } else if until - now < 100 {
            Some((until - now) as u64)
        } else {
            Some(100)
        },
{
    if asked || now >= until {
        return None;
    }
    let left: u64 = until - now;
    Some(
        if left < 100 {
            left
        } else {
            100
        },
    )
}

/// The samples of a history after a fetch.
pub open spec fn sampled(h: Seq<Seq<crate::double::Double>>, s: Screen, p: crate::double::Double) -> Seq<
    Seq<crate::double::Double>,
> {
    if history::is_price(p) {
        h.update(s.number(), history::newest(h[s.number()].push(p), history::LEN as int))
    } else {
        h
    }
}

/// Adds one sample per asset after each fetch.
pub fn record_history(hist: &mut PriceHistory, ui: &UiState, last: &mut u64)
    requires
        old(hist).valid(),
    ensures
        final(hist).valid(),
        ui.fetch_completed_at > *old(last) ==> *final(last) == ui.fetch_completed_at
            && final(hist)@ == sampled(
            sampled(
                sampled(
                    sampled(
                        sampled(old(hist)@, Screen::Btc, ui.data.price_btc),
                        Screen::Sol,
                        ui.data.price_sol,
                    ),
                    Screen::Gold,
                    ui.data.price_gold,
                ),
                Screen::Oil,
                ui.data.price_oil,
            ),
            Screen::UsdBrl,
            ui.data.price_usd_brl,
        ),
        ui.fetch_completed_at <= *old(last) ==> *final(last) == *old(last) && *final(hist) == *old(
            hist,
        ),
{
    if ui.fetch_completed_at > *last {
        *last = ui.fetch_completed_at;
        hist.push(Screen::Btc, ui.data.price_btc);
        hist.push(Screen::Sol, ui.data.price_sol);
        hist.push(Screen::Gold, ui.data.price_gold);
        hist.push(Screen::Oil, ui.data.price_oil);
        hist.push(Screen::UsdBrl, ui.data.price_usd_brl);
    }
}

// ── Buttons ───────────────────────────────────────────────────────────────────
/// A button that counts on its falling edge and is then deaf for a while.
#[derive(Clone, Copy, PartialEq, Eq, Structural, Debug)]
pub struct Button {
    /// The pin was high, that is released, when last looked at.
    pub was_high: bool,
    pub last_press_ms: u64,
}

impl Button {
    pub fn new() -> (r: Self)
        ensures
            r == (Button { was_high: true, last_press_ms: 0 }),
    {
        Button { was_high: true, last_press_ms: 0 }
    }

    /// The button goes down, and not right after the last time.
    pub open spec fn pressed(self, now: u64, high: bool) -> bool {
        self.was_high && !high && now - self.last_press_ms >= config::DEBOUNCE_MS
    }

    /// Looks at the pin. `asked` stands for a press from elsewhere; it counts as one, too. Returns
    /// whether there was either, and whether the button itself was pressed.
    pub fn poll(&mut self, now: u64, high: bool, asked: bool) -> (r: (bool, bool))
        requires
            old(self).last_press_ms <= now,
        ensures
            r.1 == old(self).pressed(now, high),
            r.0 == (r.1 || asked),
            *final(self) == (Button {
                was_high: high,
                last_press_ms: if r.0 {
                    now
                } else {
                    old(self).last_press_ms
                },
            }),
    {
        let own: bool = self.was_high && !high && now - self.last_press_ms >= config::DEBOUNCE_MS;
        let any: bool = own || asked;
        if any {
            self.last_press_ms = now;
        }
        self.was_high = high;
        (any, own)
    }
}

/// A press is not followed by another within the blanking period, and holding the button down
/// counts once.
pub proof fn law_button_is_debounced(b: Button, now: u64, later: u64, high: bool)
    requires
        b.pressed(now, false),
        now <= later,
    ensures
        ({
            let after = Button { was_high: false, last_press_ms: now };
            &&& !after.pressed(later, high)
            &&& later - now < config::DEBOUNCE_MS ==> !(Button {
                was_high: true,
                ..after
            }).pressed(later, high)
        }),
{
}

/// A button that counts once its pin has held its new level for a while.
#[derive(Clone, Copy, PartialEq, Eq, Structural, Debug)]
pub struct StableButton {
    pub raw_last: bool,
    pub raw_since_ms: u64,
    pub stable: bool,
}

/// What looking at the pin makes of the button, and whether it was pressed.
pub open spec fn looked(b: StableButton, now: u64, raw: bool) -> (StableButton, bool) {
    let since = if raw != b.raw_last {
        now
    } else {
        b.raw_since_ms
    };
    let settled = raw != b.stable && now - since >= config::DEBOUNCE_MS;
    (
        StableButton {
            raw_last: raw,
            raw_since_ms: since,
            stable: if settled {
                raw
            } else {
                b.stable
            },
        },
        settled && b.stable && !raw,
    )
}

impl StableButton {
    pub fn new() -> (r: Self)
        ensures
            r == (StableButton { raw_last: true, raw_since_ms: 0, stable: true }),
    {
        StableButton { raw_last: true, raw_since_ms: 0, stable: true }
    }

    /// Looks at the pin. Returns whether the button was pressed.
    pub fn poll(&mut self, now: u64, raw: bool) -> (pressed: bool)
        requires
            old(self).raw_since_ms <= now,
        ensures
            (*final(self), pressed) == looked(*old(self), now, raw),
    {
        if raw != self.raw_last {
            self.raw_last = raw;
            self.raw_since_ms = now;
        }
        let mut pressed: bool = false;
        if raw != self.stable && now - self.raw_since_ms >= config::DEBOUNCE_MS {
            if self.stable && !raw {
                pressed = true;
            }
            self.stable = raw;
        }
        pressed
    }
}

/// A press counts only when the pin was seen low all the time since at least 50 ms, and it does not
/// count again until the button was released as long.
pub proof fn law_press_is_held(b: StableButton, now: u64, raw: bool)
    requires
        looked(b, now, raw).1,
    ensures
        !raw,
        !b.raw_last && now - b.raw_since_ms >= config::DEBOUNCE_MS,
        !looked(b, now, raw).0.stable,
        forall|t: u64, r: bool| !(#[trigger] looked(looked(b, now, raw).0, t, r)).1,
{
}

/// A level that changes back before it has held for 50 ms leaves the button as it was: bounce never
/// counts.
pub proof fn law_bounce_is_ignored(b: StableButton, now: u64, later: u64)
    requires
        b.raw_last == b.stable,
        now <= later,
    ensures
        ({
            let flipped = looked(b, now, !b.stable);
            let back = looked(flipped.0, later, b.stable);
            !flipped.1 && !back.1 && flipped.0.stable == b.stable && back.0.stable == b.stable
        }),
{
}

/// The lamp is being animated.
pub open spec fn animating(ui: UiState, now: u64) -> bool {
    ui.lamp_anim_until > 0 && now < ui.lamp_anim_until
}

pub fn lamp_anim_active(ui: &UiState, now: u64) -> (r: bool)
    ensures
        r == animating(*ui, now),
{
    ui.lamp_anim_until > 0 && now < ui.lamp_anim_until
}

/// The lamp is shown as wanted, and animated for a while.
pub open spec fn lamp_asked(ui: UiState, on: bool, now: u64) -> UiState {
    UiState {
        lamp: LampState { on, known: true },
        lamp_anim_until: (now + config::LAMP_TOGGLE_ANIM_MS) as u64,
        lamp_loading_frame: 0,
        ..ui
    }
}

fn show_lamp_asked(ui: &mut UiState, on: bool, now: u64)
    requires
        now + config::LAMP_TOGGLE_ANIM_MS <= u64::MAX,
    ensures
        *final(ui) == lamp_asked(*old(ui), on, now),
{
    ui.lamp = LampState { on, known: true };
    ui.lamp_anim_until = now + config::LAMP_TOGGLE_ANIM_MS;
    ui.lamp_loading_frame = 0;
}

/// The light button. `now` is in milliseconds, `now_ms` the same on the 32-bit clock.
pub fn press_light(ui: &mut UiState, lamp: &mut LampHandle, now: u64, now_ms: u32)
    requires
        now + config::LAMP_TOGGLE_ANIM_MS <= u64::MAX,
    ensures
        *final(lamp) == tuya::asked(
            *old(lamp),
            tuya::flipped(old(lamp).target, old(ui).lamp.on),
            now_ms,
        ),
        *final(ui) == lamp_asked(
            *old(ui),
            tuya::flipped(old(lamp).target, old(ui).lamp.on) > 0,
            now,
        ),
{
    let new_on: bool = lamp.flip_target(ui.lamp.on, now_ms);
    show_lamp_asked(ui, new_on, now);
}

/// The warm dim button.
pub fn press_warm(ui: &mut UiState, lamp: &mut LampHandle, now: u64, now_ms: u32)
    requires
        now + config::LAMP_TOGGLE_ANIM_MS <= u64::MAX,
    ensures
        *final(lamp) == tuya::asked(*old(lamp), 2, now_ms),
        *final(ui) == lamp_asked(*old(ui), true, now),
{
    lamp.queue_warm_dim(now_ms);
    show_lamp_asked(ui, true, now);
}

/// The bright white button.
pub fn press_bright(ui: &mut UiState, lamp: &mut LampHandle, now: u64, now_ms: u32)
    requires
        now + config::LAMP_TOGGLE_ANIM_MS <= u64::MAX,
    ensures
        *final(lamp) == tuya::asked(*old(lamp), 3, now_ms),
        *final(ui) == lamp_asked(*old(ui), true, now),
{
    lamp.queue_bright_white(now_ms);
    show_lamp_asked(ui, true, now);
}

/// The screen button, or the choice of a screen where `select` is not negative. Returns the screen
/// to remember, if it was set.
pub fn press_screen(ui: &mut UiState, select: i8) -> (r: Option<Screen>)
    ensures
        select < 0 ==> r is Some && r->0.number() == (old(ui).screen.number() + 1) % 5,
        select >= 0 ==> (r is Some <==> select < 5) && (r is Some ==> r->0.number() == select),
        *final(ui) == (UiState {
            screen: match r {
                Some(s) => s,
                None => old(ui).screen,
            },
            ..*old(ui)
        }),
{
    if select >= 0 {
        match Screen::from_u8(select as u8) {
            Some(s) => {
                ui.screen = s;
                Some(s)
            },
            None => None,
        }
    } else {
        ui.screen = ui.screen.next();
        Some(ui.screen)
    }
}

/// The pot button, or the switch of the page where `web` is not negative.
pub fn press_pot(enabled: bool, web: i8) -> (r: bool)
    ensures
        r == if web >= 0 {
            web == 1
        } else {
            !enabled
        },
{
    if web >= 0 {
        web == 1
    } else {
        !enabled
    }
}

/// Where a press on the page came from.
pub fn origin(last_origin_external: bool) -> (r: &'static str)
    ensures
        r@ == if last_origin_external {
            "web-external"@
        } else {
            "web-internal"@
        },
{
    if last_origin_external {
        "web-external"
    } else {
        "web-internal"
    }
}

/// What the page asked of the main loop.
#[derive(Clone, Copy, PartialEq, Eq, Structural, Debug)]
pub struct WebOrders {
    pub screen: bool,
    pub screen_select: i8,
    pub display: i8,
    pub pot: i8,
    pub media: bool,
    pub volume: i8,
}

/// Takes what the page asked of the main loop; nothing where there is no page. Weather is left to
/// whoever fetches it.
pub fn take_orders(t: &mut WebTriggers, web_enabled: bool) -> (r: WebOrders)
    ensures
        r == if web_enabled {
            WebOrders {
                screen: old(t).screen,
                screen_select: old(t).screen_select,
                display: old(t).display,
                pot: old(t).pot,
                media: old(t).media,
                volume: old(t).volume,
            }
        } else {
            WebOrders {
                screen: false,
                screen_select: (-1) as i8,
                display: (-1) as i8,
                pot: (-1) as i8,
                media: false,
                volume: (-1) as i8,
            }
        },
        *final(t) == if web_enabled {
            WebTriggers {
                screen: false,
                screen_select: (-1) as i8,
                display: (-1) as i8,
                pot: (-1) as i8,
                media: false,
                volume: (-1) as i8,
                ..*old(t)
            }
        } else {
            *old(t)
        },
{
    if !web_enabled {
        return WebOrders {
            screen: false,
            screen_select: -1,
            display: -1,
            pot: -1,
            media: false,
            volume: -1,
        };
    }
    let r = WebOrders {
        screen: t.screen,
        screen_select: t.screen_select,
        display: t.display,
        pot: t.pot,
        media: t.media,
        volume: t.volume,
    };
    t.screen = false;
    t.screen_select = -1;
    t.display = -1;
    t.pot = -1;
    t.media = false;
    t.volume = -1;
    r
}

/// The volume that the page asked for, in the internal range.
pub fn web_volume(order: i8) -> (r: Option<u8>)
    ensures
        r == if order >= 0 {
            Some((order * 153 / 100) as u8)
        } else {
            None
        },
{
    if order >= 0 {
        Some((order as u32 * 153 / 100) as u8)
    } else {
        None
    }
}

// ── Animation ─────────────────────────────────────────────────────────────────
/// What is shown after the animations that are due have moved on a frame.
pub open spec fn animated(ui: UiState, lamp_due: bool, fetch_due: bool) -> UiState {
    UiState {
        lamp_loading_frame: if lamp_due {
            ((ui.lamp_loading_frame + 1) % 0x1_0000) as u16
        } else {
            ui.lamp_loading_frame
        },
        loading_frame: if fetch_due {
            ((ui.loading_frame + 1) % 0x1_0000) as u16
        } else {
            ui.loading_frame
        },
        ..ui
    }
}

/// The next frame of the animations that are due. Returns whether the header has to be drawn again.
pub fn animate(ui: &mut UiState, lamp_due: bool, fetch_due: bool) -> (dirty: bool)
    ensures
        dirty == (lamp_due || fetch_due),
        *final(ui) == animated(*old(ui), lamp_due, fetch_due),
{
    if lamp_due {
        ui.lamp_loading_frame = ui.lamp_loading_frame.wrapping_add(1);
    }
    if fetch_due {
        ui.loading_frame = ui.loading_frame.wrapping_add(1);
    }
    lamp_due || fetch_due
}

// ── Outputs ───────────────────────────────────────────────────────────────────
/// What was last written to the outputs.
#[derive(Clone, Copy, PartialEq, Eq, Structural, Debug)]
pub struct Outputs {
    pub green: bool,
    pub red: bool,
    pub yellow: bool,
    pub backlight: bool,
}

/// What to write to the outputs; nothing where an output has its value.
#[derive(Clone, Copy, PartialEq, Eq, Debug)]
pub struct OutputWrites {
    pub green: Option<bool>,
    pub red: Option<bool>,
    pub yellow: Option<bool>,
    pub backlight: Option<bool>,
}

pub open spec fn change(last: bool, want: bool) -> Option<bool> {
    if last != want {
        Some(want)
    } else {
        None
    }
}

fn changed(last: bool, want: bool) -> (r: Option<bool>)
    ensures
        r == change(last, want),
{
    if last != want {
        Some(want)
    } else {
        None
    }
}

impl Outputs {
    /// The outputs as the boot sequence leaves them: red, and the backlight on.
    pub fn new() -> (r: Self)
        ensures
            r == (Outputs { green: false, red: true, yellow: false, backlight: true }),
    {
        Outputs { green: false, red: true, yellow: false, backlight: true }
    }

    /// Brings the outputs up to date.
    pub fn update(&mut self, leds: &LedState, screen_forced_off: bool) -> (r: OutputWrites)
        ensures
            *final(self) == (Outputs {
                green: leds.green,
                red: leds.red,
                yellow: leds.blue,
                backlight: !screen_forced_off,
            }),
            r.green == change(old(self).green, leds.green),
            r.red == change(old(self).red, leds.red),
            r.yellow == change(old(self).yellow, leds.blue),
            r.backlight == change(old(self).backlight, !screen_forced_off),
    {
        let r = OutputWrites {
            green: changed(self.green, leds.green),
            red: changed(self.red, leds.red),
            yellow: changed(self.yellow, leds.blue),
            backlight: changed(self.backlight, !screen_forced_off),
        };
        self.green = leds.green;
        self.red = leds.red;
        self.yellow = leds.blue;
        self.backlight = !screen_forced_off;
        r
    }

    /// The red flash that every button gives ends with red off, also as a pending message.
    pub fn flashed(&mut self, leds: &mut LedState)
        ensures
            *final(self) == (Outputs { red: false, ..*old(self) }),
            *final(leds) == (LedState { red: false, ..*old(leds) }),
    {
        leds.set_red(false);
        self.red = false;
    }
}

// ── Network watch ─────────────────────────────────────────────────────────────
pub const WIFI_CHECK_MS: u64 = 15_000;

/// Seconds without connection before a full disconnect.
pub const WIFI_FULL_RECONNECT_SECS: u64 = 60;

/// Since when the connection has been down; 0 while it is up.
#[derive(Clone, Copy, PartialEq, Eq, Structural, Debug)]
pub struct WifiWatch {
    pub down_since_ms: u64,
}

/// What to do about the connection.
#[derive(Clone, Copy, PartialEq, Eq, Structural, Debug)]
pub enum WifiAction {
    Nothing,
    /// Try to connect.
    Connect,
    /// Disconnect, wait, then try to connect.
    Reconnect,
}

/// What a look at the connection asks for, and what it leaves to remember.
pub open spec fn watched(w: WifiWatch, now: u64, connected: bool) -> (WifiAction, WifiWatch) {
    let since = if w.down_since_ms == 0 {
        now
    } else {
        w.down_since_ms
    };
    if connected {
        (WifiAction::Nothing, WifiWatch { down_since_ms: 0 })
    } else if now >= since && (now - since) / 1000 >= WIFI_FULL_RECONNECT_SECS {
        (WifiAction::Reconnect, WifiWatch { down_since_ms: now })
    } else {
        (WifiAction::Connect, WifiWatch { down_since_ms: since })
    }
}

impl WifiWatch {
    pub fn new() -> (r: Self)
        ensures
            r == (WifiWatch { down_since_ms: 0 }),
    {
        WifiWatch { down_since_ms: 0 }
    }

    /// Looks at the connection.
    pub fn check(&mut self, now: u64, connected: bool) -> (r: WifiAction)
        ensures
            (r, *final(self)) == watched(*old(self), now, connected),
    {
        if connected {
            self.down_since_ms = 0;
            return WifiAction::Nothing;
        }
        if self.down_since_ms == 0 {
            self.down_since_ms = now;
        }
        let secs_down: u64 = if now >= self.down_since_ms {
            (now - self.down_since_ms) / 1000
        } else {
            0
        };
        if secs_down >= WIFI_FULL_RECONNECT_SECS {
            self.down_since_ms = now;
            WifiAction::Reconnect
        } else {
            WifiAction::Connect
        }
    }
}

/// The event that a change of the connection is reported as: type, severity and message.
pub fn wifi_event(was_up: bool, up: bool) -> (r: Option<(&'static str, &'static str, &'static str)>)
    ensures
        r is Some <==> was_up != up,
        r matches Some(e) ==> if up {
            e.0@ == "wifi_recovered"@ && e.1@ == "info"@ && e.2@ == "wifi reconnected"@
        } else {
            e.0@ == "wifi_lost"@ && e.1@ == "warning"@ && e.2@ == "wifi disconnected"@
        },
{
    if was_up == up {
        None
    } else if up {
        Some(("wifi_recovered", "info", "wifi reconnected"))
    } else {
        Some(("wifi_lost", "warning", "wifi disconnected"))
    }
}

/// The device restarts when the refresher has shown no life for this long.
pub const STUCK_MS: u32 = 120_000;

/// The message to restart with, if the refresher is stuck.
pub fn stuck_message(stuck_for_ms: Option<u32>) -> (r: Option<String>)
    ensures
        r is Some <==> stuck_for_ms is Some && stuck_for_ms->0 >= STUCK_MS,
        r matches Some(m) ==> m@ == "chart-cache-refresher heartbeat stale for "@ + text::decimal(
            stuck_for_ms->0 as nat,
        ) + "ms, forcing reboot"@,
{
    match stuck_for_ms {
        Some(ms) if ms >= STUCK_MS => {
            let mut out: String = String::new();
            out.append("chart-cache-refresher heartbeat stale for ");
            text::push_decimal(&mut out, ms as u64);
            out.append("ms, forcing reboot");
            Some(out)
        },
        _ => None,
    }
}

/// Whether the free stack is at a new low. Keeps the lowest.
pub fn check_stack_watermark(free: u32, min_seen: &mut u32) -> (new_low: bool)
    ensures
        new_low == (free < *old(min_seen)),
        *final(min_seen) == if free < *old(min_seen) {
            free
        } else {
            *old(min_seen)
        },
{
    if free < *min_seen {
        *min_seen = free;
        true
    } else {
        false
    }
}

} // verus!
