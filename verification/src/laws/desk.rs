//! Buttons, timers, switches and settings do what they are there for.

use vstd::prelude::*;

use crate::config;
use crate::config::Screen;
use crate::desk;
use crate::desk::{Desk, DisplayPress, MediaPress, PotPress, Redraw, ScreenPress, Seen, WifiLook};
use crate::led::LedState;
use crate::panel;
use crate::panel::{
    Button, OutputWrites, Outputs, ResetKind, Timer, WebOrders, WifiAction, WifiWait,
    WifiWaitStep, WifiWatch,
};
use crate::persist::Persist;
use crate::screen::UiState;
use crate::text;
use crate::tuya::LampHandle;
use crate::web::WebTriggers;

verus! {

// ── Start ─────────────────────────────────────────────────────────────────────
/// A start is reported with its reason. After a crash or a failing supply it is critical, after a
/// watchdog an error, and where nobody knows a warning; only a start of the supply has to settle, and
/// a failing one three times as long.
pub proof fn law_boot(k: ResetKind, r: (&'static str, &'static str, u32), message: String)
    requires
        call_ensures(panel::boot_reason, (k,), r),
        call_ensures(panel::boot_message, (k,), message),
    ensures
        message@ == "device booted, reset reason: "@ + r.0@,
        r.1@ == "critical"@ <==> k is Brownout || k is Panic,
        r.1@ == "error"@ <==> k is IntWatchdog || k is TaskWatchdog || k is OtherWatchdog,
        r.1@ == "warning"@ <==> k is Unknown,
        r.1@ == "info"@ <==> k is PowerOn || k is Software,
        k is PowerOn <==> r.2 == 1000,
        k is Brownout <==> r.2 == 3000,
        !(k is PowerOn) && !(k is Brownout) ==> r.2 == 0,
        k is PowerOn <==> r.0@ == "cold_start"@,
        k is Brownout <==> r.0@ == "brownout"@,
        k is Panic <==> r.0@ == "panic"@,
        k is Software <==> r.0@ == "software_reset"@,
        k is Unknown <==> r.0@ == "unknown"@,
        k is IntWatchdog <==> r.0@ == "int_watchdog"@,
        k is TaskWatchdog <==> r.0@ == "task_watchdog"@,
        k is OtherWatchdog <==> r.0@ == "other_watchdog"@,
{
    reveal_strlit("critical");
    reveal_strlit("error");
    reveal_strlit("warning");
    reveal_strlit("info");
    assert("critical"@.len() == 8 && "error"@.len() == 5 && "warning"@.len() == 7 && "info"@.len()
        == 4);
    reveal_strlit("cold_start");
    reveal_strlit("brownout");
    reveal_strlit("panic");
    reveal_strlit("software_reset");
    reveal_strlit("unknown");
    reveal_strlit("int_watchdog");
    reveal_strlit("task_watchdog");
    reveal_strlit("other_watchdog");
    assert("cold_start"@.len() == 10 && "brownout"@.len() == 8 && "panic"@.len() == 5);
    assert("software_reset"@.len() == 14 && "software_reset"@[0] == 's' && "unknown"@.len() == 7);
    assert("int_watchdog"@.len() == 12 && "task_watchdog"@.len() == 13);
    assert("other_watchdog"@.len() == 14 && "other_watchdog"@[0] == 'o');
}

/// Waiting for the first connection ends with an address and not before; without a link a try is made
/// every five seconds, and after thirty without an address everything starts over.
pub proof fn law_first_connection(
    w: &mut WifiWait,
    now: u64,
    associated: bool,
    has_ip: bool,
    r: WifiWaitStep,
)
    requires
        old(w).started_ms <= now,
        old(w).last_retry_ms <= now,
        call_ensures(WifiWait::step, (w, now, associated, has_ip), r),
    ensures
        r.done <==> associated && has_ip,
        r.connect <==> !associated && now - old(w).last_retry_ms >= 5_000,
        r.reset <==> !(associated && has_ip) && now - old(w).started_ms >= 30_000,
        r.reset ==> final(w).started_ms == now,
        !r.reset ==> final(w).started_ms == old(w).started_ms,
        r.reset || r.connect ==> final(w).last_retry_ms == now,
        !r.reset && !r.connect ==> final(w).last_retry_ms == old(w).last_retry_ms,
{
}

/// The main loop starts with a connection, the stored screen, the stored prices and the stored switch,
/// each where there is one.
pub proof fn law_start(
    ui: &mut UiState,
    fetch: bool,
    pot: bool,
    s: Option<Screen>,
    cached: Option<crate::api::MarketData>,
)
    requires
        call_ensures(panel::start_ui, (ui, fetch, pot, s, cached), ()),
    ensures
        final(ui).wifi_connected,
        final(ui).fetching == fetch,
        final(ui).pot_enabled == pot,
        s is Some ==> final(ui).screen == s->0,
        s is None ==> final(ui).screen == old(ui).screen,
        cached is Some ==> final(ui).data == cached->0,
        cached is None ==> final(ui).data == old(ui).data,
        final(ui).lamp == old(ui).lamp,
{
}

// ── Screens ───────────────────────────────────────────────────────────────────
/// The screens follow one another from Bitcoin to the dollar, and then from the start. Each has a
/// number under which it is found again.
pub proof fn law_screens(s: Screen, next: Screen, n: u8, again: Option<Screen>)
    requires
        call_ensures(Screen::next, (s,), next),
        call_ensures(Screen::to_u8, (s,), n),
        call_ensures(Screen::from_u8, (n,), again),
    ensures
        s == Screen::Btc ==> next == Screen::Sol && n == 0,
        s == Screen::Sol ==> next == Screen::Gold && n == 1,
        s == Screen::Gold ==> next == Screen::Oil && n == 2,
        s == Screen::Oil ==> next == Screen::UsdBrl && n == 3,
        s == Screen::UsdBrl ==> next == Screen::Btc && n == 4,
        again == Some(s),
{
    config::law_number_names_screen(s, s);
    if again is Some {
        config::law_number_names_screen(s, again->0);
    }
}

/// The screen button shows the next screen, a choice on the page the chosen one; a number without a
/// screen changes nothing. What is shown is what is to be remembered.
pub proof fn law_screen_choice(ui: &mut UiState, select: i8, r: Option<Screen>, next: Screen)
    requires
        call_ensures(panel::press_screen, (ui, select), r),
        call_ensures(Screen::next, (old(ui).screen,), next),
    ensures
        select < 0 ==> final(ui).screen == next && r == Some(next),
        select == 0 ==> final(ui).screen == Screen::Btc,
        select == 1 ==> final(ui).screen == Screen::Sol,
        select == 2 ==> final(ui).screen == Screen::Gold,
        select == 3 ==> final(ui).screen == Screen::Oil,
        select == 4 ==> final(ui).screen == Screen::UsdBrl,
        select > 4 ==> final(ui).screen == old(ui).screen && r is None,
        r is Some ==> r->0 == final(ui).screen,
        final(ui).data == old(ui).data && final(ui).lamp == old(ui).lamp,
{
    if r is Some {
        config::law_number_names_screen(r->0, next);
    }
}

/// The screen button in the main loop, and the page's: whichever it was, everything that waits for the
/// next screen starts over, the pending message is acknowledged, and prices are fetched where that is
/// enabled and the last such fetch is ten seconds back.
pub proof fn law_desk_screen(
    d: &mut Desk,
    ui: &mut UiState,
    leds: &mut LedState,
    high: bool,
    orders: WebOrders,
    fetch: bool,
    now: u64,
    r: ScreenPress,
    next: Screen,
)
    requires
        old(d).valid_at(now),
        call_ensures(Desk::press_screen, (d, ui, leds, high, &orders, fetch, now), r),
        call_ensures(Screen::next, (old(ui).screen,), next),
    ensures
        r.pressed <==> (old(d).screen.was_high && !high && now - old(d).screen.last_press_ms >= 50)
            || orders.screen || orders.screen_select >= 0,
        !r.pressed ==> *final(ui) == *old(ui) && *final(leds) == *old(leds) && !r.fetch,
        r.pressed && orders.screen_select < 0 ==> final(ui).screen == next,
        r.pressed && orders.screen_select == 2 ==> final(ui).screen == Screen::Gold,
        r.pressed && orders.screen_select > 4 ==> final(ui).screen == old(ui).screen,
        r.pressed ==> !final(leds).red && final(leds).green == old(leds).green && final(leds).blue
            == old(leds).blue,
        r.pressed ==> final(d).auto_screen.last_ms == now && !final(d).chart_active,
        r.fetch <==> r.pressed && fetch && now - old(d).manual_fetch.last_ms >= 10_000,
        r.fetch ==> final(d).manual_fetch.last_ms == now,
        r.report <==> orders.screen && orders.screen_select < 0,
        final(d).screen.was_high == high,
{
    if r.remember is Some {
        config::law_number_names_screen(r.remember->0, next);
        config::law_number_names_screen(r.remember->0, Screen::Gold);
    }
}

// ── Buttons and timers ────────────────────────────────────────────────────────
/// A button counts when its pin goes from high to low, at least 50 ms after the last time it counted;
/// a press from elsewhere counts as well, and starts the pause over.
pub proof fn law_button(b: &mut Button, now: u64, high: bool, asked: bool, r: (bool, bool))
    requires
        old(b).last_press_ms <= now,
        call_ensures(Button::poll, (b, now, high, asked), r),
    ensures
        r.1 <==> old(b).was_high && !high && now - old(b).last_press_ms >= 50,
        r.0 <==> r.1 || asked,
        final(b).was_high == high,
        final(b).last_press_ms == (if r.0 {
            now
        } else {
            old(b).last_press_ms
        }),
{
}

/// A timer fires where its interval has passed, and then waits for the next; where it may not fire it
/// goes on waiting.
pub proof fn law_timer(t: &mut Timer, now: u64, interval: u64, enabled: bool, r: bool)
    requires
        old(t).last_ms <= now,
        call_ensures(Timer::fire, (t, now, interval, enabled), r),
    ensures
        r <==> enabled && now >= old(t).last_ms + interval,
        r ==> final(t).last_ms == now,
        !r ==> final(t).last_ms == old(t).last_ms,
{
}

/// Gold and oil are fetched in the first cycle and in every fourth one from there.
pub proof fn law_cycles(c: &mut u32, both: bool)
    requires
        call_ensures(panel::next_cycle, (c,), both),
    ensures
        both <==> *old(c) % 4 == 0,
        *old(c) < u32::MAX ==> *final(c) == *old(c) + 1,
        *old(c) == u32::MAX ==> *final(c) == 0,
{
}

/// Between cycles the fetcher sleeps in short steps, never past the time of the next, and not at all
/// where someone asks.
pub proof fn law_waits(now: u64, until: u64, asked: bool, r: Option<u64>)
    requires
        call_ensures(panel::wait_step, (now, until, asked), r),
    ensures
        r is None <==> asked || now >= until,
        r is Some ==> 0 < r->0 <= 100 && now + r->0 <= until,
        r is Some && now + 100 <= until ==> r->0 == 100,
        r is Some && now + 100 > until ==> now + r->0 == until,
{
}

/// A fetch that begins is shown from the first frame.
pub proof fn law_fetch_begins(ui: &mut UiState)
    requires
        call_ensures(panel::begin_fetch, (ui,), ()),
    ensures
        final(ui).fetching && final(ui).loading_frame == 0,
        final(ui).data == old(ui).data && final(ui).screen == old(ui).screen,
{
}

// ── Orders of the page ────────────────────────────────────────────────────────
/// The main loop gets each order of the page once, as it was given; without a page there are none.
/// What is asked of the weather is left for whoever fetches it.
pub proof fn law_orders_are_taken(
    t: &mut WebTriggers,
    again: &mut WebTriggers,
    page: bool,
    r: WebOrders,
    second: WebOrders,
)
    requires
        call_ensures(panel::take_orders, (t, page), r),
        *old(again) == *final(t),
        call_ensures(panel::take_orders, (again, page), second),
    ensures
        page ==> r.screen == old(t).screen && r.screen_select == old(t).screen_select && r.display
            == old(t).display && r.pot == old(t).pot && r.media == old(t).media && r.volume == old(t).volume,
        !page ==> *final(t) == *old(t) && !r.screen && !r.media && r.screen_select < 0 && r.display
            < 0 && r.pot < 0 && r.volume < 0,
        !second.screen && !second.media && second.screen_select < 0 && second.display < 0
            && second.pot < 0 && second.volume < 0,
        final(t).weather == old(t).weather,
        final(t).last_origin_external == old(t).last_origin_external,
{
}

/// The volume of the page is taken in percent of the range from 0 to 153, rounded down.
pub proof fn law_web_volume(order: i8, r: Option<u8>)
    requires
        call_ensures(panel::web_volume, (order,), r),
        order <= 100,
    ensures
        r is Some <==> order >= 0,
        r is Some ==> 100 * r->0 <= 153 * order < 100 * (r->0 + 1),
{
}

/// The display switch of the page: off forces the display off, on lets it be on; the press itself puts
/// the pending message out either way.
pub proof fn law_desk_display(
    d: &mut Desk,
    leds: &mut LedState,
    orders: WebOrders,
    enabled: bool,
    wifi: bool,
    r: DisplayPress,
)
    requires
        call_ensures(Desk::press_display, (d, leds, &orders, enabled, wifi), r),
    ensures
        r.pressed <==> orders.display >= 0,
        r.forced_off is Some <==> r.pressed && enabled,
        r.forced_off is Some && orders.display == 0 ==> r.forced_off->0,
        r.forced_off is Some && orders.display == 1 ==> !r.forced_off->0,
        r.pressed ==> !final(leds).red,
        !r.pressed ==> *final(leds) == *old(leds) && *final(d) == *old(d),
        final(leds).green == old(leds).green && final(leds).blue == old(leds).blue,
{
}

/// The pot button turns the knob's use over; the page sets it.
pub proof fn law_desk_pot(
    d: &mut Desk,
    ui: &mut UiState,
    leds: &mut LedState,
    high: bool,
    orders: WebOrders,
    in_use: bool,
    enabled: bool,
    now: u64,
    r: PotPress,
)
    requires
        old(d).valid_at(now),
        call_ensures(Desk::press_pot, (d, ui, leds, high, &orders, in_use, enabled, now), r),
    ensures
        r.pressed <==> (old(d).pot.was_high && !high && now - old(d).pot.last_press_ms >= 50)
            || orders.pot >= 0,
        r.enabled is Some <==> r.pressed && enabled,
        r.enabled is Some && orders.pot < 0 ==> r.enabled->0 == !in_use,
        r.enabled is Some && orders.pot == 0 ==> !r.enabled->0,
        r.enabled is Some && orders.pot == 1 ==> r.enabled->0,
        r.enabled is Some ==> final(ui).pot_enabled == r.enabled->0,
        r.enabled is None ==> *final(ui) == *old(ui),
        r.pressed ==> !final(leds).red,
        !r.pressed ==> *final(leds) == *old(leds),
        r.report <==> orders.pot >= 0,
{
}

/// The same switch by itself.
pub proof fn law_pot_switch(in_use: bool, page: i8, r: bool)
    requires
        call_ensures(panel::press_pot, (in_use, page), r),
    ensures
        page < 0 ==> r == !in_use,
        page == 0 ==> !r,
        page == 1 ==> r,
{
}

/// The media button, there or on the page, asks the owner of the microphone to play or pause. It counts
/// once its pin has been low for 50 ms, and not again before it was high as long.
pub proof fn law_desk_media(
    d: &mut Desk,
    leds: &mut LedState,
    ready: &mut bool,
    high: bool,
    orders: WebOrders,
    now: u64,
    r: MediaPress,
)
    requires
        old(d).valid_at(now),
        call_ensures(Desk::press_media, (d, leds, ready, high, &orders, now), r),
    ensures
        orders.media ==> r.pressed && r.report,
        r.pressed && !orders.media ==> !high && old(d).media.stable && !old(d).media.raw_last && now
            - old(d).media.raw_since_ms >= 50,
        !high && old(d).media.stable && !old(d).media.raw_last && now - old(d).media.raw_since_ms
            >= 50 ==> r.pressed && !final(d).media.stable,
        r.pressed ==> *final(ready) && !final(leds).red,
        !r.pressed ==> *final(ready) == *old(ready) && *final(leds) == *old(leds),
        r.report <==> orders.media,
        high && !old(d).media.stable && old(d).media.raw_last && now - old(d).media.raw_since_ms
            >= 50 ==> final(d).media.stable,
        final(d).media.raw_last == high,
        high != old(d).media.raw_last ==> final(d).media.raw_since_ms == now && final(d).media.stable
            == old(d).media.stable,
{
}

// ── The loop ──────────────────────────────────────────────────────────────────
/// What a turn goes by: the animation of the lamp lasts until its end, and no longer.
pub proof fn law_look(ui: UiState, now: u64, r: Seen, anim: bool)
    requires
        call_ensures(desk::look, (&ui, now), r),
        call_ensures(panel::lamp_anim_active, (&ui, now), anim),
    ensures
        r.lamp_anim == anim,
        anim <==> now < ui.lamp_anim_until,
        r.fetching == ui.fetching,
        r.wifi == ui.wifi_connected,
{
}

/// The end of the lamp's animation draws everything again, once, and half an hour after the display
/// was set up it is set up again.
pub proof fn law_redraws(
    a: &mut Desk,
    b: &mut Desk,
    seen: Seen,
    now: u64,
    settled: Redraw,
    anew: Redraw,
)
    requires
        old(b).valid_at(now),
        call_ensures(Desk::settle, (a, seen), settled),
        call_ensures(Desk::reinit, (b, now), anew),
    ensures
        settled == Redraw::All <==> old(a).prev_lamp_anim && !seen.lamp_anim && !old(a).chart_active,
        settled == Redraw::All || settled == Redraw::Nothing,
        final(a).prev_lamp_anim == seen.lamp_anim,
        anew == Redraw::Anew <==> old(b).lcd_reinit.last_ms > 0 && now - old(b).lcd_reinit.last_ms
            >= 1_800_000,
        anew == Redraw::Anew || anew == Redraw::Nothing,
        anew == Redraw::Anew ==> final(b).lcd_reinit.last_ms == now,
{
}

/// Every 200 ms the animations that run move on by one frame, those that do not stand still; while the
/// chart is shown none does.
pub proof fn law_animation(d: &mut Desk, ui: &mut UiState, seen: Seen, now: u64, r: Redraw)
    requires
        old(d).valid_at(now),
        call_ensures(Desk::animate, (d, ui, seen, now), r),
    ensures
        ({
            let lamp = seen.lamp_anim && !old(d).chart_active && now - old(d).lamp_loading.last_ms
                >= 200;
            let fetch = seen.fetching && !old(d).chart_active && now - old(d).loading.last_ms >= 200;
            &&& lamp && old(ui).lamp_loading_frame < u16::MAX ==> final(ui).lamp_loading_frame == old(ui).lamp_loading_frame + 1
            &&& !lamp ==> final(ui).lamp_loading_frame == old(ui).lamp_loading_frame
            &&& fetch && old(ui).loading_frame < u16::MAX ==> final(ui).loading_frame == old(ui).loading_frame + 1
            &&& !fetch ==> final(ui).loading_frame == old(ui).loading_frame
            &&& r == Redraw::Header <==> lamp || fetch
            &&& r == Redraw::Nothing <==> !lamp && !fetch
            &&& lamp ==> final(d).lamp_loading.last_ms == now
            &&& fetch ==> final(d).loading.last_ms == now
            &&& final(ui).data == old(ui).data && final(ui).lamp == old(ui).lamp
        }),
{
}

/// The clock is drawn every second, and shows the volume and the knob's state of that moment; the next
/// screen comes every thirty seconds, unless the page has stopped that. The chart holds both back.
pub proof fn law_clock_and_rotation(
    a: &mut Desk,
    b: &mut Desk,
    a_ui: &mut UiState,
    b_ui: &mut UiState,
    pot: bool,
    volume: u8,
    auto: bool,
    now: u64,
    tick: Redraw,
    turn: Redraw,
    next: Screen,
)
    requires
        old(a).valid_at(now),
        old(b).valid_at(now),
        call_ensures(Desk::tick, (a, a_ui, pot, volume, now), tick),
        call_ensures(Desk::rotate, (b, b_ui, auto, now), turn),
        call_ensures(Screen::next, (old(b_ui).screen,), next),
    ensures
        tick == Redraw::Header <==> !old(a).chart_active && now - old(a).clock.last_ms >= 1_000,
        tick == Redraw::Header ==> final(a_ui).volume_pct == volume && final(a_ui).pot_enabled == pot
            && final(a).clock.last_ms == now,
        tick != Redraw::Header ==> *final(a_ui) == *old(a_ui) && tick == Redraw::Nothing,
        turn == Redraw::All <==> !old(b).chart_active && auto && now - old(b).auto_screen.last_ms
            >= 30_000,
        turn == Redraw::All ==> final(b_ui).screen == next && final(b).auto_screen.last_ms == now,
        turn != Redraw::All ==> *final(b_ui) == *old(b_ui) && turn == Redraw::Nothing,
        final(b_ui).data == old(b_ui).data,
{
    config::law_number_names_screen(final(b_ui).screen, next);
    config::law_number_names_screen(final(b_ui).screen, old(b_ui).screen);
}

/// The chart is left when its time is over, and everything is drawn then.
pub proof fn law_chart_is_left(d: &mut Desk, now: u64, r: Redraw)
    requires
        call_ensures(Desk::leave_chart, (d, now), r),
    ensures
        r == Redraw::All <==> old(d).chart_active && now >= old(d).chart_until,
        r == Redraw::All ==> !final(d).chart_active,
        r != Redraw::All ==> *final(d) == *old(d) && r == Redraw::Nothing,
{
}

/// The knob is read every 10 ms; the connection and the refresher are looked at every 15 seconds.
pub proof fn law_looks(
    a: &mut Desk,
    b: &mut Desk,
    c: &mut Desk,
    now: u64,
    knob: bool,
    wifi: bool,
    refresher: bool,
)
    requires
        old(a).valid_at(now),
        old(b).valid_at(now),
        old(c).valid_at(now),
        call_ensures(Desk::read_volume, (a, now), knob),
        call_ensures(Desk::check_wifi, (b, now), wifi),
        call_ensures(Desk::check_refresher, (c, now), refresher),
    ensures
        knob <==> now - old(a).volume_read.last_ms >= 10,
        wifi <==> now - old(b).wifi_check.last_ms >= 15_000,
        refresher <==> now - old(c).refresher_check.last_ms >= 15_000,
        knob ==> final(a).volume_read.last_ms == now,
        wifi ==> final(b).wifi_check.last_ms == now,
        refresher ==> final(c).refresher_check.last_ms == now,
{
}

// ── The connection ────────────────────────────────────────────────────────────
/// While the connection is up nothing is done. Once it is down every look tries to connect; after a
/// minute the link is dropped first, and the minute starts over.
pub proof fn law_connection_is_kept(w: &mut WifiWatch, now: u64, up: bool, r: WifiAction)
    requires
        0 < now,
        old(w).down_since_ms <= now,
        call_ensures(WifiWatch::check, (w, now, up), r),
    ensures
        up ==> r == WifiAction::Nothing && final(w).down_since_ms == 0,
        !up && old(w).down_since_ms == 0 ==> r == WifiAction::Connect && final(w).down_since_ms
            == now,
        !up && old(w).down_since_ms > 0 && now - old(w).down_since_ms < 60_000 ==> r
            == WifiAction::Connect && final(w).down_since_ms == old(w).down_since_ms,
        !up && old(w).down_since_ms > 0 && now - old(w).down_since_ms >= 60_000 ==> r
            == WifiAction::Reconnect && final(w).down_since_ms == now,
{
}

/// What the look at the connection shows and reports: what it found, and how it was before.
pub proof fn law_connection_is_seen(
    d: &mut Desk,
    ui: &mut UiState,
    leds: &mut LedState,
    seen: Seen,
    up: bool,
    screen_on: bool,
    now: u64,
    r: WifiLook,
    event: Option<(&'static str, &'static str, &'static str)>,
)
    requires
        call_ensures(Desk::see_wifi, (d, ui, leds, seen, up, screen_on, now), r),
        call_ensures(panel::wifi_event, (r.was_up, r.up), event),
    ensures
        final(ui).wifi_connected == up,
        up ==> r.action == WifiAction::Nothing,
        !up ==> r.action != WifiAction::Nothing,
        *final(leds) == *old(leds),
        final(ui).screen == old(ui).screen,
        event is Some <==> seen.wifi != up,
        event matches Some(e) ==> (up ==> e.0@ == "wifi_recovered"@ && e.1@ == "info"@) && (!up
            ==> e.0@ == "wifi_lost"@ && e.1@ == "warning"@),
{
}

/// Where the refresher has shown no life for two minutes the device restarts, and says for how long.
pub proof fn law_stuck(ms: Option<u32>, r: Option<String>)
    requires
        call_ensures(panel::stuck_message, (ms,), r),
    ensures
        r is Some <==> ms is Some && ms->0 >= 120_000,
        r is Some ==> r->0@ == "chart-cache-refresher heartbeat stale for "@ + text::decimal(
            ms->0 as nat,
        ) + "ms, forcing reboot"@,
{
}

/// The lowest free stack is kept, and each new low is told once.
pub proof fn law_lowest_stack(free: u32, lowest: &mut u32, r: bool)
    requires
        call_ensures(panel::check_stack_watermark, (free, lowest), r),
    ensures
        r <==> free < *old(lowest),
        *final(lowest) <= free && *final(lowest) <= *old(lowest),
        *final(lowest) == free || *final(lowest) == *old(lowest),
{
}

// ── LEDs and settings ─────────────────────────────────────────────────────────
/// The outputs follow the LEDs and the display's switch, and only what differs is written: what was
/// last written and what is written now come to what is wanted.
pub proof fn law_outputs(o: &mut Outputs, leds: LedState, off: bool, r: OutputWrites)
    requires
        call_ensures(Outputs::update, (o, &leds, off), r),
    ensures
        final(o).green == leds.green && final(o).red == leds.red && final(o).yellow == leds.blue
            && final(o).backlight == !off,
        r.green is Some <==> old(o).green != leds.green,
        r.red is Some <==> old(o).red != leds.red,
        r.yellow is Some <==> old(o).yellow != leds.blue,
        r.backlight is Some <==> old(o).backlight == off,
        r.green is Some ==> r.green->0 == leds.green,
        r.red is Some ==> r.red->0 == leds.red,
        r.yellow is Some ==> r.yellow->0 == leds.blue,
        r.backlight is Some ==> r.backlight->0 == !off,
{
}

/// Each LED is set by itself; neither the screen nor the connection touches any.
pub proof fn law_leds(
    g: &mut LedState,
    r: &mut LedState,
    y: &mut LedState,
    n: &mut LedState,
    m: &mut LedState,
    on: bool,
)
    requires
        call_ensures(LedState::set_green, (g, on), ()),
        call_ensures(LedState::set_red, (r, on), ()),
        call_ensures(LedState::set_yellow, (y, on), ()),
        call_ensures(LedState::on_wifi_connect, (n, on), ()),
        call_ensures(LedState::on_wifi_disconnect, (m, on), ()),
    ensures
        final(g).green == on && final(g).red == old(g).red && final(g).blue == old(g).blue,
        final(r).red == on && final(r).green == old(r).green && final(r).blue == old(r).blue,
        final(y).blue == on && final(y).red == old(y).red && final(y).green == old(y).green,
        *final(n) == *old(n) && *final(m) == *old(m),
{
}

/// A setting that was saved is the one that is loaded, whatever the others are; before the first time
/// the display is not forced off, the knob is in use, and no screen is stored.
pub proof fn law_settings(
    a: &mut Persist,
    b: &mut Persist,
    c: &mut Persist,
    v: bool,
    s: Screen,
    stored: Persist,
    forced: bool,
    pot: bool,
    screen: Option<Screen>,
    other: (bool, bool),
)
    requires
        call_ensures(Persist::save_screen_forced, (a, v), ()),
        call_ensures(Persist::load_screen_forced, (&*final(a),), forced),
        call_ensures(Persist::save_pot_enabled, (b, v), ()),
        call_ensures(Persist::load_pot_enabled, (&*final(b),), pot),
        call_ensures(Persist::save_screen, (c, s), ()),
        stored == *final(c),
        call_ensures(Persist::load_screen, (&stored,), screen),
        call_ensures(Persist::load_pot_enabled, (&*final(a),), other.0),
        call_ensures(Persist::load_screen_forced, (&*final(b),), other.1),
    ensures
        forced == v,
        pot == v,
        screen == Some(s),
        old(a).pot_on is None ==> other.0,
        old(b).forced_off is None ==> !other.1,
        final(a).pot_on == old(a).pot_on && final(a).screen == old(a).screen,
        final(b).forced_off == old(b).forced_off && final(b).screen == old(b).screen,
        final(c).forced_off == old(c).forced_off && final(c).pot_on == old(c).pot_on,
{
    if screen is Some {
        config::law_number_names_screen(screen->0, s);
    } else {
        assert(stored.names(s));
    }
}

/// A press of a lamp button starts the lamp's animation anew, and the light button that of a fetch
/// too; it counts from then on, and leaves the other timers and buttons alone.
pub proof fn law_lamp_presses_restart_animation(
    light: &mut Desk,
    warm: &mut Desk,
    bright: &mut Desk,
    light_ui: &mut UiState,
    warm_ui: &mut UiState,
    bright_ui: &mut UiState,
    a: &mut LampHandle,
    b: &mut LampHandle,
    c: &mut LampHandle,
    leds: &mut LedState,
    warm_leds: &mut LedState,
    bright_leds: &mut LedState,
    high: bool,
    now: u64,
    now_ms: u32,
    pressed: (bool, bool, bool),
)
    requires
        now + 4_000 <= u64::MAX,
        old(light).valid_at(now),
        old(warm).valid_at(now),
        old(bright).valid_at(now),
        call_ensures(Desk::press_light, (light, light_ui, a, leds, high, now, now_ms), pressed.0),
        call_ensures(Desk::press_warm, (warm, warm_ui, b, warm_leds, high, now, now_ms), pressed.1),
        call_ensures(
            Desk::press_bright,
            (bright, bright_ui, c, bright_leds, high, now, now_ms),
            pressed.2,
        ),
    ensures
        pressed.0 ==> final(light).lamp_loading.last_ms == now && final(light).loading.last_ms == now
            && final(light).light.last_press_ms == now,
        pressed.1 ==> final(warm).lamp_loading.last_ms == now && final(warm).warm.last_press_ms == now,
        pressed.2 ==> final(bright).lamp_loading.last_ms == now && final(bright).bright.last_press_ms
            == now,
        !pressed.0 ==> final(light).lamp_loading == old(light).lamp_loading && final(light).loading
            == old(light).loading && final(light).light.last_press_ms
            == old(light).light.last_press_ms,
        final(light).light.was_high == high,
        final(warm).warm.was_high == high,
        final(bright).bright.was_high == high,
        final(warm).loading == old(warm).loading,
        final(bright).loading == old(bright).loading,
        final(light).clock == old(light).clock && final(light).auto_screen == old(light).auto_screen
            && final(light).manual_fetch == old(light).manual_fetch,
        final(light).chart_active == old(light).chart_active,
        final(light).warm == old(light).warm && final(light).bright == old(light).bright
            && final(light).screen == old(light).screen,
{
}

} // verus!
