use fin_esp::api::MarketData;
use fin_esp::config::Screen;
use fin_esp::desk::{look, Desk, Redraw, Seen};
use fin_esp::double::Double;
use fin_esp::history::PriceHistory;
use fin_esp::led::LedState;
use fin_esp::panel::{
    begin_fetch, boot_message, boot_reason, check_stack_watermark, end_fetch, next_cycle, origin,
    record_history, start_ui, stuck_message, take_orders, take_weather, wait_step, web_volume,
    wifi_event, wifi_start_gives_up, Button, Outputs, ResetKind, StableButton, Timer,
    WeatherLimiter, WebOrders, WifiAction, WifiWait, WifiWatch,
};
use fin_esp::screen::UiState;
use fin_esp::tuya::{LampHandle, LampState};
use fin_esp::web::WebTriggers;

fn d(v: f64) -> Double {
    Double { bits: v.to_bits() }
}

fn quiet() -> WebOrders {
    WebOrders { screen: false, screen_select: -1, display: -1, pot: -1, media: false, volume: -1 }
}

fn seen() -> Seen {
    Seen { lamp_anim: false, fetching: false, wifi: true }
}

fn lamp() -> LampHandle {
    LampHandle::new([0; 4], [0; 16])
}

#[test]
fn starts_are_told_apart() {
    assert_eq!(boot_reason(ResetKind::PowerOn), ("cold_start", "info", 1000));
    assert_eq!(boot_reason(ResetKind::Brownout), ("brownout", "critical", 3000));
    assert_eq!(boot_reason(ResetKind::Panic), ("panic", "critical", 0));
    assert_eq!(boot_reason(ResetKind::IntWatchdog).0, "int_watchdog");
    assert_eq!(boot_reason(ResetKind::TaskWatchdog).0, "task_watchdog");
    assert_eq!(boot_reason(ResetKind::OtherWatchdog).1, "error");
    assert_eq!(boot_reason(ResetKind::Software), ("software_reset", "info", 0));
    assert_eq!(boot_message(ResetKind::Unknown), "device booted, reset reason: unknown");
    assert!(!wifi_start_gives_up(4));
    assert!(wifi_start_gives_up(5));
}

#[test]
fn the_first_connection_is_waited_for() {
    let mut w = WifiWait::new(1_000);
    let s = w.step(5_999, false, false);
    assert!(!s.done && !s.connect && !s.reset);
    assert!(w.step(6_000, false, false).connect);
    assert!(!w.step(6_001, false, false).connect);
    // Associated, but without an address: no retry, and a reset after thirty seconds.
    assert!(!w.step(20_000, true, false).connect);
    let s = w.step(31_000, true, false);
    assert!(s.reset && !s.done);
    assert_eq!(w, WifiWait::new(31_000));
    assert!(!w.step(40_000, false, true).done);
    assert!(w.step(40_001, true, true).done);
}

#[test]
fn the_screen_starts_with_what_was_kept() {
    let mut ui = UiState::default();
    let mut m = MarketData::default();
    m.ok_oil = true;
    start_ui(&mut ui, false, false, Some(Screen::Oil), Some(m));
    assert!(ui.wifi_connected && !ui.fetching && !ui.pot_enabled && ui.data.ok_oil);
    assert_eq!(ui.screen, Screen::Oil);
    start_ui(&mut ui, true, true, None, None);
    assert!(ui.fetching && ui.pot_enabled && ui.data.ok_oil);
    assert_eq!(ui.screen, Screen::Oil);
}

#[test]
fn timers_keep_their_distance() {
    let mut t = Timer::new(100);
    assert!(!t.fire(1_099, 1_000, true));
    assert!(!t.fire(1_100, 1_000, false));
    assert!(t.fire(1_100, 1_000, true));
    assert!(!t.fire(2_099, 1_000, true));
    assert!(t.fire(9_000, 1_000, true));
}

#[test]
fn weather_is_fetched_every_ten_minutes() {
    let mut w = WeatherLimiter { last_fetch_ms: 0 };
    assert!(!w.serve(5_000, false));
    assert!(w.serve(5_000, true));
    assert!(!w.serve(604_999, true));
    assert!(w.serve(605_000, true));
    let mut ui = UiState::default();
    let mut m = MarketData::default();
    m.weather_temp = Some(d(20.0));
    assert!(!take_weather(&mut ui, &m));
    assert_eq!(ui.data.weather_temp, None);
    m.ok_weather = true;
    assert!(take_weather(&mut ui, &m));
    assert_eq!(ui.data.weather_temp, Some(d(20.0)));
}

#[test]
fn fetches_run_in_cycles() {
    let mut cycle = 0;
    let b: Vec<bool> = (0..9).map(|_| next_cycle(&mut cycle)).collect();
    assert_eq!(b, vec![true, false, false, false, true, false, false, false, true]);
    let mut last = u32::MAX;
    assert!(!next_cycle(&mut last));
    assert_eq!(last, 0);
    let mut ui = UiState::default();
    ui.loading_frame = 9;
    begin_fetch(&mut ui);
    assert!(ui.fetching && ui.loading_frame == 0);
    let mut m = MarketData::default();
    m.price_btc = d(5.0);
    m.ok_crypto = true;
    end_fetch(&mut ui, m, 1_234);
    assert!(!ui.fetching);
    assert_eq!(ui.fetch_completed_at, 1_234);
    let mut h = PriceHistory::new();
    let mut seen_at = 0;
    record_history(&mut h, &ui, &mut seen_at);
    record_history(&mut h, &ui, &mut seen_at);
    let mut out = [Double::zero(); 4];
    assert_eq!(h.get(Screen::Btc, &mut out), 1);
    assert_eq!(h.get(Screen::Oil, &mut out), 0);
    assert_eq!(wait_step(0, 1_000, false), Some(100));
    assert_eq!(wait_step(970, 1_000, false), Some(30));
    assert_eq!(wait_step(1_000, 1_000, false), None);
    assert_eq!(wait_step(0, 1_000, true), None);
}

#[test]
fn buttons_are_debounced() {
    let mut b = Button::new();
    assert_eq!(b.poll(1_000, true, false), (false, false));
    assert_eq!(b.poll(1_001, false, false), (true, true));
    assert_eq!(b.poll(1_010, true, false), (false, false));
    assert_eq!(b.poll(1_020, false, false), (false, false));
    assert_eq!(b.poll(2_000, false, false), (false, false));
    assert_eq!(b.poll(2_001, true, false), (false, false));
    assert_eq!(b.poll(2_002, false, false), (true, true));
    assert_eq!(b.poll(2_003, false, true), (true, false));
}

#[test]
fn the_media_button_must_hold() {
    let mut b = StableButton::new();
    assert!(!b.poll(1_000, false));
    assert!(!b.poll(1_049, true));
    assert!(!b.poll(1_050, false));
    assert!(!b.poll(1_099, false));
    assert!(b.poll(1_100, false));
    assert!(!b.poll(5_000, false));
    assert!(!b.poll(5_001, true));
    assert!(!b.poll(5_051, true));
    assert!(!b.poll(5_052, false));
    assert!(b.poll(5_102, false));
}

#[test]
fn orders_are_taken_once() {
    let mut t = WebTriggers::new();
    t.screen = true;
    t.volume = 50;
    t.weather = true;
    let o = take_orders(&mut t, true);
    assert!(o.screen && o.volume == 50);
    assert!(t.weather);
    assert_eq!(take_orders(&mut t, true), quiet());
    t.media = true;
    assert_eq!(take_orders(&mut t, false), quiet());
    assert!(t.media);
    assert_eq!(web_volume(-1), None);
    assert_eq!(web_volume(0), Some(0));
    assert_eq!(web_volume(50), Some(76));
    assert_eq!(web_volume(100), Some(153));
    assert_eq!(origin(true), "web-external");
    assert_eq!(origin(false), "web-internal");
}

#[test]
fn the_connection_is_watched() {
    let mut w = WifiWatch::new();
    assert_eq!(w.check(1_000, true), WifiAction::Nothing);
    assert_eq!(w.check(16_000, false), WifiAction::Connect);
    assert_eq!(w.check(75_999, false), WifiAction::Connect);
    assert_eq!(w.check(76_000, false), WifiAction::Reconnect);
    assert_eq!(w.check(91_000, false), WifiAction::Connect);
    assert_eq!(w.check(92_000, true), WifiAction::Nothing);
    assert_eq!(w.down_since_ms, 0);
    assert_eq!(wifi_event(true, true), None);
    assert_eq!(wifi_event(false, true), Some(("wifi_recovered", "info", "wifi reconnected")));
    assert_eq!(wifi_event(true, false), Some(("wifi_lost", "warning", "wifi disconnected")));
    assert_eq!(stuck_message(None), None);
    assert_eq!(stuck_message(Some(119_999)), None);
    assert_eq!(
        stuck_message(Some(120_000)).as_deref(),
        Some("chart-cache-refresher heartbeat stale for 120000ms, forcing reboot")
    );
    let mut low = u32::MAX;
    assert!(check_stack_watermark(500, &mut low));
    assert!(!check_stack_watermark(500, &mut low));
    assert!(check_stack_watermark(499, &mut low));
    assert_eq!(low, 499);
}

#[test]
fn outputs_are_written_when_they_change() {
    let mut o = Outputs::new();
    let mut leds = LedState::new();
    let w = o.update(&leds, false);
    assert_eq!((w.green, w.red, w.yellow, w.backlight), (None, Some(false), None, None));
    leds.set_green(true);
    leds.set_yellow(true);
    let w = o.update(&leds, true);
    assert_eq!(
        (w.green, w.red, w.yellow, w.backlight),
        (Some(true), None, Some(true), Some(false))
    );
    leds.set_red(true);
    o.update(&leds, true);
    o.flashed(&mut leds);
    assert!(!leds.red && !o.red);
    assert_eq!(o.update(&leds, true).red, None);
}

#[test]
fn a_fresh_loop_waits() {
    let mut k = Desk::new(1_000);
    let mut ui = UiState::default();
    assert_eq!(k.settle(seen()), Redraw::Nothing);
    assert_eq!(k.reinit(1_999), Redraw::Nothing);
    assert_eq!(k.tick(&mut ui, true, 7, 1_999), Redraw::Nothing);
    assert_eq!(k.rotate(&mut ui, true, 1_999), Redraw::Nothing);
    assert!(!k.check_wifi(1_999));
    assert!(!k.check_refresher(1_999));
    assert!(k.read_volume(1_999));
    assert!(!k.read_volume(2_008));
    assert!(k.read_volume(2_009));
    assert_eq!(k.tick(&mut ui, false, 7, 2_000), Redraw::Header);
    assert!(!ui.pot_enabled && ui.volume_pct == 7);
    assert_eq!(k.rotate(&mut ui, false, 31_000), Redraw::Nothing);
    assert_eq!(k.rotate(&mut ui, true, 31_000), Redraw::All);
    assert_eq!(ui.screen, Screen::Sol);
    assert!(k.check_wifi(31_000) && k.check_refresher(31_000));
    assert_eq!(k.reinit(1_801_000), Redraw::Anew);
    assert_eq!(k.reinit(1_801_001), Redraw::Nothing);
}

#[test]
fn animations_move_on() {
    let mut k = Desk::new(1_000);
    let mut ui = UiState::default();
    ui.lamp_anim_until = 5_000;
    ui.fetching = true;
    let s = look(&ui, 1_200);
    assert_eq!(s, Seen { lamp_anim: true, fetching: true, wifi: false });
    assert_eq!(k.settle(s), Redraw::Nothing);
    assert_eq!(k.animate(&mut ui, s, 1_199), Redraw::Nothing);
    assert_eq!(k.animate(&mut ui, s, 1_200), Redraw::Header);
    assert_eq!((ui.lamp_loading_frame, ui.loading_frame), (1, 1));
    let s = look(&ui, 5_000);
    assert!(!s.lamp_anim);
    assert_eq!(k.settle(s), Redraw::All);
    assert_eq!(k.settle(s), Redraw::Nothing);
    ui.loading_frame = u16::MAX;
    assert_eq!(k.animate(&mut ui, s, 6_000), Redraw::Header);
    assert_eq!((ui.lamp_loading_frame, ui.loading_frame), (1, 0));
}

#[test]
fn the_screen_button_turns_the_page() {
    let mut k = Desk::new(20_000);
    let mut ui = UiState::default();
    let mut leds = LedState::new();
    leds.set_red(true);
    let p = k.press_screen(&mut ui, &mut leds, true, &quiet(), true, 20_000);
    assert!(!p.pressed && leds.red);
    let p = k.press_screen(&mut ui, &mut leds, false, &quiet(), true, 20_001);
    assert!(p.pressed && p.fetch && !p.report && !leds.red);
    assert_eq!(p.remember, Some(Screen::Sol));
    assert_eq!(k.auto_screen.last_ms, 20_001);
    // The page's button is reported; prices are not fetched again at once.
    let mut o = quiet();
    o.screen = true;
    let p = k.press_screen(&mut ui, &mut leds, true, &o, true, 21_000);
    assert!(p.pressed && !p.fetch && p.report);
    assert_eq!(ui.screen, Screen::Gold);
    let p = k.press_screen(&mut ui, &mut leds, true, &o, true, 30_001);
    assert!(p.fetch);
    // A choice goes before the button, and one that does not exist changes nothing.
    o.screen_select = 0;
    let p = k.press_screen(&mut ui, &mut leds, true, &o, false, 50_000);
    assert!(p.pressed && !p.report && !p.fetch);
    assert_eq!(ui.screen, Screen::Btc);
    o.screen_select = 5;
    let p = k.press_screen(&mut ui, &mut leds, true, &o, false, 50_001);
    assert!(p.pressed && p.remember.is_none());
    assert_eq!(ui.screen, Screen::Btc);
}

#[test]
fn lamp_buttons_show_at_once() {
    let mut k = Desk::new(1_000);
    let (mut ui, mut h, mut leds) = (UiState::default(), lamp(), LedState::new());
    leds.set_red(true);
    assert!(k.press_light(&mut ui, &mut h, &mut leds, false, 1_500, 1_500));
    assert_eq!(h.target, 1);
    assert_eq!(ui.lamp, LampState { on: true, known: true });
    assert_eq!(ui.lamp_anim_until, 5_500);
    assert_eq!((k.lamp_loading.last_ms, k.loading.last_ms), (1_500, 1_500));
    assert!(!leds.red);
    assert!(k.press_warm(&mut ui, &mut h, &mut leds, false, 1_600, 1_600));
    assert_eq!((h.target, k.lamp_loading.last_ms, k.loading.last_ms), (2, 1_600, 1_500));
    assert!(k.press_bright(&mut ui, &mut h, &mut leds, false, 1_700, 1_700));
    assert_eq!(h.target, 3);
    assert!(!k.press_bright(&mut ui, &mut h, &mut leds, false, 9_000, 9_000));
    assert!(!k.press_light(&mut ui, &mut h, &mut leds, true, 9_000, 9_000));
}

#[test]
fn switches_decide_only_where_they_may() {
    let mut k = Desk::new(1_000);
    let (mut ui, mut leds) = (UiState::default(), LedState::new());
    let mut o = quiet();
    assert!(!k.press_display(&mut leds, &o, true, true).pressed);
    o.display = 0;
    leds.set_red(true);
    let p = k.press_display(&mut leds, &o, false, true);
    assert!(p.pressed && p.forced_off.is_none() && !leds.red);
    assert_eq!(k.press_display(&mut leds, &o, true, true).forced_off, Some(true));
    o.display = 1;
    assert_eq!(k.press_display(&mut leds, &o, true, true).forced_off, Some(false));
    o.pot = 0;
    let p = k.press_pot(&mut ui, &mut leds, true, &o, true, false, 1_000);
    assert!(p.pressed && p.report && p.enabled.is_none() && ui.pot_enabled);
    let p = k.press_pot(&mut ui, &mut leds, true, &o, true, true, 1_001);
    assert_eq!((p.enabled, ui.pot_enabled), (Some(false), false));
    let p = k.press_pot(&mut ui, &mut leds, false, &quiet(), false, true, 2_000);
    assert!(p.pressed && !p.report);
    assert_eq!((p.enabled, ui.pot_enabled), (Some(true), true));
}

#[test]
fn the_media_button_asks_for_play_pause() {
    let mut k = Desk::new(1_000);
    let mut leds = LedState::new();
    let mut ready = false;
    assert!(!k.press_media(&mut leds, &mut ready, false, &quiet(), 1_000).pressed);
    assert!(!ready);
    let p = k.press_media(&mut leds, &mut ready, false, &quiet(), 1_050);
    assert!(p.pressed && !p.report && ready);
    ready = false;
    let mut o = quiet();
    o.media = true;
    let p = k.press_media(&mut leds, &mut ready, false, &o, 1_051);
    assert!(p.pressed && p.report && ready);
}

#[test]
fn the_chart_is_left_alone() {
    let mut k = Desk::new(1_000);
    let (mut ui, mut leds) = (UiState::default(), LedState::new());
    k.chart_active = true;
    k.chart_until = 31_000;
    assert_eq!(k.tick(&mut ui, true, 0, 9_000), Redraw::Nothing);
    assert_eq!(k.rotate(&mut ui, true, 90_000), Redraw::Nothing);
    let s = Seen { lamp_anim: true, fetching: true, wifi: true };
    assert_eq!(k.animate(&mut ui, s, 9_000), Redraw::Nothing);
    assert_eq!(k.leave_chart(30_999), Redraw::Nothing);
    assert_eq!(k.leave_chart(31_000), Redraw::All);
    assert!(!k.chart_active);
    k.chart_active = true;
    k.press_screen(&mut ui, &mut leds, false, &quiet(), false, 31_001);
    assert!(!k.chart_active);
}

#[test]
fn a_look_at_the_connection_is_kept() {
    let mut k = Desk::new(1_000);
    let (mut ui, mut leds) = (UiState::default(), LedState::new());
    let l = k.see_wifi(&mut ui, &mut leds, seen(), false, true, 16_000);
    assert_eq!((l.action, l.was_up, l.up), (WifiAction::Connect, true, false));
    assert!(!ui.wifi_connected);
    let now = look(&ui, 0);
    let l = k.see_wifi(&mut ui, &mut leds, now, true, true, 31_000);
    assert_eq!((l.action, l.was_up, l.up), (WifiAction::Nothing, false, true));
    assert!(ui.wifi_connected);
}
