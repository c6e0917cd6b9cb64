//! The main loop, one decision at a time: what the timers, the buttons and the page's orders make of
//! what is shown, of the lamp and of the LEDs, and what has to be drawn again.

use vstd::prelude::*;

use crate::config;
use crate::config::Screen;
use crate::led::LedState;
use crate::panel;
use crate::panel::{Button, Outputs, StableButton, Timer, WebOrders, WifiAction, WifiWatch};
use crate::screen::UiState;
use crate::tuya;
use crate::tuya::LampHandle;

verus! {

/// What has to be drawn.
#[derive(Clone, Copy, PartialEq, Eq, Structural, Debug)]
pub enum Redraw {
    Nothing,
    /// The first row.
    Header,
    /// Every row, whatever is known of what the display holds.
    All,
    /// Every row, after the display was set up and its glyphs were loaded anew.
    Anew,
}

/// What one turn of the loop goes by from its start to its end.
#[derive(Clone, Copy, PartialEq, Eq, Structural, Debug)]
pub struct Seen {
    pub lamp_anim: bool,
    pub fetching: bool,
    pub wifi: bool,
}

pub fn look(ui: &UiState, now: u64) -> (r: Seen)
    ensures
        r == (Seen {
            lamp_anim: panel::animating(*ui, now),
            fetching: ui.fetching,
            wifi: ui.wifi_connected,
        }),
{
    Seen {
        lamp_anim: panel::lamp_anim_active(ui, now),
        fetching: ui.fetching,
        wifi: ui.wifi_connected,
    }
}

/// Everything that the main loop remembers from turn to turn.
#[derive(Clone, Copy, PartialEq, Eq, Structural, Debug)]
pub struct Desk {
    pub clock: Timer,
    pub auto_screen: Timer,
    pub lcd_reinit: Timer,
    pub manual_fetch: Timer,
    pub loading: Timer,
    pub lamp_loading: Timer,
    pub wifi_check: Timer,
    pub refresher_check: Timer,
    pub volume_read: Timer,
    pub screen: Button,
    pub light: Button,
    pub warm: Button,
    pub bright: Button,
    pub pot: Button,
    pub media: StableButton,
    pub wifi: WifiWatch,
    pub outputs: Outputs,
    pub prev_lamp_anim: bool,
    pub chart_active: bool,
    pub chart_until: u64,
}

/// The screen button or the page's choice of a screen.
#[derive(Clone, Copy, PartialEq, Eq, Debug)]
pub struct ScreenPress {
    pub pressed: bool,
    /// The screen to remember.
    pub remember: Option<Screen>,
    /// The press came from the page's button and is reported.
    pub report: bool,
    /// Prices are to be fetched at once.
    pub fetch: bool,
}

/// The page's display switch.
#[derive(Clone, Copy, PartialEq, Eq, Debug)]
pub struct DisplayPress {
    pub pressed: bool,
    /// Whether the display is now forced off, where that was decided.
    pub forced_off: Option<bool>,
}

/// The pot button or the page's pot switch.
#[derive(Clone, Copy, PartialEq, Eq, Debug)]
pub struct PotPress {
    pub pressed: bool,
    pub report: bool,
    /// Whether the pot is now in use, where that was decided.
    pub enabled: Option<bool>,
}

/// The media button or the page's.
#[derive(Clone, Copy, PartialEq, Eq, Structural, Debug)]
pub struct MediaPress {
    pub pressed: bool,
    pub report: bool,
}

/// The look at the connection.
#[derive(Clone, Copy, PartialEq, Eq, Structural, Debug)]
pub struct WifiLook {
    pub action: WifiAction,
    pub was_up: bool,
    pub up: bool,
}

/// A button after it was looked at; `any` says whether it was pressed, there or on the page.
pub open spec fn polled(b: Button, now: u64, high: bool, any: bool) -> Button {
    Button {
        was_high: high,
        last_press_ms: if any {
            now
        } else {
            b.last_press_ms
        },
    }
}

/// A timer that is set back to now if `fired`.
pub open spec fn ticked(t: Timer, now: u64, fired: bool) -> Timer {
    if fired {
        Timer { last_ms: now }
    } else {
        t
    }
}

/// Outputs after the red flash of a press.
pub open spec fn flashed(o: Outputs, pressed: bool) -> Outputs {
    if pressed {
        Outputs { red: false, ..o }
    } else {
        o
    }
}

/// LEDs after the red flash of a press: the pending message is acknowledged.
pub open spec fn acknowledged(l: LedState, pressed: bool) -> LedState {
    if pressed {
        LedState { red: false, ..l }
    } else {
        l
    }
}

/// A desk when the loop starts: the intervals count from now, but for those that wait for nothing.
pub open spec fn fresh(now: u64) -> Desk {
    Desk {
        clock: Timer { last_ms: now },
        auto_screen: Timer { last_ms: now },
        lcd_reinit: Timer { last_ms: now },
        manual_fetch: Timer { last_ms: 0 },
        loading: Timer { last_ms: now },
        lamp_loading: Timer { last_ms: now },
        wifi_check: Timer { last_ms: now },
        refresher_check: Timer { last_ms: now },
        volume_read: Timer { last_ms: 0 },
        screen: Button { was_high: true, last_press_ms: 0 },
        light: Button { was_high: true, last_press_ms: 0 },
        warm: Button { was_high: true, last_press_ms: 0 },
        bright: Button { was_high: true, last_press_ms: 0 },
        pot: Button { was_high: true, last_press_ms: 0 },
        media: StableButton { raw_last: true, raw_since_ms: 0, stable: true },
        wifi: WifiWatch { down_since_ms: 0 },
        outputs: Outputs { green: false, red: true, yellow: false, backlight: true },
        prev_lamp_anim: false,
        chart_active: false,
        chart_until: 0,
    }
}

impl Desk {
    /// Nothing that is remembered lies in the future.
    pub open spec fn valid_at(self, now: u64) -> bool {
        &&& self.clock.last_ms <= now
        &&& self.auto_screen.last_ms <= now
        &&& self.lcd_reinit.last_ms <= now
        &&& self.manual_fetch.last_ms <= now
        &&& self.loading.last_ms <= now
        &&& self.lamp_loading.last_ms <= now
        &&& self.wifi_check.last_ms <= now
        &&& self.refresher_check.last_ms <= now
        &&& self.volume_read.last_ms <= now
        &&& self.screen.last_press_ms <= now
        &&& self.light.last_press_ms <= now
        &&& self.warm.last_press_ms <= now
        &&& self.bright.last_press_ms <= now
        &&& self.pot.last_press_ms <= now
        &&& self.media.raw_since_ms <= now
    }

    pub fn new(now: u64) -> (r: Self)
        ensures
            r == fresh(now),
            r.valid_at(now),
    {
        Desk {
            clock: Timer::new(now),
            auto_screen: Timer::new(now),
            lcd_reinit: Timer::new(now),
            manual_fetch: Timer::new(0),
            loading: Timer::new(now),
            lamp_loading: Timer::new(now),
            wifi_check: Timer::new(now),
            refresher_check: Timer::new(now),
            volume_read: Timer::new(0),
            screen: Button::new(),
            light: Button::new(),
            warm: Button::new(),
            bright: Button::new(),
            pot: Button::new(),
            media: StableButton::new(),
            wifi: WifiWatch::new(),
            outputs: Outputs::new(),
            prev_lamp_anim: false,
            chart_active: false,
            chart_until: 0,
        }
    }

    /// The end of the lamp's animation is drawn, unless the chart is shown.
    pub fn settle(&mut self, seen: Seen) -> (r: Redraw)
        ensures
            r == if old(self).prev_lamp_anim && !seen.lamp_anim && !old(self).chart_active {
                Redraw::All
            } else {
                Redraw::Nothing
            },
            *final(self) == (Desk { prev_lamp_anim: seen.lamp_anim, ..*old(self) }),
    {
        let ended: bool = self.prev_lamp_anim && !seen.lamp_anim && !self.chart_active;
        self.prev_lamp_anim = seen.lamp_anim;
        if ended {
            Redraw::All
        } else {
            Redraw::Nothing
        }
    }

    /// Every half hour the display is set up anew.
    pub fn reinit(&mut self, now: u64) -> (r: Redraw)
        requires
            old(self).valid_at(now),
        ensures
            ({
                let due = old(self).lcd_reinit.last_ms > 0 && old(self).lcd_reinit.due(
                    now,
                    panel::LCD_REINIT_MS,
                );
                &&& r == if due {
                    Redraw::Anew
                } else {
                    Redraw::Nothing
                }
                &&& *final(self) == (Desk {
                    lcd_reinit: ticked(old(self).lcd_reinit, now, due),
                    ..*old(self)
                })
            }),
            final(self).valid_at(now),
    {
        let started: bool = self.lcd_reinit.last_ms > 0;
        if self.lcd_reinit.fire(now, panel::LCD_REINIT_MS, started) {
            Redraw::Anew
        } else {
            Redraw::Nothing
        }
    }

    /// The animations move on, unless the chart is shown.
    pub fn animate(&mut self, ui: &mut UiState, seen: Seen, now: u64) -> (r: Redraw)
        requires
            old(self).valid_at(now),
        ensures
            ({
                let lamp = !old(self).chart_active && seen.lamp_anim && old(self).lamp_loading.due(
                    now,
                    config::LOADING_ANIM_MS,
                );
                let fetch = !old(self).chart_active && seen.fetching && old(self).loading.due(
                    now,
                    config::LOADING_ANIM_MS,
                );
                &&& r == if lamp || fetch {
                    Redraw::Header
                } else {
                    Redraw::Nothing
                }
                &&& *final(self) == (Desk {
                    lamp_loading: ticked(old(self).lamp_loading, now, lamp),
                    loading: ticked(old(self).loading, now, fetch),
                    ..*old(self)
                })
                &&& *final(ui) == panel::animated(*old(ui), lamp, fetch)
            }),
            final(self).valid_at(now),
    {
        let drawn: bool = !self.chart_active;
        let lamp: bool = self.lamp_loading.fire(
            now,
            config::LOADING_ANIM_MS,
            drawn && seen.lamp_anim,
        );
        let fetch: bool = self.loading.fire(now, config::LOADING_ANIM_MS, drawn && seen.fetching);
        if panel::animate(ui, lamp, fetch) {
            Redraw::Header
        } else {
            Redraw::Nothing
        }
    }

    /// Every second the clock is drawn, with the knob's state and the volume as they are then.
    pub fn tick(&mut self, ui: &mut UiState, pot_enabled: bool, volume: u8, now: u64) -> (r: Redraw)
        requires
            old(self).valid_at(now),
        ensures
            ({
                let due = !old(self).chart_active && old(self).clock.due(now, panel::CLOCK_MS);
                &&& r == if due {
                    Redraw::Header
                } else {
                    Redraw::Nothing
                }
                &&& *final(self) == (Desk { clock: ticked(old(self).clock, now, due), ..*old(self) })
                &&& *final(ui) == if due {
                    UiState { pot_enabled, volume_pct: volume, ..*old(ui) }
                } else {
                    *old(ui)
                }
            }),
            final(self).valid_at(now),
    {
        let drawn: bool = !self.chart_active;
        if self.clock.fire(now, panel::CLOCK_MS, drawn) {
            ui.pot_enabled = pot_enabled;
            ui.volume_pct = volume;
            Redraw::Header
        } else {
            Redraw::Nothing
        }
    }

    /// The next asset is shown every half minute, unless the chart is shown or the page has stopped
    /// it.
    pub fn rotate(&mut self, ui: &mut UiState, auto_rotate: bool, now: u64) -> (r: Redraw)
        requires
            old(self).valid_at(now),
        ensures
            ({
                let due = !old(self).chart_active && auto_rotate && old(self).auto_screen.due(
                    now,
                    config::AUTO_SCREEN_INTERVAL_MS,
                );
                &&& r == if due {
                    Redraw::All
                } else {
                    Redraw::Nothing
                }
                &&& *final(self) == (Desk {
                    auto_screen: ticked(old(self).auto_screen, now, due),
                    ..*old(self)
                })
                &&& final(ui).screen.number() == if due {
                    (old(ui).screen.number() + 1) % 5
                } else {
                    old(ui).screen.number()
                }
                &&& *final(ui) == (UiState { screen: final(ui).screen, ..*old(ui) })
            }),
            final(self).valid_at(now),
    {
        let wanted: bool = !self.chart_active && auto_rotate;
        if self.auto_screen.fire(now, config::AUTO_SCREEN_INTERVAL_MS, wanted) {
            ui.screen = ui.screen.next();
            Redraw::All
        } else {
            Redraw::Nothing
        }
    }

    /// The screen button, and the page's. A choice on the page goes before both. Where it was
    /// pressed everything is drawn again.
    pub fn press_screen(
        &mut self,
        ui: &mut UiState,
        leds: &mut LedState,
        high: bool,
        orders: &WebOrders,
        fetch_enabled: bool,
        now: u64,
    ) -> (r: ScreenPress)
        requires
            old(self).valid_at(now),
        ensures
            ({
                let select = orders.screen_select >= 0;
                let pressed = old(self).screen.pressed(now, high) || orders.screen || select;
                let fetch = pressed && fetch_enabled && old(self).manual_fetch.due(
                    now,
                    panel::MIN_MANUAL_FETCH_MS,
                );
                &&& r.pressed == pressed
                &&& r.report == (orders.screen && !select)
                &&& r.fetch == fetch
                &&& r.remember is Some <==> pressed && (select ==> orders.screen_select < 5)
                &&& r.remember is Some ==> r.remember->0.number() == if select {
                    orders.screen_select as int
                } else {
                    (old(ui).screen.number() + 1) % 5
                }
                &&& *final(ui) == (UiState {
                    screen: match r.remember {
                        Some(s) => s,
                        None => old(ui).screen,
                    },
                    ..*old(ui)
                })
                &&& *final(leds) == acknowledged(*old(leds), pressed)
                &&& *final(self) == (Desk {
                    screen: polled(old(self).screen, now, high, pressed),
                    auto_screen: ticked(old(self).auto_screen, now, pressed),
                    manual_fetch: ticked(old(self).manual_fetch, now, fetch),
                    outputs: flashed(old(self).outputs, pressed),
                    chart_active: old(self).chart_active && !pressed,
                    ..*old(self)
                })
            }),
            final(self).valid_at(now),
    {
        let select: bool = orders.screen_select >= 0;
        let pressed: bool = self.screen.poll(now, high, orders.screen || select).0;
        if !pressed {
            return ScreenPress { pressed: false, remember: None, report: false, fetch: false };
        }
        self.auto_screen.last_ms = now;
        self.outputs.flashed(leds);
        self.chart_active = false;
        let remember: Option<Screen> = panel::press_screen(
            ui,
            if select {
                orders.screen_select
            } else {
                -1
            },
        );
        let fetch: bool = self.manual_fetch.fire(now, panel::MIN_MANUAL_FETCH_MS, fetch_enabled);
        ScreenPress { pressed: true, remember, report: orders.screen && !select, fetch }
    }

    /// The light button. Where it was pressed everything is drawn again.
    pub fn press_light(
        &mut self,
        ui: &mut UiState,
        lamp: &mut LampHandle,
        leds: &mut LedState,
        high: bool,
        now: u64,
        now_ms: u32,
    ) -> (pressed: bool)
        requires
            old(self).valid_at(now),
            now + config::LAMP_TOGGLE_ANIM_MS <= u64::MAX,
        ensures
            pressed == old(self).light.pressed(now, high),
            ({
                let target = tuya::flipped(old(lamp).target, old(ui).lamp.on);
                &&& pressed ==> *final(lamp) == tuya::asked(*old(lamp), target, now_ms)
                &&& pressed ==> *final(ui) == panel::lamp_asked(*old(ui), target > 0, now)
            }),
            !pressed ==> *final(lamp) == *old(lamp) && *final(ui) == *old(ui),
            *final(leds) == acknowledged(*old(leds), pressed),
            *final(self) == (Desk {
                light: polled(old(self).light, now, high, pressed),
                lamp_loading: ticked(old(self).lamp_loading, now, pressed),
                loading: ticked(old(self).loading, now, pressed),
                outputs: flashed(old(self).outputs, pressed),
                ..*old(self)
            }),
            final(self).valid_at(now),
    {
        let pressed: bool = self.light.poll(now, high, false).0;
        if pressed {
            self.outputs.flashed(leds);
            panel::press_light(ui, lamp, now, now_ms);
            self.lamp_loading.last_ms = now;
            self.loading.last_ms = now;
        }
        pressed
    }

    /// The page's display switch, which decides only where `toggle_enabled`.
    pub fn press_display(
        &mut self,
        leds: &mut LedState,
        orders: &WebOrders,
        toggle_enabled: bool,
        wifi: bool,
    ) -> (r: DisplayPress)
        ensures
            r.pressed == (orders.display >= 0),
            r.forced_off == if r.pressed && toggle_enabled {
                Some(orders.display == 0)
            } else {
                None
            },
            *final(leds) == acknowledged(*old(leds), r.pressed),
            *final(self) == (Desk { outputs: flashed(old(self).outputs, r.pressed), ..*old(self) }),
    {
        let pressed: bool = orders.display >= 0;
        let mut forced_off: Option<bool> = None;
        if pressed {
            self.outputs.flashed(leds);
            if toggle_enabled {
                forced_off = Some(orders.display == 0);
                if orders.display == 0 {
                    leds.on_screen_off();
                } else {
                    leds.on_screen_on(wifi);
                }
            }
        }
        DisplayPress { pressed, forced_off }
    }

    /// The warm dim button. Where it was pressed everything is drawn again.
    pub fn press_warm(
        &mut self,
        ui: &mut UiState,
        lamp: &mut LampHandle,
        leds: &mut LedState,
        high: bool,
        now: u64,
        now_ms: u32,
    ) -> (pressed: bool)
        requires
            old(self).valid_at(now),
            now + config::LAMP_TOGGLE_ANIM_MS <= u64::MAX,
        ensures
            pressed == old(self).warm.pressed(now, high),
            pressed ==> *final(lamp) == tuya::asked(*old(lamp), 2, now_ms),
            pressed ==> *final(ui) == panel::lamp_asked(*old(ui), true, now),
            !pressed ==> *final(lamp) == *old(lamp) && *final(ui) == *old(ui),
            *final(leds) == acknowledged(*old(leds), pressed),
            *final(self) == (Desk {
                warm: polled(old(self).warm, now, high, pressed),
                lamp_loading: ticked(old(self).lamp_loading, now, pressed),
                outputs: flashed(old(self).outputs, pressed),
                ..*old(self)
            }),
            final(self).valid_at(now),
    {
        let pressed: bool = self.warm.poll(now, high, false).0;
        if pressed {
            self.outputs.flashed(leds);
            panel::press_warm(ui, lamp, now, now_ms);
            self.lamp_loading.last_ms = now;
        }
        pressed
    }

    /// The bright white button. Where it was pressed everything is drawn again.
    pub fn press_bright(
        &mut self,
        ui: &mut UiState,
        lamp: &mut LampHandle,
        leds: &mut LedState,
        high: bool,
        now: u64,
        now_ms: u32,
    ) -> (pressed: bool)
        requires
            old(self).valid_at(now),
            now + config::LAMP_TOGGLE_ANIM_MS <= u64::MAX,
        ensures
            pressed == old(self).bright.pressed(now, high),
            pressed ==> *final(lamp) == tuya::asked(*old(lamp), 3, now_ms),
            pressed ==> *final(ui) == panel::lamp_asked(*old(ui), true, now),
            !pressed ==> *final(lamp) == *old(lamp) && *final(ui) == *old(ui),
            *final(leds) == acknowledged(*old(leds), pressed),
            *final(self) == (Desk {
                bright: polled(old(self).bright, now, high, pressed),
                lamp_loading: ticked(old(self).lamp_loading, now, pressed),
                outputs: flashed(old(self).outputs, pressed),
                ..*old(self)
            }),
            final(self).valid_at(now),
    {
        let pressed: bool = self.bright.poll(now, high, false).0;
        if pressed {
            self.outputs.flashed(leds);
            panel::press_bright(ui, lamp, now, now_ms);
            self.lamp_loading.last_ms = now;
        }
        pressed
    }

    /// The pot button and the page's pot switch, which decide only where `toggle_enabled`. The
    /// header is drawn again where they did.
    pub fn press_pot(
        &mut self,
        ui: &mut UiState,
        leds: &mut LedState,
        high: bool,
        orders: &WebOrders,
        pot_enabled: bool,
        toggle_enabled: bool,
        now: u64,
    ) -> (r: PotPress)
        requires
            old(self).valid_at(now),
        ensures
            ({
                let web = orders.pot >= 0;
                let pressed = old(self).pot.pressed(now, high) || web;
                &&& r.pressed == pressed
                &&& r.report == web
                &&& r.enabled == if !pressed || !toggle_enabled {
                    None
                } else if web {
                    Some(orders.pot == 1)
                } else {
                    Some(!pot_enabled)
                }
                &&& *final(ui) == (UiState {
                    pot_enabled: match r.enabled {
                        Some(e) => e,
                        None => old(ui).pot_enabled,
                    },
                    ..*old(ui)
                })
                &&& *final(leds) == acknowledged(*old(leds), pressed)
                &&& *final(self) == (Desk {
                    pot: polled(old(self).pot, now, high, pressed),
                    outputs: flashed(old(self).outputs, pressed),
                    ..*old(self)
                })
            }),
            final(self).valid_at(now),
    {
        let web: bool = orders.pot >= 0;
        let pressed: bool = self.pot.poll(now, high, web).0;
        let mut enabled: Option<bool> = None;
        if pressed {
            self.outputs.flashed(leds);
            if toggle_enabled {
                let e: bool = panel::press_pot(pot_enabled, orders.pot);
                ui.pot_enabled = e;
                enabled = Some(e);
            }
        }
        PotPress { pressed, report: web, enabled }
    }

    /// The media button, which must hold its level, and the page's. Where it was pressed the owner of
    /// the microphone is to play or pause.
    pub fn press_media(
        &mut self,
        leds: &mut LedState,
        ready: &mut bool,
        high: bool,
        orders: &WebOrders,
        now: u64,
    ) -> (r: MediaPress)
        requires
            old(self).valid_at(now),
        ensures
            ({
                let seen = panel::looked(old(self).media, now, high);
                &&& r.pressed == (seen.1 || orders.media)
                &&& r.report == orders.media
                &&& *final(ready) == (*old(ready) || r.pressed)
                &&& *final(leds) == acknowledged(*old(leds), r.pressed)
                &&& *final(self) == (Desk {
                    media: seen.0,
                    outputs: flashed(old(self).outputs, r.pressed),
                    ..*old(self)
                })
            }),
            final(self).valid_at(now),
    {
        let own: bool = self.media.poll(now, high);
        let pressed: bool = own || orders.media;
        if pressed {
            self.outputs.flashed(leds);
            *ready = true;
        }
        MediaPress { pressed, report: orders.media }
    }

    /// The chart is left when its time is over.
    pub fn leave_chart(&mut self, now: u64) -> (r: Redraw)
        ensures
            ({
                let over = old(self).chart_active && now >= old(self).chart_until;
                &&& r == if over {
                    Redraw::All
                } else {
                    Redraw::Nothing
                }
                &&& *final(self) == (Desk {
                    chart_active: old(self).chart_active && !over,
                    ..*old(self)
                })
            }),
    {
        if self.chart_active && now >= self.chart_until {
            self.chart_active = false;
            Redraw::All
        } else {
            Redraw::Nothing
        }
    }

    /// Whether the knob is to be read.
    pub fn read_volume(&mut self, now: u64) -> (r: bool)
        requires
            old(self).valid_at(now),
        ensures
            r == old(self).volume_read.due(now, panel::VOLUME_READ_MS),
            *final(self) == (Desk { volume_read: ticked(old(self).volume_read, now, r), ..*old(self) }),
            final(self).valid_at(now),
    {
        self.volume_read.fire(now, panel::VOLUME_READ_MS, true)
    }

    /// Whether the connection is to be looked at.
    pub fn check_wifi(&mut self, now: u64) -> (r: bool)
        requires
            old(self).valid_at(now),
        ensures
            r == old(self).wifi_check.due(now, panel::WIFI_CHECK_MS),
            *final(self) == (Desk { wifi_check: ticked(old(self).wifi_check, now, r), ..*old(self) }),
            final(self).valid_at(now),
    {
        self.wifi_check.fire(now, panel::WIFI_CHECK_MS, true)
    }

    /// The connection was looked at.
    pub fn see_wifi(
        &mut self,
        ui: &mut UiState,
        leds: &mut LedState,
        seen: Seen,
        connected: bool,
        screen_on: bool,
        now: u64,
    ) -> (r: WifiLook)
        ensures
            (r.action, final(self).wifi) == panel::watched(old(self).wifi, now, connected),
            r.was_up == seen.wifi,
            r.up == connected,
            *final(self) == (Desk { wifi: final(self).wifi, ..*old(self) }),
            *final(ui) == (UiState { wifi_connected: connected, ..*old(ui) }),
            *final(leds) == *old(leds),
    {
        let action: WifiAction = self.wifi.check(now, connected);
        if connected != seen.wifi {
            if connected {
                leds.on_wifi_connect(screen_on);
            } else {
                leds.on_wifi_disconnect(screen_on);
            }
        }
        ui.wifi_connected = connected;
        WifiLook { action, was_up: seen.wifi, up: connected }
    }

    /// Whether the refresher is to be looked at.
    pub fn check_refresher(&mut self, now: u64) -> (r: bool)
        requires
            old(self).valid_at(now),
        ensures
            r == old(self).refresher_check.due(now, panel::WIFI_CHECK_MS),
            *final(self) == (Desk {
                refresher_check: ticked(old(self).refresher_check, now, r),
                ..*old(self)
            }),
            final(self).valid_at(now),
    {
        self.refresher_check.fire(now, panel::WIFI_CHECK_MS, true)
    }
}

/// What holds of a desk now holds of it later: time alone breaks nothing.
pub proof fn law_time_passes(d: Desk, now: u64, later: u64)
    requires
        d.valid_at(now),
        now <= later,
    ensures
        d.valid_at(later),
{
}

/// Within its first second the loop neither draws the clock nor changes the screen, sets up the
/// display or looks at the connection of its own accord.
pub proof fn law_fresh_desk_waits(start: u64, now: u64)
    requires
        start <= now,
        now - start < panel::CLOCK_MS,
    ensures
        !fresh(start).clock.due(now, panel::CLOCK_MS),
        !fresh(start).auto_screen.due(now, config::AUTO_SCREEN_INTERVAL_MS),
        !fresh(start).lcd_reinit.due(now, panel::LCD_REINIT_MS),
        !fresh(start).wifi_check.due(now, panel::WIFI_CHECK_MS),
        !fresh(start).refresher_check.due(now, panel::WIFI_CHECK_MS),
{
}

/// A button that bounces flips the screen at will, but asks for prices at most every ten seconds.
pub proof fn law_manual_fetches_keep_distance(t: Timer, now: u64, later: u64)
    requires
        t.due(now, panel::MIN_MANUAL_FETCH_MS),
        now <= later,
    ensures
        ticked(t, now, true).due(later, panel::MIN_MANUAL_FETCH_MS) <==> later - now
            >= panel::MIN_MANUAL_FETCH_MS,
{
}

/// Every press puts the pending-message light out and touches no other LED.
pub proof fn law_press_acknowledges(l: LedState, o: Outputs)
    ensures
        !acknowledged(l, true).red && !flashed(o, true).red,
        acknowledged(l, true).green == l.green && acknowledged(l, true).blue == l.blue,
        acknowledged(l, false) == l,
{
}

} // verus!
