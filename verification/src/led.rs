//! The three LEDs.

use vstd::prelude::*;

verus! {

/// State of the three physical LEDs. All writes from firmware and web go through this struct; the
/// main loop drives the hardware from it.
#[derive(Clone, Copy, PartialEq, Eq, Structural, Debug)]
pub struct LedState {
    pub green: bool,
    /// A cloud message is pending. Set from the web page, cleared by any button.
    pub red: bool,
    /// The third LED, yellow on the board: the microphone is on.
    pub blue: bool,
}

impl LedState {
    /// All LEDs off.
    pub fn new() -> (r: Self)
        ensures
            r == (LedState { green: false, red: false, blue: false }),
    {
        LedState { green: false, red: false, blue: false }
    }

    /// Nothing happens: the screen is unplugged, and red has another meaning.
    pub fn on_screen_on(&mut self, _wifi: bool)
        ensures
            *final(self) == *old(self),
    {
    }

    /// Nothing happens, as in `on_screen_on`.
    pub fn on_screen_off(&mut self)
        ensures
            *final(self) == *old(self),
    {
    }

    /// Nothing happens: a wifi blip must not set or clear the pending-message light.
    pub fn on_wifi_connect(&mut self, _screen_on: bool)
        ensures
            *final(self) == *old(self),
    {
    }

    /// Nothing happens, as in `on_wifi_connect`.
    pub fn on_wifi_disconnect(&mut self, _screen_on: bool)
        ensures
            *final(self) == *old(self),
    {
    }

    pub fn set_green(&mut self, on: bool)
        ensures
            *final(self) == (LedState { green: on, ..*old(self) }),
    {
        self.green = on;
    }

    pub fn set_red(&mut self, on: bool)
        ensures
            *final(self) == (LedState { red: on, ..*old(self) }),
    {
        self.red = on;
    }

    pub fn set_blue(&mut self, on: bool)
        ensures
            *final(self) == (LedState { blue: on, ..*old(self) }),
    {
        self.blue = on;
    }

    /// The third LED under the name of its colour.
    pub fn set_yellow(&mut self, on: bool)
        ensures
            *final(self) == (LedState { blue: on, ..*old(self) }),
    {
        self.blue = on;
    }
}

} // verus!
