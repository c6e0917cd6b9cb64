//! Settings that outlive a restart.

use vstd::prelude::*;

use crate::config::Screen;

verus! {

/// Name of the settings' namespace in flash.
pub const NS: &'static str = "state";

/// The stored settings, key by key; `None` where a key was never written or could not be read.
#[derive(Clone, Copy, PartialEq, Eq, Debug)]
pub struct Persist {
    /// Key `forced_off`.
    pub forced_off: Option<u8>,
    /// Key `pot_on`.
    pub pot_on: Option<u8>,
    /// Key `screen`.
    pub screen: Option<u8>,
}

pub open spec fn flag(v: bool) -> u8 {
    if v {
        1
    } else {
        0
    }
}

impl Persist {
    /// Settings as they were read.
    pub fn new(forced_off: Option<u8>, pot_on: Option<u8>, screen: Option<u8>) -> (r: Self)
        ensures
            r == (Persist { forced_off, pot_on, screen }),
    {
        Persist { forced_off, pot_on, screen }
    }

    pub open spec fn screen_forced(self) -> bool {
        self.forced_off is Some && self.forced_off->0 != 0
    }

    /// Off unless it was stored otherwise.
    pub fn load_screen_forced(&self) -> (r: bool)
        ensures
            r == self.screen_forced(),
    {
        match self.forced_off {
            Some(v) => v != 0,
            None => false,
        }
    }

    pub fn save_screen_forced(&mut self, v: bool)
        ensures
            *final(self) == (Persist { forced_off: Some(flag(v)), ..*old(self) }),
    {
        self.forced_off = Some(
            if v {
                1
            } else {
                0
            },
        );
    }

    pub open spec fn pot_enabled(self) -> bool {
        self.pot_on is Some ==> self.pot_on->0 != 0
    }

    /// On unless it was stored otherwise.
    pub fn load_pot_enabled(&self) -> (r: bool)
        ensures
            r == self.pot_enabled(),
    {
        match self.pot_on {
            Some(v) => v != 0,
            None => true,
        }
    }

    pub fn save_pot_enabled(&mut self, v: bool)
        ensures
            *final(self) == (Persist { pot_on: Some(flag(v)), ..*old(self) }),
    {
        self.pot_on = Some(
            if v {
                1
            } else {
                0
            },
        );
    }

    /// The stored number names this screen.
    pub open spec fn names(self, s: Screen) -> bool {
        self.screen is Some && self.screen->0 == s.number()
    }

    /// The stored screen, if the number names one.
    pub fn load_screen(&self) -> (r: Option<Screen>)
        ensures
            r matches Some(s) ==> self.names(s),
            r is None ==> forall|s: Screen| #![trigger self.names(s)] !self.names(s),
    {
        match self.screen {
            Some(v) => Screen::from_u8(v),
            None => None,
        }
    }

    pub fn save_screen(&mut self, s: Screen)
        ensures
            *final(self) == (Persist { screen: Some(s.number() as u8), ..*old(self) }),
    {
        self.screen = Some(s.to_u8());
    }
}

/// What is loaded is what was saved last, and saving one setting leaves the others alone.
pub proof fn law_load_returns_saved(p: Persist, v: bool, s: Screen, t: Screen)
    ensures
        (Persist { forced_off: Some(flag(v)), ..p }).screen_forced() == v,
        (Persist { forced_off: Some(flag(v)), ..p }).pot_enabled() == p.pot_enabled(),
        (Persist { pot_on: Some(flag(v)), ..p }).pot_enabled() == v,
        (Persist { pot_on: Some(flag(v)), ..p }).screen_forced() == p.screen_forced(),
        (Persist { screen: Some(s.number() as u8), ..p }).names(t) <==> s == t,
        (Persist { screen: Some(s.number() as u8), ..p }).pot_enabled() == p.pot_enabled(),
{
}

} // verus!
