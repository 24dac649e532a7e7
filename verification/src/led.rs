//! Led abstraction keeping it lit.

use vstd::prelude::*;

verus! {

/// How many cycles a led stays lit after being triggered.
pub const LED_LIT_CYCLES: u32 = 100;

/// Abstraction of leds
///
/// This is useful when a led blink is triggered by a control loop
/// and it should remain lit for a moment.
#[derive(Debug)]
pub struct Led {
    since: u32,
}

impl Led {
    /// Cycles since the led was last triggered.
    pub closed spec fn spec_since(&self) -> u32 {
        self.since
    }

    pub fn new() -> (led: Self)
        ensures
            led.spec_since() == 0,
    {
        Led { since: 0 }
    }

    pub fn trigger(&mut self)
        ensures
            final(self).spec_since() == 0,
    {
        self.since = 0;
    }

    pub fn tick(&mut self)
        ensures
            final(self).spec_since() == old(self).spec_since().saturating_add(1),
    {
        self.since = self.since.saturating_add(1);
    }

    pub fn triggered(&self) -> (lit: bool)
        ensures
            lit == (self.spec_since() < LED_LIT_CYCLES),
    {
        self.since < LED_LIT_CYCLES
    }
}

impl Default for Led {
    fn default() -> (led: Self)
        ensures
            led.spec_since() == 0,
    {
        Self::new()
    }
}

} // verus!
