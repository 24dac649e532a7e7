//! Trigger output abstraction keeping it up.

use vstd::prelude::*;

verus! {

/// How many cycles the output stays up after being triggered.
pub const TRIGGER_UP_CYCLES: u32 = 10;

/// Abstraction of trigger output.
///
/// This is useful when a trigger is triggered by a control loop
/// and it should remain up for a moment, for other modules to get
/// a chance to detect it.
#[derive(Debug)]
pub struct Trigger {
    since: u32,
}

impl Trigger {
    /// Cycles since the output was last triggered.
    pub closed spec fn spec_since(&self) -> u32 {
        self.since
    }

    pub fn new() -> (trigger: Self)
        ensures
            trigger.spec_since() == 0,
    {
        Trigger { since: 0 }
    }

    pub fn trigger(&mut self)
        ensures
            final(self).spec_since() == 0,
    {
        self.since = 0;
    }

    pub fn tick(&mut self)
        ensures
            final(self).spec_since() == old(self).spec_since().saturating_add(1),
    {
        self.since = self.since.saturating_add(1);
    }

    pub fn triggered(&self) -> (up: bool)
        ensures
            up == (self.spec_since() < TRIGGER_UP_CYCLES),
    {
        self.since < TRIGGER_UP_CYCLES
    }
}

impl Default for Trigger {
    fn default() -> (trigger: Self)
        ensures
            trigger.spec_since() == 0,
    {
        Self::new()
    }
}

} // verus!
