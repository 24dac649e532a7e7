//! Manage button's state.

use crate::clock::{aged, triggered, tempo_at_trigger, ClockDetector};
use vstd::prelude::*;

verus! {

/// Use this to hold buttons state over time.
///
/// Detects clicking, holding, or tapped-in tempo.
#[derive(Debug)]
pub struct Button {
    pub pressed: bool,
    pub clicked: bool,
    pub held: u32,
    pub clock_detector: ClockDetector,
}

impl Button {
    pub open spec fn wf(&self) -> bool {
        self.clock_detector.wf()
    }

    pub fn new() -> (button: Self)
        ensures
            button.wf(),
            !button.pressed,
            !button.clicked,
            button.held == 0,
            button.clock_detector.ages() == seq![0u32, 0u32, 0u32],
            button.clock_detector.tempo().is_none(),
    {
        Button { pressed: false, clicked: false, held: 0, clock_detector: ClockDetector::new() }
    }

    /// Takes a reading of the button, one per cycle; each click is a trigger
    /// of the tempo detection.
    pub fn update(&mut self, down: bool)
        requires
            old(self).wf(),
        ensures
            final(self).wf(),
            final(self).pressed == down,
            final(self).clicked == (!old(self).pressed && down),
            final(self).held == (if down {
                old(self).held.saturating_add(1)
            } else {
                0
            }),
            final(self).clicked ==> final(self).clock_detector.ages() == triggered(
                aged(old(self).clock_detector.ages()),
            ) && final(self).clock_detector.tempo() == tempo_at_trigger(
                aged(old(self).clock_detector.ages()),
            ),
            !final(self).clicked ==> final(self).clock_detector.ages() == aged(
                old(self).clock_detector.ages(),
            ) && final(self).clock_detector.tempo() == old(self).clock_detector.tempo(),
    {
        let was_pressed = self.pressed;
        self.pressed = down;
        self.clicked = !was_pressed && self.pressed;
        self.held = if self.pressed {
            self.held.saturating_add(1)
        } else {
            0
        };

        self.clock_detector.tick();
        if self.clicked {
            self.clock_detector.trigger();
        }
    }

    pub fn detected_tempo(&self) -> (tempo: Option<u32>)
        ensures
            tempo == self.clock_detector.tempo(),
    {
        self.clock_detector.detected_tempo
    }
}

impl Default for Button {
    fn default() -> (button: Self)
        ensures
            button.wf(),
            !button.pressed,
            !button.clicked,
            button.held == 0,
            button.clock_detector.ages() == seq![0u32, 0u32, 0u32],
            button.clock_detector.tempo().is_none(),
    {
        Self::new()
    }
}

} // verus!
