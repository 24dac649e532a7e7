//! Detection of a steady interval between triggers.

use crate::clock::{
    aged, ages_ordered, forms_clock, tempo_at_trigger, toleration, MAX_TOLERATED_DISTANCE,
};
use vstd::prelude::*;

verus! {

/// What a detector shows: the ages of the last three triggers (the oldest
/// first), the tempo detected, and whether it was detected in this cycle.
pub type DetectionView = (Seq<u32>, Option<u32>, bool);

/// A detector that saw nothing.
pub open spec fn view_rest() -> DetectionView {
    (seq![0u32, 0u32, 0u32], None, false)
}

/// The detector one cycle later.
pub open spec fn view_ticked(v: DetectionView) -> DetectionView {
    (aged(v.0), v.1, false)
}

/// The detector after a trigger.
pub open spec fn view_triggered(v: DetectionView) -> DetectionView {
    (seq![v.0[1], v.0[2], 0u32], tempo_at_trigger(v.0), forms_clock(v.0))
}

/// A call made on a detector.
#[derive(Debug, Clone, Copy, PartialEq, Eq)]
pub enum DetectorCall {
    Tick,
    Trigger,
    Reset,
}

/// The detector after a sequence of calls, the first made first.
pub open spec fn view_after(v: DetectionView, calls: Seq<DetectorCall>) -> DetectionView
    decreases calls.len(),
{
    if calls.len() == 0 {
        v
    } else {
        let next = match calls[0] {
            DetectorCall::Tick => view_ticked(v),
            DetectorCall::Trigger => view_triggered(v),
            DetectorCall::Reset => view_rest(),
        };
        view_after(next, calls.drop_first())
    }
}

/// Detect a steady interval between triggers, such as a clock signal or a
/// tempo tapped in.
///
/// Call `tick` for every cycle and `trigger` on every event. Once the last
/// three intervals are equal within toleration, the interval is kept as the
/// tempo until the next trigger; `just_detected` marks the cycle in which it
/// was detected.
#[derive(Debug, Clone, Copy)]
pub struct IntervalDetector {
    pub trigger_age: [u32; 3],
    pub just_detected: bool,
    pub tempo: Option<u32>,
}

impl IntervalDetector {
    /// Ages of the last three triggers, the oldest first.
    pub open spec fn ages(&self) -> Seq<u32> {
        self.trigger_age@
    }

    pub open spec fn spec_tempo(&self) -> Option<u32> {
        self.tempo
    }

    pub open spec fn spec_just_detected(&self) -> bool {
        self.just_detected
    }

    pub open spec fn wf(&self) -> bool {
        ages_ordered(self.trigger_age@)
    }

    pub fn new() -> (detector: Self)
        ensures
            detector.wf(),
            detector.ages() == seq![0u32, 0u32, 0u32],
            detector.spec_tempo().is_none(),
            !detector.spec_just_detected(),
    {
        let detector = IntervalDetector { trigger_age: [0, 0, 0], just_detected: false, tempo: None };
        assert(detector.trigger_age@ =~= seq![0u32, 0u32, 0u32]);
        detector
    }

    pub fn trigger(&mut self)
        requires
            old(self).wf(),
        ensures
            final(self).wf(),
            final(self).spec_tempo() == (if forms_clock(old(self).ages()) {
                Some(old(self).ages()[2])
            } else {
                None
            }),
            final(self).spec_just_detected() == forms_clock(old(self).ages()),
            final(self).ages() == seq![old(self).ages()[1], old(self).ages()[2], 0u32],
    {
        let minus_1 = self.trigger_age[2];
        let minus_2 = self.trigger_age[1];
        let minus_3 = self.trigger_age[0];

        let distance = minus_1;
        let detected = if distance > 100 && distance <= MAX_TOLERATED_DISTANCE {
            let allowed_range = toleration(distance);
            allowed_range.contains(&(minus_2 - minus_1)) && allowed_range.contains(
                &(minus_3 - minus_2),
            )
        } else {
            false
        };
        if detected {
            self.tempo = Some(distance);
        } else {
            self.tempo = None;
        }
        self.just_detected = detected;

        self.trigger_age = [minus_2, minus_1, 0];
        assert(self.trigger_age@ =~= seq![minus_2, minus_1, 0u32]);
    }

    /// Forgets the triggers seen and the tempo detected.
    pub fn reset(&mut self)
        ensures
            final(self).wf(),
            final(self).ages() == seq![0u32, 0u32, 0u32],
            final(self).spec_tempo().is_none(),
            !final(self).spec_just_detected(),
    {
        self.trigger_age = [0, 0, 0];
        self.tempo = None;
        self.just_detected = false;
        assert(self.trigger_age@ =~= seq![0u32, 0u32, 0u32]);
    }

    pub fn tick(&mut self)
        requires
            old(self).wf(),
        ensures
            final(self).wf(),
            final(self).ages() == aged(old(self).ages()),
            final(self).spec_tempo() == old(self).spec_tempo(),
            !final(self).spec_just_detected(),
    {
        let a0 = self.trigger_age[0].saturating_add(1);
        let a1 = self.trigger_age[1].saturating_add(1);
        let a2 = self.trigger_age[2].saturating_add(1);
        self.trigger_age = [a0, a1, a2];
        self.just_detected = false;
        assert(self.trigger_age@ =~= aged(old(self).trigger_age@));
    }
}

impl Default for IntervalDetector {
    fn default() -> (detector: Self)
        ensures
            detector.wf(),
            detector.ages() == seq![0u32, 0u32, 0u32],
            detector.spec_tempo().is_none(),
            !detector.spec_just_detected(),
    {
        Self::new()
    }
}

} // verus!
