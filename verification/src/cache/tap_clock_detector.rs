use super::interval_detector::{
    view_after, view_rest, view_ticked, view_triggered, DetectionView, DetectorCall,
    IntervalDetector,
};
use super::tap_detector::TapDetector;
use crate::clock::{aged, forms_clock};
use vstd::prelude::*;

verus! {

/// Identify incoming clock signal on control input.
///
/// This is only a momentary detector. To persist once detected
/// tempo, the result needs to be snapshotted and stored elsewhere.
#[derive(Debug, Clone, Copy)]
pub struct TapClockDetector {
    detector: IntervalDetector,
}

impl TapClockDetector {
    pub closed spec fn wf(&self) -> bool {
        self.detector.wf()
    }

    /// Ages of the last three triggers, the oldest first.
    pub closed spec fn ages(&self) -> Seq<u32> {
        self.detector.ages()
    }

    pub closed spec fn spec_tempo(&self) -> Option<u32> {
        self.detector.spec_tempo()
    }

    pub closed spec fn spec_just_detected(&self) -> bool {
        self.detector.spec_just_detected()
    }

    /// What the detector shows: trigger ages, tempo and detection flag.
    pub open spec fn view(&self) -> DetectionView {
        (self.ages(), self.spec_tempo(), self.spec_just_detected())
    }

    pub fn new() -> (detector: Self)
        ensures
            detector.wf(),
            detector.view() == view_rest(),
            detector.ages() == seq![0u32, 0u32, 0u32],
            detector.spec_tempo().is_none(),
            !detector.spec_just_detected(),
    {
        TapClockDetector { detector: IntervalDetector::new() }
    }

    pub fn trigger(&mut self)
        requires
            old(self).wf(),
        ensures
            final(self).wf(),
            final(self).view() == view_triggered(old(self).view()),
            final(self).spec_tempo() == (if forms_clock(old(self).ages()) {
                Some(old(self).ages()[2])
            } else {
                None
            }),
            final(self).spec_just_detected() == forms_clock(old(self).ages()),
            final(self).ages() == seq![old(self).ages()[1], old(self).ages()[2], 0u32],
    {
        self.detector.trigger();
    }

    pub fn just_detected(&self) -> (detected: bool)
        ensures
            detected == self.spec_just_detected(),
    {
        self.detector.just_detected
    }

    pub fn tick(&mut self)
        requires
            old(self).wf(),
        ensures
            final(self).wf(),
            final(self).view() == view_ticked(old(self).view()),
            final(self).ages() == aged(old(self).ages()),
            final(self).spec_tempo() == old(self).spec_tempo(),
            !final(self).spec_just_detected(),
    {
        self.detector.tick();
    }

    pub fn reset(&mut self)
        ensures
            final(self).wf(),
            final(self).view() == view_rest(),
            final(self).ages() == seq![0u32, 0u32, 0u32],
            final(self).spec_tempo().is_none(),
            !final(self).spec_just_detected(),
    {
        self.detector.reset();
    }

    pub fn detected_tempo(&self) -> (tempo: Option<u32>)
        ensures
            tempo == self.spec_tempo(),
    {
        self.detector.tempo
    }
}

impl Default for TapClockDetector {
    fn default() -> (detector: Self)
        ensures
            detector.wf(),
            detector.ages() == seq![0u32, 0u32, 0u32],
            detector.spec_tempo().is_none(),
            !detector.spec_just_detected(),
    {
        Self::new()
    }
}

/// A tap detector and a clock detector detect alike: both start at rest
/// (`new`), and `tick`, `trigger` and `reset` move each by the same function
/// of what it shows; so from the same view the same calls lead both to the
/// same ages, tempo and detection flag.
pub proof fn lemma_tap_and_clock_detect_alike(
    tap: TapDetector,
    clock: TapClockDetector,
    calls: Seq<DetectorCall>,
)
    requires
        tap.view() == clock.view(),
    ensures
        view_after(tap.view(), calls) == view_after(clock.view(), calls),
{
}

} // verus!
