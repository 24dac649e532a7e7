//! Evaluate whether triggers are forming a clock.

use core::ops::Range;
use vstd::prelude::*;

verus! {

/// The largest distance whose toleration window fits into `u32`.
pub const MAX_TOLERATED_DISTANCE: u32 = 4_090_445_043;

/// The window of intervals accepted as equal to `distance`: within 5 % of it.
///
/// A distance so large that the upper end would not fit in `u32` has an
/// empty window.
pub open spec fn within_toleration(distance: int, interval: int) -> bool {
    &&& distance + distance / 20 <= u32::MAX
    &&& distance - distance / 20 <= interval
    &&& interval < distance + distance / 20
}

/// Whether three trigger ages (oldest first) form a steady clock.
pub open spec fn forms_clock(ages: Seq<u32>) -> bool {
    let minus_1 = ages[2] as int;
    let minus_2 = ages[1] as int;
    let minus_3 = ages[0] as int;
    &&& minus_1 > 100
    &&& within_toleration(minus_1, minus_2 - minus_1)
    &&& within_toleration(minus_1, minus_3 - minus_2)
}

/// Ages of triggers are kept from the oldest to the newest, so they never
/// increase along the array.
pub open spec fn ages_ordered(ages: Seq<u32>) -> bool {
    ages.len() == 3 && ages[0] >= ages[1] && ages[1] >= ages[2]
}

/// Ages after one more sample.
pub open spec fn aged(ages: Seq<u32>) -> Seq<u32> {
    ages.map_values(|a: u32| a.saturating_add(1))
}

/// Ages after a trigger: the oldest is forgotten, the new one is zero.
pub open spec fn triggered(ages: Seq<u32>) -> Seq<u32> {
    seq![ages[1], ages[2], 0u32]
}

/// The tempo detected by a trigger arriving when the ages are `ages`.
pub open spec fn tempo_at_trigger(ages: Seq<u32>) -> Option<u32> {
    if forms_clock(ages) {
        Some(ages[2])
    } else {
        None
    }
}

/// Ages after `n` samples.
pub open spec fn aged_by(ages: Seq<u32>, n: nat) -> Seq<u32>
    decreases n,
{
    if n == 0 {
        ages
    } else {
        aged(aged_by(ages, (n - 1) as nat))
    }
}

/// After `n` samples every age grew by `n`, up to the largest `u32`.
pub proof fn lemma_aged_by(ages: Seq<u32>, n: nat)
    requires
        ages.len() == 3,
    ensures
        aged_by(ages, n).len() == 3,
        forall|k: int|
            0 <= k < 3 ==> #[trigger] aged_by(ages, n)[k] == (if ages[k] + n <= u32::MAX {
                ages[k] + n
            } else {
                u32::MAX as int
            }),
    decreases n,
{
    if n > 0 {
        lemma_aged_by(ages, (n - 1) as nat);
        let previous = aged_by(ages, (n - 1) as nat);
        assert forall|k: int| 0 <= k < 3 implies #[trigger] aged(previous)[k] == previous[k].saturating_add(1) by {}
    }
}

/// Triggers arriving every `distance` samples form a clock: at the fourth
/// of them the detected tempo is `distance`, whatever the detector saw
/// before the first one.
pub proof fn lemma_steady_triggers_form_clock(ages: Seq<u32>, distance: nat)
    requires
        ages.len() == 3,
        100 < distance,
        3 * distance <= u32::MAX,
    ensures
        ({
            let before_second = aged_by(triggered(ages), distance);
            let before_third = aged_by(triggered(before_second), distance);
            let before_fourth = aged_by(triggered(before_third), distance);
            tempo_at_trigger(before_fourth) == Some(distance as u32)
        }),
{
    let before_second = aged_by(triggered(ages), distance);
    lemma_aged_by(triggered(ages), distance);
    let before_third = aged_by(triggered(before_second), distance);
    lemma_aged_by(triggered(before_second), distance);
    let before_fourth = aged_by(triggered(before_third), distance);
    lemma_aged_by(triggered(before_third), distance);
    assert(before_second[2] == distance);
    assert(before_third[1] == 2 * distance);
    assert(before_third[2] == distance);
    assert(before_fourth[0] == 3 * distance);
    assert(before_fourth[1] == 2 * distance);
    assert(before_fourth[2] == distance);
}

/// Detect clock tempo in signal.
///
/// Call `tick` for every sample and `trigger` for those that have a raised
/// edge. Read `detected_tempo` to see if clock was detected. The detected
/// value is held until the next time `trigger` is executed.
///
/// If for any reason the detector should be invalidated, call `reset`.
#[derive(Debug)]
pub struct ClockDetector {
    pub trigger_age: [u32; 3],
    pub detected_tempo: Option<u32>,
}

impl ClockDetector {
    /// Ages of the last three triggers, the oldest first.
    pub open spec fn ages(&self) -> Seq<u32> {
        self.trigger_age@
    }

    /// The tempo detected at the last trigger, if any.
    pub open spec fn tempo(&self) -> Option<u32> {
        self.detected_tempo
    }

    pub open spec fn wf(&self) -> bool {
        ages_ordered(self.trigger_age@)
    }

    pub fn new() -> (detector: Self)
        ensures
            detector.wf(),
            detector.ages() == seq![0u32, 0u32, 0u32],
            detector.tempo().is_none(),
    {
        let detector = ClockDetector { trigger_age: [0, 0, 0], detected_tempo: None };
        assert(detector.trigger_age@ =~= seq![0u32, 0u32, 0u32]);
        detector
    }

    pub fn trigger(&mut self)
        requires
            old(self).wf(),
        ensures
            final(self).wf(),
            final(self).tempo() == (if forms_clock(old(self).ages()) {
                Some(old(self).ages()[2])
            } else {
                None
            }),
            final(self).ages() == seq![old(self).ages()[1], old(self).ages()[2], 0u32],
    {
        let minus_1 = self.trigger_age[2];
        let minus_2 = self.trigger_age[1];
        let minus_3 = self.trigger_age[0];

        let distance = minus_1;
        let detected = if distance > 100 && distance <= MAX_TOLERATED_DISTANCE {
            let allowed_range = toleration(distance);
            allowed_range.contains(&(minus_2 - minus_1)) && allowed_range.contains(
                &(minus_3 - minus_2),
            )
        } else {
            false
        };
        if detected {
            self.detected_tempo = Some(distance);
        } else {
            self.detected_tempo = None;
        }

        self.trigger_age = [minus_2, minus_1, 0];
        assert(self.trigger_age@ =~= seq![minus_2, minus_1, 0u32]);
    }

    pub fn reset(&mut self)
        ensures
            final(self).wf(),
            final(self).ages() == seq![0u32, 0u32, 0u32],
            final(self).tempo() == old(self).tempo(),
    {
        self.trigger_age = [0, 0, 0];
        assert(self.trigger_age@ =~= seq![0u32, 0u32, 0u32]);
    }

    pub fn tick(&mut self)
        requires
            old(self).wf(),
        ensures
            final(self).wf(),
            final(self).ages() == aged(old(self).ages()),
            final(self).tempo() == old(self).tempo(),
    {
        let a0 = self.trigger_age[0].saturating_add(1);
        let a1 = self.trigger_age[1].saturating_add(1);
        let a2 = self.trigger_age[2].saturating_add(1);
        self.trigger_age = [a0, a1, a2];
        assert(self.trigger_age@ =~= aged(old(self).trigger_age@));
    }
}

impl Default for ClockDetector {
    fn default() -> (detector: Self)
        ensures
            detector.wf(),
            detector.ages() == seq![0u32, 0u32, 0u32],
            detector.tempo().is_none(),
    {
        Self::new()
    }
}

/// The range of intervals accepted as equal to `distance`.
pub fn toleration(distance: u32) -> (range: Range<u32>)
    requires
        distance + distance / 20 <= u32::MAX,
    ensures
        range.start == distance - distance / 20,
        range.end == distance + distance / 20,
        forall|x: u32| (range.start <= x && x < range.end) <==> within_toleration(distance as int, x as int),
{
    let tolerance = distance / 20;
    distance - tolerance..distance + tolerance
}

} // verus!
