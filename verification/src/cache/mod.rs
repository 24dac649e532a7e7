//! Cache keeping internal attributes, options and output peripherals' state.

pub mod configuration;
pub mod display;
pub mod interval_detector;
pub mod quantization;
pub mod tap_clock_detector;
pub mod tap_detector;
pub mod trigger;

use self::configuration::Configuration;
use self::display::Display;
use self::tap_clock_detector::TapClockDetector;
use self::tap_detector::TapDetector;
use self::trigger::Trigger;
use crate::clock::aged;
use crate::controls::{controls_get, controls_len, listed_controls};
use crate::led::Led;
use crate::mapping::{AttributeIdentifier, Mapping};
use crate::output::DesiredOutput;
use crate::save::{Save, StoredCalibration};
use vstd::prelude::*;

verus! {

/// Cache keeping internal state of the module.
///
/// This information, together with the attribute values computed from the
/// inputs, is sufficient to build attributes for DSP and hold state for
/// output peripherals. `P` is the type of the attribute values shown on the
/// display.
#[derive(Debug)]
pub struct Cache<P> {
    pub mapping: Mapping,
    pub calibrations: [StoredCalibration; 4],
    pub options: Options,
    pub configuration: Configuration,
    pub clock_detectors: [TapClockDetector; 4],
    pub tap_detector: TapDetector,
    /// Tempo tapped in with the button, in control cycles.
    pub tapped_tempo: Option<u32>,
    pub impulse_trigger: Trigger,
    pub impulse_led: Led,
    pub display: Display<P>,
}

impl<P: Copy> Cache<P> {
    pub open spec fn wf(&self) -> bool {
        &&& forall|i: int| 0 <= i < 4 ==> #[trigger] self.clock_detectors@[i].wf()
        &&& self.tap_detector.wf()
    }

    pub fn new() -> (cache: Self)
        ensures
            cache.wf(),
            forall|i: int| 0 <= i < 4 ==> cache.mapping@[i] == AttributeIdentifier::Unmapped,
            forall|i: int|
                0 <= i < 4 ==> #[trigger] cache.calibrations@[i] == StoredCalibration::new_spec(),
            cache.options.is_default(),
            cache.configuration.is_default(),
            cache.tapped_tempo.is_none(),
            forall|i: int| 0 <= i < 4 ==> #[trigger] cache.clock_detectors@[i].spec_tempo().is_none(),
            cache.tap_detector.spec_tempo().is_none(),
            cache.display.has_active(),
            cache.display.slots() == seq![
                None,
                None,
                None,
                None,
                None,
                None,
                None,
                Some(display::Screen::<P>::Attribute(0, display::AttributeScreen::Position(0))),
            ],
            cache.impulse_trigger.spec_since() == 0,
            cache.impulse_led.spec_since() == 0,
            cache.tap_detector.ages() == seq![0u32, 0u32, 0u32],
            !cache.tap_detector.spec_just_detected(),
            forall|i: int|
                0 <= i < 4 ==> #[trigger] cache.clock_detectors@[i].ages() == seq![0u32, 0u32, 0u32],
            forall|i: int|
                0 <= i < 4 ==> !#[trigger] cache.clock_detectors@[i].spec_just_detected(),
    {
        let cache = Cache {
            mapping: crate::mapping::empty_mapping(),
            calibrations: [
                StoredCalibration::new(),
                StoredCalibration::new(),
                StoredCalibration::new(),
                StoredCalibration::new(),
            ],
            options: Options::new(),
            configuration: Configuration::new(),
            clock_detectors: [
                TapClockDetector::new(),
                TapClockDetector::new(),
                TapClockDetector::new(),
                TapClockDetector::new(),
            ],
            tap_detector: TapDetector::new(),
            tapped_tempo: None,
            impulse_trigger: Trigger::new(),
            impulse_led: Led::new(),
            display: Display::new(),
        };
        cache
    }

    /// The settings that survive a power cycle.
    pub open spec fn spec_save(&self) -> Save {
        Save {
            mapping: self.mapping,
            calibrations: self.calibrations,
            options: self.options,
            configuration: self.configuration,
            tapped_tempo: self.tapped_tempo,
        }
    }

    /// Everything that should survive a power cycle.
    pub fn save(&self) -> (save: Save)
        ensures
            save == self.spec_save(),
    {
        Save {
            mapping: self.mapping,
            calibrations: self.calibrations,
            options: self.options,
            configuration: self.configuration,
            tapped_tempo: self.tapped_tempo,
        }
    }

    /// Reports the outputs for this cycle, with the given display LEDs, then
    /// advances all timers by one cycle.
    pub fn tick(&mut self, display: [bool; 8]) -> (output: DesiredOutput)
        requires
            old(self).wf(),
        ensures
            final(self).wf(),
            output.display == display,
            output.impulse_trigger == (old(self).impulse_trigger.spec_since() < trigger::TRIGGER_UP_CYCLES),
            output.impulse_led == (old(self).impulse_led.spec_since() < crate::led::LED_LIT_CYCLES),
            final(self).impulse_trigger.spec_since() == old(self).impulse_trigger.spec_since().saturating_add(1),
            final(self).impulse_led.spec_since() == old(self).impulse_led.spec_since().saturating_add(1),
            final(self).display.slots() == display::spec_ticked_slots(old(self).display.slots()),
            final(self).tap_detector.ages() == aged(old(self).tap_detector.ages()),
            final(self).tap_detector.spec_tempo() == old(self).tap_detector.spec_tempo(),
            forall|i: int|
                0 <= i < 4 ==> #[trigger] final(self).clock_detectors@[i].ages() == aged(
                    old(self).clock_detectors@[i].ages(),
                ),
            forall|i: int|
                0 <= i < 4 ==> #[trigger] final(self).clock_detectors@[i].spec_tempo() == old(self).clock_detectors@[i].spec_tempo(),
            final(self).mapping == old(self).mapping,
            final(self).calibrations == old(self).calibrations,
            final(self).options == old(self).options,
            final(self).configuration == old(self).configuration,
            final(self).tapped_tempo == old(self).tapped_tempo,
    {
        let output = DesiredOutput {
            display,
            impulse_trigger: self.impulse_trigger.triggered(),
            impulse_led: self.impulse_led.triggered(),
        };

        let mut i: usize = 0;
        while i < 4
            invariant
                i <= 4,
                self.mapping == old(self).mapping,
                self.calibrations == old(self).calibrations,
                self.options == old(self).options,
                self.configuration == old(self).configuration,
                self.tap_detector == old(self).tap_detector,
                self.tapped_tempo == old(self).tapped_tempo,
                self.impulse_trigger == old(self).impulse_trigger,
                self.impulse_led == old(self).impulse_led,
                self.display == old(self).display,
                forall|j: int| 0 <= j < 4 ==> #[trigger] old(self).clock_detectors@[j].wf(),
                forall|j: int| 0 <= j < 4 ==> #[trigger] self.clock_detectors@[j].wf(),
                forall|j: int|
                    0 <= j < i ==> #[trigger] self.clock_detectors@[j].ages() == aged(
                        old(self).clock_detectors@[j].ages(),
                    ),
                forall|j: int|
                    i <= j < 4 ==> #[trigger] self.clock_detectors@[j] == old(self).clock_detectors@[j],
                forall|j: int|
                    0 <= j < 4 ==> #[trigger] self.clock_detectors@[j].spec_tempo() == old(self).clock_detectors@[j].spec_tempo(),
            decreases 4 - i,
        {
            let mut detector = self.clock_detectors[i];
            detector.tick();
            self.clock_detectors[i] = detector;
            i = i + 1;
        }
        self.impulse_trigger.tick();
        self.impulse_led.tick();
        self.display.tick();
        self.tap_detector.tick();
        output
    }

    /// Unmaps every unplugged control that was mapped, marking that the
    /// change needs to be saved.
    pub fn unmap_controls(&mut self, unplugged_controls: &heapless::Vec<usize, 4>, needs_save: &mut bool)
        requires
            forall|k: int|
                0 <= k < listed_controls(*unplugged_controls).len() ==> #[trigger] listed_controls(
                    *unplugged_controls,
                )[k] < 4,
        ensures
            forall|i: int|
                0 <= i < 4 ==> #[trigger] final(self).mapping@[i] == (if listed_controls(
                    *unplugged_controls,
                ).contains(i as usize) {
                    AttributeIdentifier::Unmapped
                } else {
                    old(self).mapping@[i]
                }),
            *final(needs_save) == (*old(needs_save) || exists|i: int|
                0 <= i < 4 && listed_controls(*unplugged_controls).contains(i as usize)
                    && #[trigger] old(self).mapping@[i] != AttributeIdentifier::Unmapped),
            final(self).calibrations == old(self).calibrations,
            final(self).options == old(self).options,
            final(self).configuration == old(self).configuration,
            final(self).clock_detectors == old(self).clock_detectors,
            final(self).tap_detector == old(self).tap_detector,
            final(self).tapped_tempo == old(self).tapped_tempo,
            final(self).impulse_trigger == old(self).impulse_trigger,
            final(self).impulse_led == old(self).impulse_led,
            final(self).display == old(self).display,
    {
        let ghost list = listed_controls(*unplugged_controls);
        let n = controls_len(unplugged_controls);
        let mut k: usize = 0;
        while k < n
            invariant
                n == list.len(),
                k <= n,
                list == listed_controls(*unplugged_controls),
                forall|j: int| 0 <= j < list.len() ==> #[trigger] list[j] < 4,
                forall|i: int|
                    0 <= i < 4 ==> #[trigger] self.mapping@[i] == (if list.subrange(0, k as int).contains(
                        i as usize,
                    ) {
                        AttributeIdentifier::Unmapped
                    } else {
                        old(self).mapping@[i]
                    }),
                *needs_save == (*old(needs_save) || exists|i: int|
                    0 <= i < 4 && list.subrange(0, k as int).contains(i as usize)
                        && #[trigger] old(self).mapping@[i] != AttributeIdentifier::Unmapped),
                self.calibrations == old(self).calibrations,
                self.options == old(self).options,
                self.configuration == old(self).configuration,
                self.clock_detectors == old(self).clock_detectors,
                self.tap_detector == old(self).tap_detector,
                self.tapped_tempo == old(self).tapped_tempo,
                self.impulse_trigger == old(self).impulse_trigger,
                self.impulse_led == old(self).impulse_led,
                self.display == old(self).display,
            decreases n - k,
        {
            let i = controls_get(unplugged_controls, k);
            let ghost before = list.subrange(0, k as int);
            let ghost after = list.subrange(0, k + 1);
            assert(after =~= before.push(i));
            let attribute = self.mapping[i];
            if !attribute.is_none() {
                self.mapping[i] = AttributeIdentifier::Unmapped;
                *needs_save = true;
            }
            proof {
                assert forall|j: usize| #[trigger] after.contains(j) <==> (before.contains(j) || j == i) by {
                    vstd::seq_lib::lemma_seq_contains_after_push(before, i, j);
                }
            }
            k = k + 1;
        }
        assert(list.subrange(0, n as int) =~= list);
    }

    /// Reacts to the processor: an impulse of the delay is sent out as a
    /// trigger and lights the impulse LED.
    pub fn apply_dsp_reaction(&mut self, delay_impulse: bool)
        ensures
            delay_impulse ==> final(self).impulse_trigger.spec_since() == 0 && final(self).impulse_led.spec_since() == 0,
            !delay_impulse ==> final(self).impulse_trigger == old(self).impulse_trigger && final(self).impulse_led == old(self).impulse_led,
            final(self).mapping == old(self).mapping,
            final(self).calibrations == old(self).calibrations,
            final(self).options == old(self).options,
            final(self).configuration == old(self).configuration,
            final(self).clock_detectors == old(self).clock_detectors,
            final(self).tap_detector == old(self).tap_detector,
            final(self).tapped_tempo == old(self).tapped_tempo,
            final(self).display == old(self).display,
    {
        if delay_impulse {
            self.impulse_trigger.trigger();
            self.impulse_led.trigger();
        }
    }
}

/// Easy to access modifications of the default module behavior.
///
/// Options are set by holding the button while turning module's pots.
/// They are meant to provide a quick access to some common extended features
/// such as quantization, rewind, etc.
#[derive(Clone, Copy, Debug, PartialEq, Eq, Structural)]
pub struct Options {
    pub quantize_8: bool,
    pub quantize_6: bool,
    pub delay_range: DelayRange,
    pub rewind: bool,
    pub enable_oscillator: bool,
    pub random_impulse: bool,
    pub filter_feedback: bool,
    pub wow_flutter_placement: WowFlutterPlacement,
    pub unlimited: bool,
}

/// Range of the delay time.
#[derive(Clone, Copy, Debug, PartialEq, Eq, Structural)]
pub enum DelayRange {
    Long,
    Short,
    Audio,
}

/// Placement of the time effects of wow and flutter.
#[derive(Clone, Copy, Debug, PartialEq, Eq, Structural)]
pub enum WowFlutterPlacement {
    Input,
    Read,
    Both,
}

impl Options {
    pub open spec fn is_default(&self) -> bool {
        &&& !self.quantize_8
        &&& !self.quantize_6
        &&& self.delay_range == DelayRange::Long
        &&& !self.rewind
        &&& !self.enable_oscillator
        &&& !self.random_impulse
        &&& !self.filter_feedback
        &&& self.wow_flutter_placement == WowFlutterPlacement::Both
        &&& !self.unlimited
    }

    pub fn new() -> (options: Self)
        ensures
            options.is_default(),
    {
        Options {
            quantize_8: false,
            quantize_6: false,
            delay_range: DelayRange::Long,
            rewind: false,
            enable_oscillator: false,
            random_impulse: false,
            filter_feedback: false,
            wow_flutter_placement: WowFlutterPlacement::Both,
            unlimited: false,
        }
    }
}

impl Default for Options {
    fn default() -> (options: Self)
        ensures
            options.is_default(),
    {
        Self::new()
    }
}

impl Default for DelayRange {
    fn default() -> (range: Self)
        ensures
            range == DelayRange::Long,
    {
        Self::Long
    }
}

impl Default for WowFlutterPlacement {
    fn default() -> (placement: Self)
        ensures
            placement == WowFlutterPlacement::Both,
    {
        Self::Both
    }
}

impl WowFlutterPlacement {
    pub fn is_input(self) -> (input: bool)
        ensures
            input == (self == WowFlutterPlacement::Input),
    {
        matches!(self, Self::Input)
    }

    pub fn is_read(self) -> (read: bool)
        ensures
            read == (self == WowFlutterPlacement::Read),
    {
        matches!(self, Self::Read)
    }

    /// The number under which the processor knows the placement.
    pub fn index(self) -> (index: u8)
        ensures
            index == (if self == WowFlutterPlacement::Input {
                0u8
            } else if self == WowFlutterPlacement::Read {
                1u8
            } else {
                2u8
            }),
    {
        if self.is_input() {
            0
        } else if self.is_read() {
            1
        } else {
            2
        }
    }
}

} // verus!
