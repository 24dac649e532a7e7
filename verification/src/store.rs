//! The control state machine: plugging and unplugging of control inputs,
//! their calibration and mapping to attributes, configuration, and tapped
//! tempo.
//!
//! The machine reads the inputs through an `InputObservation`, a set of plain
//! values taken from the peripherals in one cycle.

use crate::action::{
    controls_below, free_of, keeps_action, lemma_filter_no_duplicates, lemma_room_for_control,
    lemma_without_control_below, lemma_without_control_free, push_capped, without_control,
    ControlAction, Queue,
};
use crate::cache::configuration::Configuration;
use crate::cache::display::{
    AltAttributeScreen, AttributeScreen, CalibrationScreen, ConfigurationScreen, DialogScreen, HysteresisRange,
    PreAmpMode, Screen, SpeedRange,
};
use crate::cache::tap_clock_detector::TapClockDetector;
use crate::cache::tap_detector::TapDetector;
use crate::cache::{Cache, DelayRange, Options, WowFlutterPlacement};
use crate::clock::forms_clock;
use crate::controls::{
    controls_get, controls_len, controls_where, indices_where, lemma_indices_where,
    listed_controls,
};
use crate::mapping::AttributeIdentifier;
use crate::output::DesiredOutput;
use crate::save::{Save, StoredCalibration};
use vstd::prelude::*;

verus! {

/// How many cycles the button has to be held to enter configuration.
pub const LONG_HOLD_CYCLES: u32 = 5_000;

/// The current state of the control state machine.
///
/// The module can be in one of multiple states. The behavior of input and
/// output peripherals will differ based on the current state.
#[derive(Debug, Clone, Copy, PartialEq)]
pub enum State {
    Calibrating(StateCalibrating),
    Mapping(StateMapping),
    Configuring(StateConfiguring),
    Normal,
}

#[derive(Debug, Clone, Copy, PartialEq, Eq, Structural)]
pub struct StateCalibrating {
    pub input: usize,
    pub phase: CalibrationPhase,
}

/// The phase of a calibration; the second one holds the bit pattern of the
/// value read for the first octave.
#[derive(Debug, Clone, Copy, PartialEq, Eq, Structural)]
pub enum CalibrationPhase {
    Octave1,
    Octave2(u32),
}

#[derive(Debug, Clone, Copy, PartialEq, Eq, Structural)]
pub struct StateMapping {
    pub input: usize,
}

#[derive(Debug, Clone, Copy, PartialEq)]
pub struct StateConfiguring {
    pub draft: Configuration,
}

impl State {
    pub fn configuring_from_draft(draft: Configuration) -> (state: Self)
        ensures
            state == State::Configuring(StateConfiguring { draft }),
    {
        State::Configuring(StateConfiguring { draft })
    }

    pub fn calibrating_octave_1(input: usize) -> (state: Self)
        ensures
            state == State::Calibrating(StateCalibrating { input, phase: CalibrationPhase::Octave1 }),
    {
        State::Calibrating(StateCalibrating { input, phase: CalibrationPhase::Octave1 })
    }

    pub fn calibrating_octave_2(input: usize, octave_1: u32) -> (state: Self)
        ensures
            state == State::Calibrating(
                StateCalibrating { input, phase: CalibrationPhase::Octave2(octave_1) },
            ),
    {
        State::Calibrating(StateCalibrating { input, phase: CalibrationPhase::Octave2(octave_1) })
    }

    pub fn mapping(input: usize) -> (state: Self)
        ensures
            state == State::Mapping(StateMapping { input }),
    {
        State::Mapping(StateMapping { input })
    }
}

impl Default for State {
    fn default() -> (state: Self)
        ensures
            state == State::Normal,
    {
        Self::Normal
    }
}

/// Which pots moved recently, as judged from their readings.
#[derive(Debug, Clone, Copy, PartialEq, Eq)]
pub struct PotActivity {
    pub pre_amp: bool,
    pub drive: bool,
    pub bias: bool,
    pub dry_wet: bool,
    pub wow_flut: bool,
    pub speed: bool,
    pub tone: bool,
    pub head: [HeadActivity; 4],
}

#[derive(Debug, Clone, Copy, PartialEq, Eq, Structural)]
pub struct HeadActivity {
    pub position: bool,
    pub volume: bool,
    pub feedback: bool,
    pub pan: bool,
}

/// The attribute of the first active pot, in the order of the panel: the
/// global pots first, then position, volume, feedback and pan of each head.
pub open spec fn spec_active_attribute(pots: PotActivity) -> AttributeIdentifier {
    if pots.pre_amp {
        AttributeIdentifier::PreAmp
    } else if pots.drive {
        AttributeIdentifier::Drive
    } else if pots.bias {
        AttributeIdentifier::Bias
    } else if pots.dry_wet {
        AttributeIdentifier::DryWet
    } else if pots.wow_flut {
        AttributeIdentifier::WowFlut
    } else if pots.speed {
        AttributeIdentifier::Speed
    } else if pots.tone {
        AttributeIdentifier::Tone
    } else {
        head_attribute(pots.head@, 0)
    }
}

/// The attribute of the first active pot of the heads from `i` on.
pub open spec fn head_attribute(heads: Seq<HeadActivity>, i: int) -> AttributeIdentifier
    decreases 4 - i,
{
    if i >= 4 || i < 0 {
        AttributeIdentifier::Unmapped
    } else if heads[i].position {
        AttributeIdentifier::Position(i as usize)
    } else if heads[i].volume {
        AttributeIdentifier::Volume(i as usize)
    } else if heads[i].feedback {
        AttributeIdentifier::Feedback(i as usize)
    } else if heads[i].pan {
        AttributeIdentifier::Pan(i as usize)
    } else {
        head_attribute(heads, i + 1)
    }
}

/// The attribute whose pot is being turned, if any.
pub fn active_attribute(pots: &PotActivity) -> (attribute: AttributeIdentifier)
    ensures
        attribute == spec_active_attribute(*pots),
{
    if pots.pre_amp {
        return AttributeIdentifier::PreAmp;
    } else if pots.drive {
        return AttributeIdentifier::Drive;
    } else if pots.bias {
        return AttributeIdentifier::Bias;
    } else if pots.dry_wet {
        return AttributeIdentifier::DryWet;
    } else if pots.wow_flut {
        return AttributeIdentifier::WowFlut;
    } else if pots.speed {
        return AttributeIdentifier::Speed;
    } else if pots.tone {
        return AttributeIdentifier::Tone;
    }
    let mut i: usize = 0;
    while i < 4
        invariant
            i <= 4,
            head_attribute(pots.head@, i as int) == head_attribute(pots.head@, 0),
            spec_active_attribute(*pots) == head_attribute(pots.head@, 0),
        decreases 4 - i,
    {
        let head = pots.head[i];
        if head.position {
            return AttributeIdentifier::Position(i);
        } else if head.volume {
            return AttributeIdentifier::Volume(i);
        } else if head.feedback {
            return AttributeIdentifier::Feedback(i);
        } else if head.pan {
            return AttributeIdentifier::Pan(i);
        }
        i = i + 1;
    }
    AttributeIdentifier::Unmapped
}

/// The rewind speeds of a head after its pots were read: an active pot
/// selects the speed of the given index, an inactive one keeps the draft's.
pub open spec fn spec_rewind_update(
    current: (usize, usize),
    head: HeadActivity,
    index: (usize, usize),
) -> (usize, usize) {
    (
        if head.volume {
            index.0
        } else {
            current.0
        },
        if head.feedback {
            index.1
        } else {
            current.1
        },
    )
}

/// The draft with the rewind speeds of head `i` replaced.
pub open spec fn with_rewind(draft: Configuration, i: int, speeds: (usize, usize)) -> Configuration {
    Configuration {
        rewind_speed: vstd::array::spec_array_update(draft.rewind_speed, i, speeds),
        ..draft
    }
}

/// Applies the volume and feedback pots of head `i` to the draft. When
/// either is active, the new speeds are shown.
pub fn update_rewind_configuration(
    draft: &mut Configuration,
    i: usize,
    head: &HeadActivity,
    index: (usize, usize),
) -> (screen: Option<DialogScreen>)
    requires
        i < 4,
    ensures
        !head.volume && !head.feedback ==> screen.is_none() && *final(draft) == *old(draft),
        head.volume || head.feedback ==> ({
            let speeds = spec_rewind_update(old(draft).rewind_speed@[i as int], *head, index);
            &&& screen == Some(DialogScreen::Configuration(ConfigurationScreen::Rewind(speeds)))
            &&& *final(draft) == with_rewind(*old(draft), i as int, speeds)
        }),
{
    broadcast use vstd::array::axiom_spec_array_update, vstd::array::axiom_array_ext_equal;

    if !head.volume && !head.feedback {
        return None;
    }
    let rewind_speed = if head.volume {
        index.0
    } else {
        draft.rewind_speed[i].0
    };
    let fast_forward_speed = if head.feedback {
        index.1
    } else {
        draft.rewind_speed[i].1
    };
    let speeds = (rewind_speed, fast_forward_speed);
    draft.rewind_speed[i] = speeds;
    assert(draft.rewind_speed =~= with_rewind(*old(draft), i as int, speeds).rewind_speed);
    Some(DialogScreen::Configuration(ConfigurationScreen::Rewind(speeds)))
}

/// The draft after the heads' pots were read, from head `i` on: the first
/// head whose volume or feedback pot is active updates it and is shown; the
/// later heads are not looked at.
pub open spec fn spec_updated_draft(
    draft: Configuration,
    heads: Seq<HeadActivity>,
    indices: Seq<(usize, usize)>,
    i: int,
) -> (Configuration, Option<DialogScreen>)
    decreases 4 - i,
{
    if i >= 4 || i < 0 {
        (draft, None)
    } else if heads[i].volume || heads[i].feedback {
        let speeds = spec_rewind_update(draft.rewind_speed@[i], heads[i], indices[i]);
        (
            with_rewind(draft, i, speeds),
            Some(DialogScreen::Configuration(ConfigurationScreen::Rewind(speeds))),
        )
    } else {
        spec_updated_draft(draft, heads, indices, i + 1)
    }
}

/// Applies the heads' pots to the configuration draft.
pub fn updated_configuration_draft(
    draft: Configuration,
    heads: &[HeadActivity; 4],
    indices: &[(usize, usize); 4],
) -> (updated: (Configuration, Option<DialogScreen>))
    ensures
        updated == spec_updated_draft(draft, heads@, indices@, 0),
{
    let mut current = draft;
    let mut i: usize = 0;
    while i < 4
        invariant
            i <= 4,
            current == draft,
            spec_updated_draft(draft, heads@, indices@, i as int) == spec_updated_draft(
                draft,
                heads@,
                indices@,
                0,
            ),
        decreases 4 - i,
    {
        let screen = update_rewind_configuration(&mut current, i, &heads[i], indices[i]);
        if screen.is_some() {
            return (current, screen);
        }
        i = i + 1;
    }
    (current, None)
}

/// The plain values read from the peripherals in one cycle.
#[derive(Debug, Clone, Copy)]
pub struct InputObservation {
    pub control_is_plugged: [bool; 4],
    pub control_was_plugged: [bool; 4],
    pub control_was_unplugged: [bool; 4],
    /// Bit patterns of the smoothed values of the controls.
    pub control_value: [u32; 4],
    /// Whether the raw value of a control is below the level that a clock
    /// signal has to keep; its clock detector then starts over.
    pub control_low: [bool; 4],
    /// Whether a control just passed a rising edge of a clock signal.
    pub control_triggered: [bool; 4],
    pub button_pressed: bool,
    pub button_clicked: bool,
    /// For how many cycles the button has been held.
    pub button_held: u32,
    pub pots: PotActivity,
    /// Per head, the index of the rewind speed selected by its volume pot and
    /// of the fast-forward speed selected by its feedback pot.
    pub rewind_index: [(usize, usize); 4],
    /// The calibration computed from the first octave kept by a pending
    /// calibration and the current value of its control; `None` when that is
    /// not a valid calibration or no calibration is pending.
    pub calibration: Option<StoredCalibration>,
}

/// The part of the store that the state machine decides on.
#[verifier::ext_equal]
pub struct Machine<P> {
    pub state: State,
    pub queue: Seq<ControlAction>,
    pub mapping: Seq<AttributeIdentifier>,
    pub calibrations: Seq<StoredCalibration>,
    pub configuration: Configuration,
    pub tapped_tempo: Option<u32>,
    pub slots: Seq<Option<Screen<P>>>,
}

/// The controls a state or a queue speaks of exist.
pub open spec fn valid_state(state: State) -> bool {
    match state {
        State::Calibrating(calibrating) => calibrating.input < 4,
        State::Mapping(mapping) => mapping.input < 4,
        _ => true,
    }
}

/// The mapping with the unplugged controls unmapped.
pub open spec fn spec_unmapped(mapping: Seq<AttributeIdentifier>, unplugged: Seq<usize>) -> Seq<
    AttributeIdentifier,
> {
    Seq::new(
        mapping.len(),
        |i: int|
            if unplugged.contains(i as usize) {
                AttributeIdentifier::Unmapped
            } else {
                mapping[i]
            },
    )
}

/// Whether an unplugged control was mapped.
pub open spec fn unmapping_needed(mapping: Seq<AttributeIdentifier>, unplugged: Seq<usize>) -> bool {
    exists|i: int|
        0 <= i < mapping.len() && unplugged.contains(i as usize) && #[trigger] mapping[i]
            != AttributeIdentifier::Unmapped
}

/// The line without the actions of the unplugged controls.
pub open spec fn spec_dequeued(line: Seq<ControlAction>, unplugged: Seq<usize>) -> Seq<ControlAction>
    decreases unplugged.len(),
{
    if unplugged.len() == 0 {
        line
    } else {
        without_control(spec_dequeued(line, unplugged.drop_last()), unplugged.last())
    }
}

/// The line after control `i` was plugged in: its earlier actions are
/// dropped, a calibration is asked for when the button is pressed and a
/// mapping when the control is not mapped.
pub open spec fn spec_enqueued_control(
    line: Seq<ControlAction>,
    i: usize,
    pressed: bool,
    mapping: Seq<AttributeIdentifier>,
) -> Seq<ControlAction> {
    let rest = without_control(line, i);
    let with_calibration = if pressed {
        push_capped(rest, ControlAction::Calibrate(i))
    } else {
        rest
    };
    if mapping[i as int] == AttributeIdentifier::Unmapped {
        push_capped(with_calibration, ControlAction::Mapping(i))
    } else {
        with_calibration
    }
}

/// The line after the controls were plugged in, in the order given.
pub open spec fn spec_enqueued(
    line: Seq<ControlAction>,
    plugged: Seq<usize>,
    pressed: bool,
    mapping: Seq<AttributeIdentifier>,
) -> Seq<ControlAction>
    decreases plugged.len(),
{
    if plugged.len() == 0 {
        line
    } else {
        spec_enqueued_control(
            spec_enqueued(line, plugged.drop_last(), pressed, mapping),
            plugged.last(),
            pressed,
            mapping,
        )
    }
}

/// The controls unplugged in this cycle.
pub open spec fn unplugged_of(input: InputObservation) -> Seq<usize> {
    indices_where(input.control_was_unplugged@, 4)
}

/// The controls plugged in this cycle.
pub open spec fn plugged_of(input: InputObservation) -> Seq<usize> {
    indices_where(input.control_was_plugged@, 4)
}

/// The machine after the plugged and unplugged controls were handled.
pub open spec fn spec_plugged_in<P>(m: Machine<P>, input: InputObservation) -> Machine<P> {
    let mapping = spec_unmapped(m.mapping, unplugged_of(input));
    Machine {
        mapping,
        queue: spec_enqueued(
            spec_dequeued(m.queue, unplugged_of(input)),
            plugged_of(input),
            input.button_pressed,
            mapping,
        ),
        ..m
    }
}

/// The tapped tempo after the tap detector was read in the normal state, and
/// whether it is to be saved: a tempo detected while the speed pot is turned
/// is dropped together with the tapped one.
pub open spec fn spec_tapped(tapped_tempo: Option<u32>, speed_active: bool, detected: Option<u32>) -> (Option<u32>, bool) {
    match detected {
        Some(tempo) => if speed_active {
            (None, false)
        } else {
            (Some(tempo), true)
        },
        None => (tapped_tempo, false),
    }
}

/// Whether the tap detector starts over: in the normal state, when a tempo
/// was detected while the speed pot is turned.
pub open spec fn tap_reset<P>(m: Machine<P>, input: InputObservation, detected: Option<u32>) -> bool {
    m.state is Normal && detected is Some && input.pots.speed
}

/// The machine taking the action at the head of the line, or clearing the
/// dialog when none is pending.
pub open spec fn spec_next_action<P>(m: Machine<P>) -> Machine<P> {
    if m.queue.len() == 0 {
        Machine { slots: m.slots.update(1, None), ..m }
    } else {
        let rest = Machine { queue: m.queue.drop_first(), ..m };
        match m.queue[0] {
            ControlAction::Calibrate(i) => Machine {
                state: State::Calibrating(StateCalibrating { input: i, phase: CalibrationPhase::Octave1 }),
                slots: m.slots.update(
                    1,
                    Some(Screen::Dialog(DialogScreen::Calibration(CalibrationScreen::SelectOctave1(i, 0)))),
                ),
                ..rest
            },
            ControlAction::Mapping(i) => Machine {
                state: State::Mapping(StateMapping { input: i }),
                slots: m.slots.update(1, Some(Screen::Dialog(DialogScreen::Mapping(i, 0)))),
                ..rest
            },
        }
    }
}

/// The machine leaving the normal state, and whether it is to be saved.
pub open spec fn spec_from_normal<P>(m: Machine<P>, input: InputObservation, detected: Option<u32>) -> (Machine<P>, bool) {
    let (tapped_tempo, save) = spec_tapped(m.tapped_tempo, input.pots.speed, detected);
    let m = Machine { tapped_tempo, ..m };
    if input.button_held > LONG_HOLD_CYCLES {
        (
            Machine {
                state: State::Configuring(StateConfiguring { draft: m.configuration }),
                slots: m.slots.update(
                    1,
                    Some(Screen::Dialog(DialogScreen::Configuration(ConfigurationScreen::Idle(0)))),
                ),
                ..m
            },
            save,
        )
    } else {
        (spec_next_action(m), save)
    }
}

/// The machine back in the normal state with the failure shown.
pub open spec fn failed<P>(m: Machine<P>) -> Machine<P> {
    Machine { state: State::Normal, slots: m.slots.update(0, Some(Screen::Failure(0))), ..m }
}

/// The machine mapping control `control`, and whether it is to be saved: an
/// unplugged control fails; the first turned pot whose attribute has no
/// control yet gets this one.
pub open spec fn spec_from_mapping<P>(m: Machine<P>, control: usize, input: InputObservation) -> (Machine<P>, bool) {
    let destination = spec_active_attribute(input.pots);
    if !input.control_is_plugged[control as int] {
        (failed(m), false)
    } else if destination != AttributeIdentifier::Unmapped && !m.mapping.contains(destination) {
        (
            Machine {
                state: State::Normal,
                mapping: m.mapping.update(control as int, destination),
                ..m
            },
            true,
        )
    } else {
        (m, false)
    }
}

/// The machine calibrating a control, and whether it is to be saved: an
/// unplugged control fails; a click takes the first octave, and a second
/// click stores the calibration, or fails when it is not valid.
pub open spec fn spec_from_calibrating<P>(m: Machine<P>, calibrating: StateCalibrating, input: InputObservation) -> (Machine<P>, bool) {
    let control = calibrating.input;
    if !input.control_is_plugged[control as int] {
        (failed(m), false)
    } else if input.button_clicked {
        match calibrating.phase {
            CalibrationPhase::Octave1 => (
                Machine {
                    state: State::Calibrating(
                        StateCalibrating {
                            input: control,
                            phase: CalibrationPhase::Octave2(input.control_value[control as int]),
                        },
                    ),
                    slots: m.slots.update(
                        1,
                        Some(Screen::Dialog(DialogScreen::Calibration(CalibrationScreen::SelectOctave2(control, 0)))),
                    ),
                    ..m
                },
                false,
            ),
            CalibrationPhase::Octave2(_) => match input.calibration {
                Some(calibration) => (
                    Machine {
                        state: State::Normal,
                        calibrations: m.calibrations.update(control as int, calibration),
                        ..m
                    },
                    true,
                ),
                None => (failed(m), false),
            },
        }
    } else {
        (m, false)
    }
}

/// The machine configuring, and whether it is to be saved: a click applies
/// the draft; otherwise the heads' pots update it.
pub open spec fn spec_from_configuring<P>(m: Machine<P>, draft: Configuration, input: InputObservation) -> (Machine<P>, bool) {
    if input.button_clicked {
        (Machine { state: State::Normal, configuration: draft, ..m }, true)
    } else {
        let (updated, screen) = spec_updated_draft(draft, input.pots.head@, input.rewind_index@, 0);
        (
            Machine {
                state: State::Configuring(StateConfiguring { draft: updated }),
                slots: match screen {
                    Some(dialog) => m.slots.update(1, Some(Screen::Dialog(dialog))),
                    None => m.slots,
                },
                ..m
            },
            false,
        )
    }
}

/// The machine converging from its current state, and whether its result is
/// to be saved.
pub open spec fn spec_state_step<P>(m: Machine<P>, input: InputObservation, detected: Option<u32>) -> (Machine<P>, bool) {
    match m.state {
        State::Normal => spec_from_normal(m, input, detected),
        State::Configuring(configuring) => spec_from_configuring(m, configuring.draft, input),
        State::Calibrating(calibrating) => spec_from_calibrating(m, calibrating, input),
        State::Mapping(mapping) => spec_from_mapping(m, mapping.input, input),
    }
}

/// One cycle of the state machine, and whether its result is to be saved.
pub open spec fn spec_converged<P>(m: Machine<P>, input: InputObservation, detected: Option<u32>) -> (Machine<P>, bool) {
    let (next, save) = spec_state_step(spec_plugged_in(m, input), input, detected);
    (next, unmapping_needed(m.mapping, unplugged_of(input)) || save)
}

/// A detector's trigger ages, tempo and detection flag after it was
/// possibly reset and then possibly triggered.
pub open spec fn spec_detection(
    current: (Seq<u32>, Option<u32>, bool),
    reset: bool,
    triggered: bool,
) -> (Seq<u32>, Option<u32>, bool) {
    let (ages, tempo, just_detected) = if reset {
        (seq![0u32, 0u32, 0u32], None, false)
    } else {
        current
    };
    if triggered {
        (
            seq![ages[1], ages[2], 0u32],
            if forms_clock(ages) {
                Some(ages[2])
            } else {
                None
            },
            forms_clock(ages),
        )
    } else {
        (ages, tempo, just_detected)
    }
}

/// Trigger ages, tempo and detection flag of a clock detector.
pub open spec fn clock_state(detector: TapClockDetector) -> (Seq<u32>, Option<u32>, bool) {
    (detector.ages(), detector.spec_tempo(), detector.spec_just_detected())
}

/// Trigger ages, tempo and detection flag of the tap detector.
pub open spec fn tap_state(detector: TapDetector) -> (Seq<u32>, Option<u32>, bool) {
    (detector.ages(), detector.spec_tempo(), detector.spec_just_detected())
}

/// Whether the clock detector of a control starts over: the control is
/// unplugged or its signal is low.
pub open spec fn clock_reset(input: InputObservation, i: int) -> bool {
    !input.control_is_plugged[i] || input.control_low[i]
}

/// An option chosen by holding the button while moving a pot: the position
/// of the pot selects it.
#[derive(Debug, Clone, Copy)]
pub enum OptionSelection {
    /// The pre-amp pot: its upper half turns the pre-amp into an oscillator.
    Oscillator(bool),
    /// The speed pot picks the range of the delay.
    DelayRange(DelayRange),
    /// The wow and flutter pot picks where they act.
    WowFlutterPlacement(WowFlutterPlacement),
    /// The drive pot at its top lifts the limit of the bias.
    Unlimited(bool),
}

/// The options with the selection applied.
pub open spec fn spec_selected(options: Options, selection: OptionSelection) -> Options {
    match selection {
        OptionSelection::Oscillator(enable) => Options { enable_oscillator: enable, ..options },
        OptionSelection::DelayRange(range) => Options { delay_range: range, ..options },
        OptionSelection::WowFlutterPlacement(placement) => Options {
            wow_flutter_placement: placement,
            ..options
        },
        OptionSelection::Unlimited(unlimited) => Options { unlimited, ..options },
    }
}

/// The menu confirming the selection.
pub open spec fn spec_selection_screen(selection: OptionSelection) -> AltAttributeScreen {
    match selection {
        OptionSelection::Oscillator(enable) => AltAttributeScreen::PreAmpMode(
            if enable {
                PreAmpMode::Oscillator
            } else {
                PreAmpMode::PreAmp
            },
        ),
        OptionSelection::DelayRange(range) => AltAttributeScreen::SpeedRange(
            match range {
                DelayRange::Long => SpeedRange::Long,
                DelayRange::Short => SpeedRange::Short,
                DelayRange::Audio => SpeedRange::Audio,
            },
        ),
        OptionSelection::WowFlutterPlacement(placement) => AltAttributeScreen::WowFlutterPlacement(
            match placement {
                WowFlutterPlacement::Input => crate::cache::display::WowFlutterPlacement::Input,
                WowFlutterPlacement::Read => crate::cache::display::WowFlutterPlacement::Read,
                WowFlutterPlacement::Both => crate::cache::display::WowFlutterPlacement::Both,
            },
        ),
        OptionSelection::Unlimited(unlimited) => AltAttributeScreen::HysteresisRange(
            if unlimited {
                HysteresisRange::Unlimited
            } else {
                HysteresisRange::Limited
            },
        ),
    }
}

/// The menu confirming the selection.
pub fn selection_screen(selection: OptionSelection) -> (screen: AltAttributeScreen)
    ensures
        screen == spec_selection_screen(selection),
{
    match selection {
        OptionSelection::Oscillator(enable) => AltAttributeScreen::PreAmpMode(
            if enable {
                PreAmpMode::Oscillator
            } else {
                PreAmpMode::PreAmp
            },
        ),
        OptionSelection::DelayRange(range) => AltAttributeScreen::SpeedRange(
            match range {
                DelayRange::Long => SpeedRange::Long,
                DelayRange::Short => SpeedRange::Short,
                DelayRange::Audio => SpeedRange::Audio,
            },
        ),
        OptionSelection::WowFlutterPlacement(placement) => AltAttributeScreen::WowFlutterPlacement(
            match placement {
                WowFlutterPlacement::Input => crate::cache::display::WowFlutterPlacement::Input,
                WowFlutterPlacement::Read => crate::cache::display::WowFlutterPlacement::Read,
                WowFlutterPlacement::Both => crate::cache::display::WowFlutterPlacement::Both,
            },
        ),
        OptionSelection::Unlimited(unlimited) => AltAttributeScreen::HysteresisRange(
            if unlimited {
                HysteresisRange::Unlimited
            } else {
                HysteresisRange::Limited
            },
        ),
    }
}

/// Where the delay takes its tempo from.
#[derive(Debug, Clone, Copy, PartialEq, Eq)]
pub enum TempoSource {
    /// A clock detected on the control mapped to the speed, in cycles.
    Clock(u32),
    /// A tempo tapped in with the button, in cycles.
    Tapped(u32),
    /// The speed pot and its control.
    Pot,
}

/// Appending an action of one of the first `n` controls keeps the line's
/// actions on those controls.
pub proof fn lemma_push_capped_below(line: Seq<ControlAction>, action: ControlAction, n: int)
    requires
        controls_below(line, n),
        action.control_of() < n,
    ensures
        controls_below(push_capped(line, action), n),
{
    if line.len() < crate::action::QUEUE_CAPACITY {
        assert forall|k: int| 0 <= k < push_capped(line, action).len() implies #[trigger] push_capped(
            line,
            action,
        )[k].control_of() < n by {
            if k < line.len() {
                assert(push_capped(line, action)[k] == line[k]);
            }
        }
    }
}

/// Whether some control is mapped to `attribute`.
pub fn mapping_contains(mapping: &[AttributeIdentifier; 4], attribute: &AttributeIdentifier) -> (found: bool)
    ensures
        found == mapping@.contains(*attribute),
{
    let mut i: usize = 0;
    while i < 4
        invariant
            i <= 4,
            forall|j: int| 0 <= j < i ==> mapping@[j] != *attribute,
        decreases 4 - i,
    {
        if mapping[i] == *attribute {
            assert(mapping@[i as int] == *attribute);
            return true;
        }
        i = i + 1;
    }
    false
}

/// The first control mapped to `attribute`, if any.
pub open spec fn spec_control_for(mapping: Seq<AttributeIdentifier>, attribute: AttributeIdentifier) -> Option<usize> {
    if exists|i: int| 0 <= i < mapping.len() && mapping[i] == attribute {
        let i = choose|i: int|
            0 <= i < mapping.len() && mapping[i] == attribute && forall|j: int|
                0 <= j < i ==> mapping[j] != attribute;
        Some(i as usize)
    } else {
        None
    }
}

/// The control state machine and the cache it keeps.
///
/// It takes an `InputObservation` of every cycle, interprets it into the
/// module configuration and manages the whole state machine of that.
#[derive(Debug)]
pub struct Store<P> {
    pub state: State,
    pub queue: Queue,
    pub cache: Cache<P>,
}

impl<P: Copy> Store<P> {
    pub open spec fn wf(&self) -> bool {
        &&& self.cache.wf()
        &&& valid_state(self.state)
        &&& controls_below(self.queue@, 4)
        &&& self.queue@.no_duplicates()
    }

    pub open spec fn machine(&self) -> Machine<P> {
        Machine {
            state: self.state,
            queue: self.queue@,
            mapping: self.cache.mapping@,
            calibrations: self.cache.calibrations@,
            configuration: self.cache.configuration,
            tapped_tempo: self.cache.tapped_tempo,
            slots: self.cache.display.slots(),
        }
    }

    /// The fields that the state machine leaves to the processor's reactions.
    pub open spec fn same_reactions(&self, other: &Self) -> bool {
        &&& self.cache.options == other.cache.options
        &&& self.cache.impulse_trigger == other.cache.impulse_trigger
        &&& self.cache.impulse_led == other.cache.impulse_led
    }

    pub fn new() -> (store: Self)
        ensures
            store.wf(),
            store.state is Normal,
            store.queue@ == Seq::<ControlAction>::empty(),
            forall|i: int| 0 <= i < 4 ==> store.cache.mapping@[i] == AttributeIdentifier::Unmapped,
            forall|i: int|
                0 <= i < 4 ==> #[trigger] store.cache.calibrations@[i] == StoredCalibration::new_spec(),
            store.cache.options.is_default(),
            store.cache.configuration.is_default(),
            store.cache.tapped_tempo.is_none(),
            store.cache.tap_detector.spec_tempo().is_none(),
            forall|i: int|
                0 <= i < 4 ==> #[trigger] store.cache.clock_detectors@[i].spec_tempo().is_none(),
            store.cache.display.has_active(),
            store.cache.display.slots() == seq![
                None,
                None,
                None,
                None,
                None,
                None,
                None,
                Some(Screen::<P>::Attribute(0, AttributeScreen::Position(0))),
            ],
            store.cache.impulse_trigger.spec_since() == 0,
            store.cache.impulse_led.spec_since() == 0,
            store.cache.tap_detector.ages() == seq![0u32, 0u32, 0u32],
            !store.cache.tap_detector.spec_just_detected(),
            forall|i: int|
                0 <= i < 4 ==> #[trigger] store.cache.clock_detectors@[i].ages() == seq![0u32, 0u32, 0u32],
            forall|i: int|
                0 <= i < 4 ==> #[trigger] store.cache.clock_detectors@[i].spec_tempo().is_none(),
            forall|i: int|
                0 <= i < 4 ==> !#[trigger] store.cache.clock_detectors@[i].spec_just_detected(),
    {
        Store { state: State::Normal, queue: Queue::new(), cache: Cache::new() }
    }

    /// A store that starts from saved settings: the mapping, calibrations,
    /// configuration and tapped tempo are restored; the options start at
    /// their defaults.
    pub fn from_save(save: Save) -> (store: Self)
        ensures
            store.wf(),
            store.state is Normal,
            store.queue@ == Seq::<ControlAction>::empty(),
            store.cache.mapping == save.mapping,
            store.cache.calibrations == save.calibrations,
            store.cache.configuration == save.configuration,
            store.cache.tapped_tempo == save.tapped_tempo,
            store.cache.options.is_default(),
            store.cache.tap_detector.spec_tempo().is_none(),
            store.cache.display.has_active(),
            store.cache.display.slots() == seq![
                None,
                None,
                None,
                None,
                None,
                None,
                None,
                Some(Screen::<P>::Attribute(0, AttributeScreen::Position(0))),
            ],
            store.cache.impulse_trigger.spec_since() == 0,
            store.cache.impulse_led.spec_since() == 0,
            store.cache.tap_detector.ages() == seq![0u32, 0u32, 0u32],
            !store.cache.tap_detector.spec_just_detected(),
            forall|i: int|
                0 <= i < 4 ==> #[trigger] store.cache.clock_detectors@[i].ages() == seq![0u32, 0u32, 0u32],
            forall|i: int|
                0 <= i < 4 ==> #[trigger] store.cache.clock_detectors@[i].spec_tempo().is_none(),
            forall|i: int|
                0 <= i < 4 ==> !#[trigger] store.cache.clock_detectors@[i].spec_just_detected(),

    {
        let mut store = Self::new();
        store.cache.mapping = save.mapping;
        store.cache.calibrations = save.calibrations;
        store.cache.configuration = save.configuration;
        store.cache.tapped_tempo = save.tapped_tempo;
        store
    }

    /// The control and the bit pattern of its first octave when a calibration
    /// waits for its second octave.
    pub fn pending_calibration(&self) -> (pending: Option<(usize, u32)>)
        ensures
            pending == (match self.state {
                State::Calibrating(
                    StateCalibrating { input, phase: CalibrationPhase::Octave2(octave_1) },
                ) => Some((input, octave_1)),
                _ => None,
            }),
    {
        match self.state {
            State::Calibrating(calibrating) => match calibrating.phase {
                CalibrationPhase::Octave2(octave_1) => Some((calibrating.input, octave_1)),
                CalibrationPhase::Octave1 => None,
            },
            _ => None,
        }
    }

    /// The first control mapped to `attribute`, if any.
    pub fn control_index_for_attribute(&self, attribute: AttributeIdentifier) -> (index: Option<usize>)
        ensures
            index == spec_control_for(self.cache.mapping@, attribute),
    {
        let mut i: usize = 0;
        while i < 4
            invariant
                i <= 4,
                forall|j: int| 0 <= j < i ==> self.cache.mapping@[j] != attribute,
            decreases 4 - i,
        {
            if self.cache.mapping[i] == attribute {
                assert(self.cache.mapping@[i as int] == attribute);
                let ghost chosen = choose|k: int|
                    0 <= k < self.cache.mapping@.len() && self.cache.mapping@[k] == attribute
                        && forall|j: int| 0 <= j < k ==> self.cache.mapping@[j] != attribute;
                assert(chosen == i) by {
                    if chosen < i {
                    } else if chosen > i {
                        assert(self.cache.mapping@[i as int] != attribute);
                    }
                }
                return Some(i);
            }
            i = i + 1;
        }
        None
    }

    /// Drops the actions of the unplugged controls from the queue.
    fn dequeue_controls(&mut self, unplugged: &heapless::Vec<usize, 4>)
        requires
            controls_below(old(self).queue@, 4),
            old(self).queue@.no_duplicates(),
        ensures
            final(self).queue@ == spec_dequeued(old(self).queue@, listed_controls(*unplugged)),
            controls_below(final(self).queue@, 4),
            final(self).queue@.no_duplicates(),
            final(self).state == old(self).state,
            final(self).cache == old(self).cache,
    {
        let ghost list = listed_controls(*unplugged);
        let n = controls_len(unplugged);
        let mut k: usize = 0;
        while k < n
            invariant
                n == list.len(),
                k <= n,
                list == listed_controls(*unplugged),
                self.queue@ == spec_dequeued(old(self).queue@, list.subrange(0, k as int)),
                controls_below(self.queue@, 4),
                self.queue@.no_duplicates(),
                self.state == old(self).state,
                self.cache == old(self).cache,
            decreases n - k,
        {
            let i = controls_get(unplugged, k);
            proof {
                lemma_without_control_below(self.queue@, i, 4);
                lemma_filter_no_duplicates(self.queue@, |a: ControlAction| keeps_action(a, i));
                let next = list.subrange(0, k + 1);
                assert(next.drop_last() =~= list.subrange(0, k as int));
                assert(next.last() == i);
            }
            self.queue.remove_control(i);
            k = k + 1;
        }
        assert(list.subrange(0, n as int) =~= list);
    }

    /// Puts the actions that the plugged controls ask for into the queue.
    fn enqueue_controls(&mut self, plugged: &heapless::Vec<usize, 4>, pressed: bool)
        requires
            controls_below(old(self).queue@, 4),
            old(self).queue@.no_duplicates(),
            forall|k: int|
                0 <= k < listed_controls(*plugged).len() ==> #[trigger] listed_controls(*plugged)[k]
                    < 4,
        ensures
            final(self).queue@ == spec_enqueued(
                old(self).queue@,
                listed_controls(*plugged),
                pressed,
                old(self).cache.mapping@,
            ),
            controls_below(final(self).queue@, 4),
            final(self).queue@.no_duplicates(),
            final(self).state == old(self).state,
            final(self).cache == old(self).cache,
    {
        let ghost list = listed_controls(*plugged);
        let n = controls_len(plugged);
        let mut k: usize = 0;
        while k < n
            invariant
                n == list.len(),
                k <= n,
                list == listed_controls(*plugged),
                forall|j: int| 0 <= j < list.len() ==> #[trigger] list[j] < 4,
                self.queue@ == spec_enqueued(
                    old(self).queue@,
                    list.subrange(0, k as int),
                    pressed,
                    self.cache.mapping@,
                ),
                controls_below(self.queue@, 4),
                self.queue@.no_duplicates(),
                self.state == old(self).state,
                self.cache == old(self).cache,
            decreases n - k,
        {
            let i = controls_get(plugged, k);
            let ghost before = self.queue@;
            proof {
                let next = list.subrange(0, k + 1);
                assert(next.drop_last() =~= list.subrange(0, k as int));
                assert(next.last() == i);
                lemma_without_control_below(before, i, 4);
                lemma_room_for_control(
                    before,
                    i,
                    pressed,
                    self.cache.mapping@[i as int] == AttributeIdentifier::Unmapped,
                );
            }
            self.queue.remove_control(i);
            if pressed {
                proof {
                    lemma_push_capped_below(self.queue@, ControlAction::Calibrate(i), 4);
                }
                self.queue.push(ControlAction::Calibrate(i));
            }
            if self.cache.mapping[i].is_none() {
                proof {
                    lemma_push_capped_below(self.queue@, ControlAction::Mapping(i), 4);
                }
                self.queue.push(ControlAction::Mapping(i));
            }
            assert(self.queue@ == spec_enqueued_control(before, i, pressed, self.cache.mapping@));
            k = k + 1;
        }
        assert(list.subrange(0, n as int) =~= list);
    }

    /// Reads a tempo tapped in with the button: it is kept and saved, unless
    /// the speed pot is being turned, which drops it.
    fn detect_tapped_tempo(&mut self, input: &InputObservation, needs_save: &mut bool)
        requires
            old(self).wf(),
        ensures
            final(self).wf(),
            ({
                let (tapped_tempo, save) = spec_tapped(
                    old(self).cache.tapped_tempo,
                    input.pots.speed,
                    old(self).cache.tap_detector.spec_tempo(),
                );
                &&& final(self).machine() == (Machine { tapped_tempo, ..old(self).machine() })
                &&& *final(needs_save) == (*old(needs_save) || save)
            }),
            old(self).cache.tap_detector.spec_tempo() is Some && input.pots.speed ==> {
                &&& final(self).cache.tap_detector.ages() == seq![0u32, 0u32, 0u32]
                &&& final(self).cache.tap_detector.spec_tempo().is_none()
                &&& !final(self).cache.tap_detector.spec_just_detected()
            },
            !(old(self).cache.tap_detector.spec_tempo() is Some && input.pots.speed)
                ==> final(self).cache.tap_detector == old(self).cache.tap_detector,
            final(self).cache.clock_detectors == old(self).cache.clock_detectors,
            final(self).same_reactions(&*old(self)),
    {
        if let Some(detected_tempo) = self.cache.tap_detector.detected_tempo() {
            if input.pots.speed {
                self.cache.tap_detector.reset();
                self.cache.tapped_tempo = None;
            } else {
                *needs_save = true;
                self.cache.tapped_tempo = Some(detected_tempo);
            }
        }
        assert(self.machine() =~= Machine {
            tapped_tempo: spec_tapped(
                old(self).cache.tapped_tempo,
                input.pots.speed,
                old(self).cache.tap_detector.spec_tempo(),
            ).0,
            ..old(self).machine()
        });
    }

    /// Starts the action at the head of the queue, or clears the dialog when
    /// none is pending.
    fn take_next_action(&mut self)
        requires
            old(self).wf(),
        ensures
            final(self).wf(),
            final(self).machine() == spec_next_action(old(self).machine()),
            final(self).cache.tap_detector == old(self).cache.tap_detector,
            final(self).cache.clock_detectors == old(self).cache.clock_detectors,
            final(self).same_reactions(&*old(self)),
    {
        let ghost m0 = self.machine();
        match self.queue.pop() {
            Some(ControlAction::Calibrate(i)) => {
                assert(m0.queue[0].control_of() < 4);
                self.state = State::calibrating_octave_1(i);
                self.cache.display.set_dialog(DialogScreen::calibration_1(i));
            },
            Some(ControlAction::Mapping(i)) => {
                assert(m0.queue[0].control_of() < 4);
                self.state = State::mapping(i);
                self.cache.display.set_dialog(DialogScreen::mapping(i));
            },
            None => {
                self.cache.display.reset_dialog();
            },
        }
        assert forall|k: int| 0 <= k < self.queue@.len() implies #[trigger] self.queue@[k].control_of() < 4 by {
            if m0.queue.len() > 0 {
                assert(self.queue@[k] == m0.queue[k + 1]);
            }
        }
        assert forall|x: int, y: int|
            0 <= x < self.queue@.len() && 0 <= y < self.queue@.len() && x != y implies self.queue@[x]
            != self.queue@[y] by {
            if m0.queue.len() > 0 {
                assert(self.queue@[x] == m0.queue[x + 1]);
                assert(self.queue@[y] == m0.queue[y + 1]);
            }
        }
        assert(self.machine() =~= spec_next_action(m0));
    }

    /// The normal state: reads the tapped tempo, then enters configuration
    /// on a long hold of the button, or takes the next pending action.
    fn converge_from_normal_state(&mut self, input: &InputObservation, needs_save: &mut bool)
        requires
            old(self).wf(),
            old(self).state is Normal,
        ensures
            final(self).wf(),
            final(self).machine() == spec_from_normal(
                old(self).machine(),
                *input,
                old(self).cache.tap_detector.spec_tempo(),
            ).0,
            *final(needs_save) == (*old(needs_save) || spec_from_normal(
                old(self).machine(),
                *input,
                old(self).cache.tap_detector.spec_tempo(),
            ).1),
            tap_reset(old(self).machine(), *input, old(self).cache.tap_detector.spec_tempo()) ==> {
                &&& final(self).cache.tap_detector.ages() == seq![0u32, 0u32, 0u32]
                &&& final(self).cache.tap_detector.spec_tempo().is_none()
                &&& !final(self).cache.tap_detector.spec_just_detected()
            },
            !tap_reset(old(self).machine(), *input, old(self).cache.tap_detector.spec_tempo())
                ==> final(self).cache.tap_detector == old(self).cache.tap_detector,
            final(self).cache.clock_detectors == old(self).cache.clock_detectors,
            final(self).same_reactions(&*old(self)),
    {
        let ghost m0 = self.machine();
        let ghost detected = self.cache.tap_detector.spec_tempo();
        self.detect_tapped_tempo(input, needs_save);
        if input.button_held > LONG_HOLD_CYCLES {
            self.state = State::configuring_from_draft(self.cache.configuration);
            self.cache.display.set_dialog(DialogScreen::configuration());
        } else {
            self.take_next_action();
        }
        assert(self.machine() =~= spec_from_normal(m0, *input, detected).0);
    }

    /// The mapping state: an unplugged control fails; the first turned pot
    /// whose attribute has no control yet gets this one.
    fn converge_from_mapping_state(&mut self, control: usize, input: &InputObservation, needs_save: &mut bool)
        requires
            old(self).wf(),
            old(self).state == State::Mapping(StateMapping { input: control }),
        ensures
            final(self).wf(),
            final(self).machine() == spec_from_mapping(old(self).machine(), control, *input).0,
            *final(needs_save) == (*old(needs_save) || spec_from_mapping(
                old(self).machine(),
                control,
                *input,
            ).1),
            final(self).cache.tap_detector == old(self).cache.tap_detector,
            final(self).cache.clock_detectors == old(self).cache.clock_detectors,
            final(self).same_reactions(&*old(self)),
    {
        let ghost m0 = self.machine();
        let destination = active_attribute(&input.pots);
        if !input.control_is_plugged[control] {
            self.cache.display.set_failure();
            self.state = State::Normal;
        } else if !destination.is_none() && !mapping_contains(&self.cache.mapping, &destination) {
            *needs_save = true;
            self.cache.mapping[control] = destination;
            self.state = State::Normal;
        }
        assert(self.machine() =~= spec_from_mapping(m0, control, *input).0);
    }

    /// The calibrating state: an unplugged control fails; a click takes the
    /// first octave, a second one stores the calibration or fails.
    fn converge_from_calibrating_state(
        &mut self,
        calibrating: StateCalibrating,
        input: &InputObservation,
        needs_save: &mut bool,
    )
        requires
            old(self).wf(),
            old(self).state == State::Calibrating(calibrating),
        ensures
            final(self).wf(),
            final(self).machine() == spec_from_calibrating(old(self).machine(), calibrating, *input).0,
            *final(needs_save) == (*old(needs_save) || spec_from_calibrating(
                old(self).machine(),
                calibrating,
                *input,
            ).1),
            final(self).cache.tap_detector == old(self).cache.tap_detector,
            final(self).cache.clock_detectors == old(self).cache.clock_detectors,
            final(self).same_reactions(&*old(self)),
    {
        let ghost m0 = self.machine();
        let control = calibrating.input;
        if !input.control_is_plugged[control] {
            self.cache.display.set_failure();
            self.state = State::Normal;
        } else if input.button_clicked {
            match calibrating.phase {
                CalibrationPhase::Octave1 => {
                    let octave_1 = input.control_value[control];
                    self.state = State::calibrating_octave_2(control, octave_1);
                    self.cache.display.set_dialog(DialogScreen::calibration_2(control));
                },
                CalibrationPhase::Octave2(_) => {
                    match input.calibration {
                        Some(calibration) => {
                            *needs_save = true;
                            self.cache.calibrations[control] = calibration;
                        },
                        None => {
                            self.cache.display.set_failure();
                        },
                    }
                    self.state = State::Normal;
                },
            }
        }
        assert(self.machine() =~= spec_from_calibrating(m0, calibrating, *input).0);
    }

    /// The configuring state: a click applies the draft and saves it;
    /// otherwise the heads' pots update the draft.
    fn converge_from_configuring_state(
        &mut self,
        configuring: StateConfiguring,
        input: &InputObservation,
        needs_save: &mut bool,
    )
        requires
            old(self).wf(),
            old(self).state == State::Configuring(configuring),
        ensures
            final(self).wf(),
            final(self).machine() == spec_from_configuring(
                old(self).machine(),
                configuring.draft,
                *input,
            ).0,
            *final(needs_save) == (*old(needs_save) || spec_from_configuring(
                old(self).machine(),
                configuring.draft,
                *input,
            ).1),
            final(self).cache.tap_detector == old(self).cache.tap_detector,
            final(self).cache.clock_detectors == old(self).cache.clock_detectors,
            final(self).same_reactions(&*old(self)),
    {
        let ghost m0 = self.machine();
        if input.button_clicked {
            *needs_save = true;
            self.cache.configuration = configuring.draft;
            self.state = State::Normal;
        } else {
            let (draft, screen) = updated_configuration_draft(
                configuring.draft,
                &input.pots.head,
                &input.rewind_index,
            );
            if let Some(dialog) = screen {
                self.cache.display.set_dialog(dialog);
            }
            self.state = State::configuring_from_draft(draft);
        }
        assert(self.machine() =~= spec_from_configuring(m0, configuring.draft, *input).0);
    }

    /// Feeds the detectors: a click triggers the tap detector; a control's
    /// clock detector starts over when the control is unplugged or low, and
    /// is triggered on a rising edge.
    fn reconcile_detectors(&mut self, input: &InputObservation)
        requires
            old(self).wf(),
        ensures
            final(self).wf(),
            final(self).machine() == old(self).machine(),
            final(self).same_reactions(&*old(self)),
            tap_state(final(self).cache.tap_detector) == spec_detection(
                tap_state(old(self).cache.tap_detector),
                false,
                input.button_clicked,
            ),
            forall|i: int|
                0 <= i < 4 ==> #[trigger] clock_state(final(self).cache.clock_detectors@[i])
                    == spec_detection(
                    clock_state(old(self).cache.clock_detectors@[i]),
                    clock_reset(*input, i),
                    input.control_triggered[i],
                ),
    {
        if input.button_clicked {
            self.cache.tap_detector.trigger();
        }
        let ghost tapped = self.cache.tap_detector;
        let mut i: usize = 0;
        while i < 4
            invariant
                i <= 4,
                self.state == old(self).state,
                self.queue == old(self).queue,
                self.cache.mapping == old(self).cache.mapping,
                self.cache.calibrations == old(self).cache.calibrations,
                self.cache.options == old(self).cache.options,
                self.cache.configuration == old(self).cache.configuration,
                self.cache.tapped_tempo == old(self).cache.tapped_tempo,
                self.cache.impulse_trigger == old(self).cache.impulse_trigger,
                self.cache.impulse_led == old(self).cache.impulse_led,
                self.cache.display == old(self).cache.display,
                self.cache.tap_detector == tapped,
                tapped.wf(),
                tap_state(tapped) == spec_detection(
                    tap_state(old(self).cache.tap_detector),
                    false,
                    input.button_clicked,
                ),
                forall|j: int| 0 <= j < 4 ==> #[trigger] old(self).cache.clock_detectors@[j].wf(),
                forall|j: int| 0 <= j < 4 ==> #[trigger] self.cache.clock_detectors@[j].wf(),
                forall|j: int|
                    0 <= j < i ==> #[trigger] clock_state(self.cache.clock_detectors@[j])
                        == spec_detection(
                        clock_state(old(self).cache.clock_detectors@[j]),
                        clock_reset(*input, j),
                        input.control_triggered[j],
                    ),
                forall|j: int|
                    i <= j < 4 ==> #[trigger] self.cache.clock_detectors@[j]
                        == old(self).cache.clock_detectors@[j],
            decreases 4 - i,
        {
            let mut detector = self.cache.clock_detectors[i];
            if !input.control_is_plugged[i] || input.control_low[i] {
                detector.reset();
            }
            if input.control_triggered[i] {
                detector.trigger();
            }
            self.cache.clock_detectors[i] = detector;
            i = i + 1;
        }
        assert(self.machine() =~= old(self).machine());
    }

    /// Unmaps and dequeues the unplugged controls and queues what the
    /// plugged ones ask for.
    fn plug_controls(&mut self, input: &InputObservation, needs_save: &mut bool)
        requires
            old(self).wf(),
        ensures
            final(self).wf(),
            final(self).machine() == spec_plugged_in(old(self).machine(), *input),
            *final(needs_save) == (*old(needs_save) || unmapping_needed(
                old(self).machine().mapping,
                unplugged_of(*input),
            )),
            final(self).cache.tap_detector == old(self).cache.tap_detector,
            final(self).cache.clock_detectors == old(self).cache.clock_detectors,
            final(self).same_reactions(&*old(self)),
    {
        let ghost m0 = self.machine();
        let plugged = controls_where(&input.control_was_plugged);
        let unplugged = controls_where(&input.control_was_unplugged);
        proof {
            lemma_indices_where(input.control_was_plugged@, 4);
            lemma_indices_where(input.control_was_unplugged@, 4);
        }
        self.cache.unmap_controls(&unplugged, needs_save);
        assert(self.cache.mapping@ =~= spec_unmapped(m0.mapping, unplugged_of(*input)));
        self.dequeue_controls(&unplugged);
        self.enqueue_controls(&plugged, input.button_pressed);
        assert(self.machine() =~= spec_plugged_in(m0, *input));
    }

    /// Converges the machine from its current state.
    fn converge_state(&mut self, input: &InputObservation, needs_save: &mut bool)
        requires
            old(self).wf(),
        ensures
            final(self).wf(),
            final(self).machine() == spec_state_step(
                old(self).machine(),
                *input,
                old(self).cache.tap_detector.spec_tempo(),
            ).0,
            *final(needs_save) == (*old(needs_save) || spec_state_step(
                old(self).machine(),
                *input,
                old(self).cache.tap_detector.spec_tempo(),
            ).1),
            tap_state(final(self).cache.tap_detector) == (if tap_reset(
                old(self).machine(),
                *input,
                old(self).cache.tap_detector.spec_tempo(),
            ) {
                (seq![0u32, 0u32, 0u32], None, false)
            } else {
                tap_state(old(self).cache.tap_detector)
            }),
            final(self).cache.tap_detector.wf(),
            final(self).cache.clock_detectors == old(self).cache.clock_detectors,
            final(self).same_reactions(&*old(self)),
    {
        match self.state {
            State::Normal => {
                self.converge_from_normal_state(input, needs_save);
            },
            State::Configuring(configuring) => {
                self.converge_from_configuring_state(configuring, input, needs_save);
            },
            State::Calibrating(calibrating) => {
                self.converge_from_calibrating_state(calibrating, input, needs_save);
            },
            State::Mapping(mapping) => {
                self.converge_from_mapping_state(mapping.input, input, needs_save);
            },
        }
    }

    /// One cycle of the state machine: unmaps and dequeues the unplugged
    /// controls, queues what the plugged ones ask for, converges the state
    /// and feeds the detectors. Returns the settings to save when they
    /// changed.
    pub fn converge_internal_state(&mut self, input: &InputObservation) -> (save: Option<Save>)
        requires
            old(self).wf(),
        ensures
            final(self).wf(),
            final(self).machine() == spec_converged(
                old(self).machine(),
                *input,
                old(self).cache.tap_detector.spec_tempo(),
            ).0,
            save == (if spec_converged(
                old(self).machine(),
                *input,
                old(self).cache.tap_detector.spec_tempo(),
            ).1 {
                Some(final(self).cache.spec_save())
            } else {
                None
            }),
            tap_state(final(self).cache.tap_detector) == spec_detection(
                tap_state(old(self).cache.tap_detector),
                tap_reset(old(self).machine(), *input, old(self).cache.tap_detector.spec_tempo()),
                input.button_clicked,
            ),
            forall|i: int|
                0 <= i < 4 ==> #[trigger] clock_state(final(self).cache.clock_detectors@[i])
                    == spec_detection(
                    clock_state(old(self).cache.clock_detectors@[i]),
                    clock_reset(*input, i),
                    input.control_triggered[i],
                ),
            final(self).same_reactions(&*old(self)),
    {
        let ghost m0 = self.machine();
        let ghost detected = self.cache.tap_detector.spec_tempo();
        let ghost tap0 = tap_state(self.cache.tap_detector);
        let mut needs_save = false;
        self.plug_controls(input, &mut needs_save);
        self.converge_state(input, &mut needs_save);
        assert(tap_reset(spec_plugged_in(m0, *input), *input, detected) == tap_reset(m0, *input, detected));
        let ghost tap1 = tap_state(self.cache.tap_detector);
        self.reconcile_detectors(input);
        assert(spec_detection(tap1, false, input.button_clicked) == spec_detection(
            tap0,
            tap_reset(m0, *input, detected),
            input.button_clicked,
        ));
        if needs_save {
            Some(self.cache.save())
        } else {
            None
        }
    }

    /// Applies an option selected by holding the button while moving a pot:
    /// the option is set, its menu shown, and a change marked to be saved.
    pub fn select_option(&mut self, selection: OptionSelection, needs_save: &mut bool)
        requires
            old(self).wf(),
        ensures
            final(self).wf(),
            final(self).cache.options == spec_selected(old(self).cache.options, selection),
            final(self).machine() == (Machine {
                slots: old(self).machine().slots.update(
                    2,
                    Some(Screen::AltAttribute(0, spec_selection_screen(selection))),
                ),
                ..old(self).machine()
            }),
            *final(needs_save) == (*old(needs_save) || final(self).cache.options
                != old(self).cache.options),
            final(self).cache.tap_detector == old(self).cache.tap_detector,
            final(self).cache.clock_detectors == old(self).cache.clock_detectors,
            final(self).cache.impulse_trigger == old(self).cache.impulse_trigger,
            final(self).cache.impulse_led == old(self).cache.impulse_led,
    {
        let changed = match selection {
            OptionSelection::Oscillator(enable) => {
                let changed = self.cache.options.enable_oscillator != enable;
                self.cache.options.enable_oscillator = enable;
                changed
            },
            OptionSelection::DelayRange(range) => {
                let changed = self.cache.options.delay_range != range;
                self.cache.options.delay_range = range;
                changed
            },
            OptionSelection::WowFlutterPlacement(placement) => {
                let changed = self.cache.options.wow_flutter_placement != placement;
                self.cache.options.wow_flutter_placement = placement;
                changed
            },
            OptionSelection::Unlimited(unlimited) => {
                let changed = self.cache.options.unlimited != unlimited;
                self.cache.options.unlimited = unlimited;
                changed
            },
        };
        if changed {
            *needs_save = true;
        }
        self.cache.display.set_alt_menu(selection_screen(selection));
        assert(self.machine() =~= (Machine {
            slots: old(self).machine().slots.update(
                2,
                Some(Screen::AltAttribute(0, spec_selection_screen(selection))),
            ),
            ..old(self).machine()
        }));
    }

    /// Where the delay takes its tempo from, and whether the delay's impulse
    /// is to be reset: a clock detected on the control mapped to the speed
    /// goes first, then a tapped tempo, then the pot. The impulse is reset
    /// when that clock or the tap detector just detected a tempo.
    pub fn tempo_source(&self) -> (source: (TempoSource, bool))
        requires
            self.wf(),
        ensures
            ({
                let control = spec_control_for(self.cache.mapping@, AttributeIdentifier::Speed);
                let clock_tempo = match control {
                    Some(i) => self.cache.clock_detectors@[i as int].spec_tempo(),
                    None => None,
                };
                let clock_just_detected = match control {
                    Some(i) => self.cache.clock_detectors@[i as int].spec_just_detected(),
                    None => false,
                };
                &&& source.0 == (match clock_tempo {
                    Some(tempo) => TempoSource::Clock(tempo),
                    None => match self.cache.tapped_tempo {
                        Some(tempo) => TempoSource::Tapped(tempo),
                        None => TempoSource::Pot,
                    },
                })
                &&& source.1 == (clock_just_detected || self.cache.tap_detector.spec_just_detected())
            }),
    {
        let control = self.control_index_for_attribute(AttributeIdentifier::Speed);
        let (clock_tempo, clock_just_detected) = match control {
            Some(i) => {
                proof {
                    let chosen = choose|k: int|
                        0 <= k < self.cache.mapping@.len() && self.cache.mapping@[k]
                            == AttributeIdentifier::Speed && forall|j: int|
                            0 <= j < k ==> self.cache.mapping@[j] != AttributeIdentifier::Speed;
                    assert(i == chosen as usize);
                }
                let detector = &self.cache.clock_detectors[i];
                (detector.detected_tempo(), detector.just_detected())
            },
            None => (None, false),
        };
        let reset_impulse = clock_just_detected || self.cache.tap_detector.just_detected();
        let source = match clock_tempo {
            Some(tempo) => TempoSource::Clock(tempo),
            None => match self.cache.tapped_tempo {
                Some(tempo) => TempoSource::Tapped(tempo),
                None => TempoSource::Pot,
            },
        };
        (source, reset_impulse)
    }

    /// Reacts to the processor: an impulse of the delay is sent out as a
    /// trigger and lights the impulse LED.
    pub fn apply_dsp_reaction(&mut self, delay_impulse: bool)
        requires
            old(self).wf(),
        ensures
            final(self).wf(),
            final(self).machine() == old(self).machine(),
            final(self).cache.options == old(self).cache.options,
            delay_impulse ==> final(self).cache.impulse_trigger.spec_since() == 0
                && final(self).cache.impulse_led.spec_since() == 0,
            !delay_impulse ==> final(self).cache.impulse_trigger == old(self).cache.impulse_trigger
                && final(self).cache.impulse_led == old(self).cache.impulse_led,
    {
        self.cache.apply_dsp_reaction(delay_impulse);
        assert(self.machine() =~= old(self).machine());
    }

    /// Reports the outputs of this cycle, with the given display LEDs, then
    /// advances all timers by one cycle.
    pub fn tick(&mut self, display: [bool; 8]) -> (output: DesiredOutput)
        requires
            old(self).wf(),
        ensures
            final(self).wf(),
            output.display == display,
            output.impulse_trigger == (old(self).cache.impulse_trigger.spec_since()
                < crate::cache::trigger::TRIGGER_UP_CYCLES),
            output.impulse_led == (old(self).cache.impulse_led.spec_since()
                < crate::led::LED_LIT_CYCLES),
            final(self).cache.impulse_trigger.spec_since()
                == old(self).cache.impulse_trigger.spec_since().saturating_add(1),
            final(self).cache.impulse_led.spec_since()
                == old(self).cache.impulse_led.spec_since().saturating_add(1),
            final(self).cache.options == old(self).cache.options,
            final(self).machine() == (Machine {
                slots: crate::cache::display::spec_ticked_slots(old(self).machine().slots),
                ..old(self).machine()
            }),
            final(self).cache.tap_detector.ages() == crate::clock::aged(
                old(self).cache.tap_detector.ages(),
            ),
            final(self).cache.tap_detector.spec_tempo() == old(self).cache.tap_detector.spec_tempo(),
            forall|i: int|
                0 <= i < 4 ==> #[trigger] final(self).cache.clock_detectors@[i].ages()
                    == crate::clock::aged(old(self).cache.clock_detectors@[i].ages()),
            forall|i: int|
                0 <= i < 4 ==> #[trigger] final(self).cache.clock_detectors@[i].spec_tempo()
                    == old(self).cache.clock_detectors@[i].spec_tempo(),
    {
        let output = self.cache.tick(display);
        assert(self.machine() =~= (Machine {
            slots: crate::cache::display::spec_ticked_slots(old(self).machine().slots),
            ..old(self).machine()
        }));
        output
    }
}

impl<P: Copy> Default for Store<P> {
    fn default() -> (store: Self)
        ensures
            store.wf(),
            store.state is Normal,
            store.queue@ == Seq::<ControlAction>::empty(),
            store.cache.tapped_tempo.is_none(),
    {
        Self::new()
    }
}

/// No two controls are mapped to the same attribute.
pub open spec fn distinct_mapping(mapping: Seq<AttributeIdentifier>) -> bool {
    forall|i: int, j: int|
        0 <= i < mapping.len() && 0 <= j < mapping.len() && i != j && mapping[i]
            != AttributeIdentifier::Unmapped ==> #[trigger] mapping[i] != #[trigger] mapping[j]
}

/// A control never gets an attribute that another control already has: one
/// cycle of the state machine keeps the mapping free of duplicates.
pub proof fn lemma_mapping_stays_distinct<P>(m: Machine<P>, input: InputObservation, detected: Option<u32>)
    requires
        m.mapping.len() == 4,
        valid_state(m.state),
        distinct_mapping(m.mapping),
    ensures
        distinct_mapping(spec_converged(m, input, detected).0.mapping),
{
    let plugged_in = spec_plugged_in(m, input);
    let mapping = plugged_in.mapping;
    assert(distinct_mapping(mapping)) by {
        assert forall|i: int, j: int|
            0 <= i < mapping.len() && 0 <= j < mapping.len() && i != j && mapping[i]
                != AttributeIdentifier::Unmapped implies #[trigger] mapping[i] != #[trigger] mapping[j] by {
            assert(mapping[i] == m.mapping[i]);
            if mapping[j] != AttributeIdentifier::Unmapped {
                assert(mapping[j] == m.mapping[j]);
            }
        }
    }
    let next = spec_converged(m, input, detected).0;
    match plugged_in.state {
        State::Mapping(mapping_state) => {
            let control = mapping_state.input;
            let destination = spec_active_attribute(input.pots);
            assert(next == spec_state_step(plugged_in, input, detected).0);
            if input.control_is_plugged[control as int] && destination != AttributeIdentifier::Unmapped
                && !mapping.contains(destination) {
                assert(next.mapping == mapping.update(control as int, destination));
                assert forall|i: int, j: int|
                    0 <= i < next.mapping.len() && 0 <= j < next.mapping.len() && i != j
                        && next.mapping[i] != AttributeIdentifier::Unmapped implies #[trigger] next.mapping[i]
                        != #[trigger] next.mapping[j] by {
                    if i == control {
                        assert(next.mapping[j] == mapping[j]);
                        if next.mapping[i] == next.mapping[j] {
                            assert(mapping[j] == destination);
                            assert(mapping.contains(destination));
                        }
                    } else if j == control {
                        assert(next.mapping[i] == mapping[i]);
                        if next.mapping[i] == next.mapping[j] {
                            assert(mapping[i] == destination);
                            assert(mapping.contains(destination));
                        }
                    } else {
                        assert(next.mapping[i] == mapping[i]);
                        assert(next.mapping[j] == mapping[j]);
                    }
                }
            }
        },
        _ => {},
    }
}

pub proof fn lemma_dequeued_free(line: Seq<ControlAction>, unplugged: Seq<usize>, i: usize)
    requires
        unplugged.contains(i) || free_of(line, i),
    ensures
        free_of(spec_dequeued(line, unplugged), i),
    decreases unplugged.len(),
{
    if unplugged.len() > 0 {
        let rest = unplugged.drop_last();
        if unplugged.last() == i {
            lemma_without_control_free(spec_dequeued(line, rest), i, i);
        } else {
            if unplugged.contains(i) {
                let k = choose|k: int| 0 <= k < unplugged.len() && unplugged[k] == i;
                assert(rest[k] == i);
            }
            lemma_dequeued_free(line, rest, i);
            lemma_without_control_free(spec_dequeued(line, rest), unplugged.last(), i);
        }
    }
}

pub proof fn lemma_push_capped_free(line: Seq<ControlAction>, action: ControlAction, i: usize)
    requires
        free_of(line, i),
        action.control_of() != i,
    ensures
        free_of(push_capped(line, action), i),
{
    assert forall|k: int| 0 <= k < push_capped(line, action).len() implies #[trigger] push_capped(
        line,
        action,
    )[k].control_of() != i by {
        if line.len() < crate::action::QUEUE_CAPACITY && k < line.len() {
            assert(push_capped(line, action)[k] == line[k]);
        }
    }
}

proof fn lemma_enqueued_free(
    line: Seq<ControlAction>,
    plugged: Seq<usize>,
    pressed: bool,
    mapping: Seq<AttributeIdentifier>,
    i: usize,
)
    requires
        free_of(line, i),
        !plugged.contains(i),
    ensures
        free_of(spec_enqueued(line, plugged, pressed, mapping), i),
    decreases plugged.len(),
{
    if plugged.len() > 0 {
        let rest = plugged.drop_last();
        let last = plugged.last();
        assert(!rest.contains(i)) by {
            if rest.contains(i) {
                let k = choose|k: int| 0 <= k < rest.len() && rest[k] == i;
                assert(plugged[k] == i);
            }
        }
        assert(last != i) by {
            assert(plugged[plugged.len() - 1] == last);
        }
        lemma_enqueued_free(line, rest, pressed, mapping, i);
        let before = spec_enqueued(line, rest, pressed, mapping);
        lemma_without_control_free(before, last, i);
        let without = without_control(before, last);
        lemma_push_capped_free(without, ControlAction::Calibrate(last), i);
        let with_calibration = if pressed {
            push_capped(without, ControlAction::Calibrate(last))
        } else {
            without
        };
        lemma_push_capped_free(with_calibration, ControlAction::Mapping(last), i);
    }
}

/// The control a state is busy with, if any.
pub open spec fn busy_with(state: State) -> Option<usize> {
    match state {
        State::Calibrating(calibrating) => Some(calibrating.input),
        State::Mapping(mapping) => Some(mapping.input),
        _ => None,
    }
}

/// A control that was unplugged is forgotten within the same cycle: it is
/// unmapped, nothing for it waits in the queue, and neither its mapping nor
/// its calibration goes on.
pub proof fn lemma_unplugged_control_forgotten<P>(
    m: Machine<P>,
    input: InputObservation,
    detected: Option<u32>,
    i: usize,
)
    requires
        i < 4,
        m.mapping.len() == 4,
        valid_state(m.state),
        input.control_was_unplugged[i as int],
        !input.control_was_plugged[i as int],
        !input.control_is_plugged[i as int],
    ensures
        spec_converged(m, input, detected).0.mapping[i as int] == AttributeIdentifier::Unmapped,
        free_of(spec_converged(m, input, detected).0.queue, i),
        busy_with(spec_converged(m, input, detected).0.state) != Some(i),
{
    lemma_indices_where(input.control_was_unplugged@, 4);
    lemma_indices_where(input.control_was_plugged@, 4);
    let unplugged = unplugged_of(input);
    let plugged = plugged_of(input);
    lemma_dequeued_free(m.queue, unplugged, i);
    let plugged_in = spec_plugged_in(m, input);
    lemma_enqueued_free(
        spec_dequeued(m.queue, unplugged),
        plugged,
        input.button_pressed,
        plugged_in.mapping,
        i,
    );
    assert(plugged_in.mapping[i as int] == AttributeIdentifier::Unmapped);
    let next = spec_converged(m, input, detected).0;
    assert(next == spec_state_step(plugged_in, input, detected).0);
    match plugged_in.state {
        State::Normal => {
            let tapped = Machine {
                tapped_tempo: spec_tapped(plugged_in.tapped_tempo, input.pots.speed, detected).0,
                ..plugged_in
            };
            if input.button_held <= LONG_HOLD_CYCLES {
                assert(next == spec_next_action(tapped));
                let queue = plugged_in.queue;
                if queue.len() > 0 {
                    assert(queue[0].control_of() != i);
                    assert forall|k: int| 0 <= k < next.queue.len() implies #[trigger] next.queue[k].control_of() != i by {
                        assert(next.queue[k] == queue[k + 1]);
                    }
                }
            }
            assert(next.mapping == plugged_in.mapping);
        },
        State::Mapping(mapping_state) => {
            if mapping_state.input == i {
                assert(next == failed(plugged_in));
            }
            assert(next.mapping[i as int] == plugged_in.mapping[i as int]);
        },
        State::Calibrating(calibrating) => {
            if calibrating.input == i {
                assert(next == failed(plugged_in));
            }
            assert(next.mapping == plugged_in.mapping);
        },
        State::Configuring(_) => {
            assert(next.mapping == plugged_in.mapping);
        },
    }
}

/// What a cycle of the state machine changes of the settings that survive a
/// power cycle is always marked to be saved; the one exception is a tapped
/// tempo that turning the speed pot drops.
pub proof fn lemma_changed_settings_are_saved<P>(m: Machine<P>, input: InputObservation, detected: Option<u32>)
    requires
        m.mapping.len() == 4,
        valid_state(m.state),
    ensures
        ({
            let (next, save) = spec_converged(m, input, detected);
            (next.mapping != m.mapping || next.calibrations != m.calibrations || next.configuration
                != m.configuration || (next.tapped_tempo != m.tapped_tempo
                && next.tapped_tempo is Some)) ==> save
        }),
{
    let unplugged = unplugged_of(input);
    let plugged_in = spec_plugged_in(m, input);
    if !unmapping_needed(m.mapping, unplugged) {
        assert(plugged_in.mapping =~= m.mapping);
    }
    let (next, save) = spec_state_step(plugged_in, input, detected);
    assert(spec_converged(m, input, detected) == (next, unmapping_needed(m.mapping, unplugged) || save));
    match plugged_in.state {
        State::Normal => {
            let tapped = Machine {
                tapped_tempo: spec_tapped(plugged_in.tapped_tempo, input.pots.speed, detected).0,
                ..plugged_in
            };
            if input.button_held <= LONG_HOLD_CYCLES {
                assert(next == spec_next_action(tapped));
            }
            assert(next.mapping == plugged_in.mapping);
        },
        _ => {},
    }
}

/// The line after the controls were plugged in, with every asked action
/// appended.
pub open spec fn spec_enqueued_in_full(
    line: Seq<ControlAction>,
    plugged: Seq<usize>,
    pressed: bool,
    mapping: Seq<AttributeIdentifier>,
) -> Seq<ControlAction>
    decreases plugged.len(),
{
    if plugged.len() == 0 {
        line
    } else {
        let i = plugged.last();
        let rest = without_control(spec_enqueued_in_full(line, plugged.drop_last(), pressed, mapping), i);
        let with_calibration = if pressed {
            rest.push(ControlAction::Calibrate(i))
        } else {
            rest
        };
        if mapping[i as int] == AttributeIdentifier::Unmapped {
            with_calibration.push(ControlAction::Mapping(i))
        } else {
            with_calibration
        }
    }
}

/// The queue never overflows: as no action waits twice, each control has at
/// most one calibration and one mapping waiting, which the queue's eight
/// places always hold; so every action that plugging a control asks for is
/// queued, and no action waits twice afterwards either.
pub proof fn lemma_plugging_never_overflows(
    line: Seq<ControlAction>,
    plugged: Seq<usize>,
    pressed: bool,
    mapping: Seq<AttributeIdentifier>,
)
    requires
        controls_below(line, 4),
        line.no_duplicates(),
        forall|k: int| 0 <= k < plugged.len() ==> #[trigger] plugged[k] < 4,
    ensures
        spec_enqueued(line, plugged, pressed, mapping) == spec_enqueued_in_full(
            line,
            plugged,
            pressed,
            mapping,
        ),
        spec_enqueued(line, plugged, pressed, mapping).no_duplicates(),
        controls_below(spec_enqueued(line, plugged, pressed, mapping), 4),
    decreases plugged.len(),
{
    if plugged.len() > 0 {
        let rest = plugged.drop_last();
        assert forall|k: int| 0 <= k < rest.len() implies #[trigger] rest[k] < 4 by {
            assert(rest[k] == plugged[k]);
        }
        lemma_plugging_never_overflows(line, rest, pressed, mapping);
        let i = plugged.last();
        assert(plugged[plugged.len() - 1] == i);
        lemma_room_for_control(
            spec_enqueued(line, rest, pressed, mapping),
            i,
            pressed,
            mapping[i as int] == AttributeIdentifier::Unmapped,
        );
    }
}

/// The menu shown on selecting an option confirms the option as it now
/// stands: the oscillator menu exactly when the oscillator is enabled (the
/// pre-amp one otherwise), the range the delay now has, the placement wow
/// and flutter now have, and the unlimited bias exactly when it is unlimited.
pub proof fn lemma_selection_menu_shows_selected_option(options: Options, selection: OptionSelection)
    ensures
        ({
            let selected = spec_selected(options, selection);
            let menu = spec_selection_screen(selection);
            match selection {
                OptionSelection::Oscillator(_) => {
                    &&& menu is PreAmpMode
                    &&& (menu == AltAttributeScreen::PreAmpMode(PreAmpMode::Oscillator)) <==> selected.enable_oscillator
                },
                OptionSelection::DelayRange(_) => menu == AltAttributeScreen::SpeedRange(
                    match selected.delay_range {
                        DelayRange::Long => SpeedRange::Long,
                        DelayRange::Short => SpeedRange::Short,
                        DelayRange::Audio => SpeedRange::Audio,
                    },
                ),
                OptionSelection::WowFlutterPlacement(_) => menu == AltAttributeScreen::WowFlutterPlacement(
                    match selected.wow_flutter_placement {
                        WowFlutterPlacement::Input => crate::cache::display::WowFlutterPlacement::Input,
                        WowFlutterPlacement::Read => crate::cache::display::WowFlutterPlacement::Read,
                        WowFlutterPlacement::Both => crate::cache::display::WowFlutterPlacement::Both,
                    },
                ),
                OptionSelection::Unlimited(_) => {
                    &&& menu is HysteresisRange
                    &&& (menu == AltAttributeScreen::HysteresisRange(HysteresisRange::Unlimited)) <==> selected.unlimited
                },
            }
        }),
{
}

/// A click while the first octave of a plugged control is awaited keeps the
/// value of that very control as the first octave and asks for the second.
pub proof fn lemma_first_octave_is_of_calibrated_control<P>(
    m: Machine<P>,
    input: InputObservation,
    detected: Option<u32>,
    control: usize,
)
    requires
        control < 4,
        m.state == State::Calibrating(StateCalibrating { input: control, phase: CalibrationPhase::Octave1 }),
        input.control_is_plugged[control as int],
        input.button_clicked,
    ensures
        spec_converged(m, input, detected).0.state == State::Calibrating(
            StateCalibrating { input: control, phase: CalibrationPhase::Octave2(input.control_value@[control as int]) },
        ),
        spec_converged(m, input, detected).0.calibrations == m.calibrations,
{
}

/// A click on the second octave of a plugged control stores a valid
/// calibration at that control and at no other, and ends the calibration;
/// an invalid one fails and changes no calibration.
pub proof fn lemma_calibration_stored_for_its_control<P>(
    m: Machine<P>,
    input: InputObservation,
    detected: Option<u32>,
    control: usize,
    octave_1: u32,
)
    requires
        control < 4,
        m.calibrations.len() == 4,
        m.state == State::Calibrating(
            StateCalibrating { input: control, phase: CalibrationPhase::Octave2(octave_1) },
        ),
        input.control_is_plugged[control as int],
        input.button_clicked,
    ensures
        ({
            let next = spec_converged(m, input, detected).0;
            &&& next.state is Normal
            &&& next.calibrations.len() == 4
            &&& forall|j: int|
                0 <= j < 4 && j != control ==> #[trigger] next.calibrations[j] == m.calibrations[j]
            &&& match input.calibration {
                Some(calibration) => next.calibrations[control as int] == calibration,
                None => next.calibrations[control as int] == m.calibrations[control as int],
            }
        }),
{
}

} // verus!
