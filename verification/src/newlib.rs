//! A reduced control cache: the queue of pending actions, the
//! mapping of controls to attributes and their calibration, without the
//! failure screens, saving, configuration or tapped tempo of the store.

use crate::action::{
    controls_below, free_of, keeps_action, lemma_filter_no_duplicates, lemma_room_for_control,
    lemma_without_control_below, lemma_without_control_free, push_capped, without_control,
    ControlAction, Queue,
};
use crate::controls::{controls_get, controls_len, controls_where, lemma_indices_where, listed_controls};
use crate::mapping::{AttributeIdentifier, Mapping};
use crate::save::StoredCalibration;
use crate::store::{
    active_attribute, distinct_mapping, lemma_dequeued_free, lemma_push_capped_free,
    lemma_push_capped_below, mapping_contains, plugged_of, spec_active_attribute, spec_dequeued,
    spec_unmapped, unplugged_of, valid_state, CalibrationPhase, InputObservation, State,
    StateCalibrating, StateMapping,
};
use vstd::prelude::*;

verus! {

/// The button as the reduced cache reads it: whether it is down and whether
/// it just went down.
#[derive(Debug, Clone, Copy, PartialEq, Eq, Structural)]
pub struct Button {
    pub pressed: bool,
    pub clicked: bool,
}

impl Button {
    pub fn new() -> (button: Self)
        ensures
            !button.pressed,
            !button.clicked,
    {
        Button { pressed: false, clicked: false }
    }

    pub fn update(&mut self, down: bool)
        ensures
            final(self).pressed == down,
            final(self).clicked == (!old(self).pressed && down),
    {
        let was_pressed = self.pressed;
        self.pressed = down;
        self.clicked = !was_pressed && self.pressed;
    }
}

impl Default for Button {
    fn default() -> (button: Self)
        ensures
            !button.pressed,
            !button.clicked,
    {
        Self::new()
    }
}

/// The line after control `i` was plugged in: its earlier actions are
/// dropped, a calibration is asked for when the button is pressed, and a
/// mapping always.
pub open spec fn spec_draft_enqueued_control(line: Seq<ControlAction>, i: usize, pressed: bool) -> Seq<ControlAction> {
    let rest = without_control(line, i);
    let with_calibration = if pressed {
        push_capped(rest, ControlAction::Calibrate(i))
    } else {
        rest
    };
    push_capped(with_calibration, ControlAction::Mapping(i))
}

/// The line after the controls were plugged in, in the order given.
pub open spec fn spec_draft_enqueued(line: Seq<ControlAction>, plugged: Seq<usize>, pressed: bool) -> Seq<ControlAction>
    decreases plugged.len(),
{
    if plugged.len() == 0 {
        line
    } else {
        spec_draft_enqueued_control(
            spec_draft_enqueued(line, plugged.drop_last(), pressed),
            plugged.last(),
            pressed,
        )
    }
}

/// What the draft cache decides on.
#[verifier::ext_equal]
pub struct DraftMachine {
    pub state: State,
    pub queue: Seq<ControlAction>,
    pub mapping: Seq<AttributeIdentifier>,
    pub calibrations: Seq<StoredCalibration>,
}

/// The draft machine after the plugged and unplugged controls were handled.
pub open spec fn spec_draft_plugged_in(m: DraftMachine, input: InputObservation) -> DraftMachine {
    DraftMachine {
        mapping: spec_unmapped(m.mapping, unplugged_of(input)),
        queue: spec_draft_enqueued(
            spec_dequeued(m.queue, unplugged_of(input)),
            plugged_of(input),
            input.button_pressed,
        ),
        ..m
    }
}

/// The draft machine converging from its state: the normal state takes the
/// next action; a calibration takes the first octave on a click and stores a
/// valid calibration on the second; a mapping gives the control to the first
/// turned pot whose attribute has no control yet.
pub open spec fn spec_draft_step(m: DraftMachine, input: InputObservation) -> DraftMachine {
    match m.state {
        State::Normal => if m.queue.len() > 0 {
            let rest = DraftMachine { queue: m.queue.drop_first(), ..m };
            match m.queue[0] {
                ControlAction::Calibrate(i) => DraftMachine {
                    state: State::Calibrating(StateCalibrating { input: i, phase: CalibrationPhase::Octave1 }),
                    ..rest
                },
                ControlAction::Mapping(i) => DraftMachine { state: State::Mapping(StateMapping { input: i }), ..rest },
            }
        } else {
            m
        },
        State::Calibrating(calibrating) => if input.button_clicked {
            match calibrating.phase {
                CalibrationPhase::Octave1 => DraftMachine {
                    state: State::Calibrating(
                        StateCalibrating {
                            input: calibrating.input,
                            phase: CalibrationPhase::Octave2(input.control_value[calibrating.input as int]),
                        },
                    ),
                    ..m
                },
                CalibrationPhase::Octave2(_) => DraftMachine {
                    state: State::Normal,
                    calibrations: match input.calibration {
                        Some(calibration) => m.calibrations.update(calibrating.input as int, calibration),
                        None => m.calibrations,
                    },
                    ..m
                },
            }
        } else {
            m
        },
        State::Mapping(mapping) => {
            let destination = spec_active_attribute(input.pots);
            if destination != AttributeIdentifier::Unmapped && !m.mapping.contains(destination) {
                DraftMachine {
                    state: State::Normal,
                    mapping: m.mapping.update(mapping.input as int, destination),
                    ..m
                }
            } else {
                m
            }
        },
        State::Configuring(_) => m,
    }
}

/// A reduced control cache: the queue, the mapping and the calibrations.
#[derive(Debug)]
pub struct Cache {
    pub state: State,
    pub queue: Queue,
    pub mapping: Mapping,
    pub calibrations: [StoredCalibration; 4],
}

impl Cache {
    pub open spec fn wf(&self) -> bool {
        &&& valid_state(self.state)
        &&& controls_below(self.queue@, 4)
        &&& self.queue@.no_duplicates()
    }

    pub open spec fn machine(&self) -> DraftMachine {
        DraftMachine {
            state: self.state,
            queue: self.queue@,
            mapping: self.mapping@,
            calibrations: self.calibrations@,
        }
    }

    pub fn new() -> (cache: Self)
        ensures
            cache.wf(),
            cache.state is Normal,
            cache.queue@ == Seq::<ControlAction>::empty(),
            forall|i: int| 0 <= i < 4 ==> cache.mapping@[i] == AttributeIdentifier::Unmapped,
            forall|i: int|
                0 <= i < 4 ==> #[trigger] cache.calibrations@[i] == StoredCalibration::new_spec(),
    {
        Cache {
            state: State::Normal,
            queue: Queue::new(),
            mapping: crate::mapping::empty_mapping(),
            calibrations: [
                StoredCalibration::new(),
                StoredCalibration::new(),
                StoredCalibration::new(),
                StoredCalibration::new(),
            ],
        }
    }

    /// The control and the bit pattern of its first octave when a calibration
    /// waits for its second octave.
    pub fn pending_calibration(&self) -> (pending: Option<(usize, u32)>)
        ensures
            pending == (match self.state {
                State::Calibrating(
                    StateCalibrating { input, phase: CalibrationPhase::Octave2(octave_1) },
                ) => Some((input, octave_1)),
                _ => None,
            }),
    {
        match self.state {
            State::Calibrating(calibrating) => match calibrating.phase {
                CalibrationPhase::Octave2(octave_1) => Some((calibrating.input, octave_1)),
                CalibrationPhase::Octave1 => None,
            },
            _ => None,
        }
    }

    /// Unmaps and dequeues the unplugged controls and queues what the
    /// plugged ones ask for.
    fn plug_controls(&mut self, input: &InputObservation)
        requires
            old(self).wf(),
        ensures
            final(self).wf(),
            final(self).machine() == spec_draft_plugged_in(old(self).machine(), *input),
    {
        let ghost m0 = self.machine();
        let plugged = controls_where(&input.control_was_plugged);
        let unplugged = controls_where(&input.control_was_unplugged);
        proof {
            lemma_indices_where(input.control_was_plugged@, 4);
            lemma_indices_where(input.control_was_unplugged@, 4);
        }
        let ghost removed = listed_controls(unplugged);
        let n = controls_len(&unplugged);
        let mut k: usize = 0;
        while k < n
            invariant
                n == removed.len(),
                k <= n,
                removed == listed_controls(unplugged),
                removed == unplugged_of(*input),
                forall|j: int| 0 <= j < removed.len() ==> #[trigger] removed[j] < 4,
                self.queue@ == spec_dequeued(m0.queue, removed.subrange(0, k as int)),
                forall|i: int|
                    0 <= i < 4 ==> #[trigger] self.mapping@[i] == (if removed.subrange(
                        0,
                        k as int,
                    ).contains(i as usize) {
                        AttributeIdentifier::Unmapped
                    } else {
                        m0.mapping[i]
                    }),
                controls_below(self.queue@, 4),
                self.queue@.no_duplicates(),
                self.state == m0.state,
                self.calibrations@ == m0.calibrations,
            decreases n - k,
        {
            let i = controls_get(&unplugged, k);
            let ghost before = removed.subrange(0, k as int);
            let ghost after = removed.subrange(0, k + 1);
            proof {
                assert(after.drop_last() =~= before);
                assert(after.last() == i);
                lemma_without_control_below(self.queue@, i, 4);
                lemma_filter_no_duplicates(self.queue@, |a: ControlAction| keeps_action(a, i));
                assert forall|j: usize| #[trigger] after.contains(j) <==> (before.contains(j) || j == i) by {
                    vstd::seq_lib::lemma_seq_contains_after_push(before, i, j);
                    assert(after =~= before.push(i));
                }
            }
            self.queue.remove_control(i);
            self.mapping[i] = AttributeIdentifier::Unmapped;
            k = k + 1;
        }
        assert(removed.subrange(0, n as int) =~= removed);
        assert(self.mapping@ =~= spec_unmapped(m0.mapping, unplugged_of(*input)));
        let ghost dequeued = self.queue@;
        let ghost added = listed_controls(plugged);
        let n = controls_len(&plugged);
        let mut k: usize = 0;
        while k < n
            invariant
                n == added.len(),
                k <= n,
                added == listed_controls(plugged),
                forall|j: int| 0 <= j < added.len() ==> #[trigger] added[j] < 4,
                self.queue@ == spec_draft_enqueued(dequeued, added.subrange(0, k as int), input.button_pressed),
                controls_below(self.queue@, 4),
                self.queue@.no_duplicates(),
                self.mapping@ == spec_unmapped(m0.mapping, unplugged_of(*input)),
                self.state == m0.state,
                self.calibrations@ == m0.calibrations,
            decreases n - k,
        {
            let i = controls_get(&plugged, k);
            let ghost before = self.queue@;
            proof {
                let next = added.subrange(0, k + 1);
                assert(next.drop_last() =~= added.subrange(0, k as int));
                assert(next.last() == i);
                lemma_without_control_below(before, i, 4);
                lemma_room_for_control(before, i, input.button_pressed, true);
            }
            self.queue.remove_control(i);
            if input.button_pressed {
                proof {
                    lemma_push_capped_below(self.queue@, ControlAction::Calibrate(i), 4);
                }
                self.queue.push(ControlAction::Calibrate(i));
            }
            proof {
                lemma_push_capped_below(self.queue@, ControlAction::Mapping(i), 4);
            }
            self.queue.push(ControlAction::Mapping(i));
            assert(self.queue@ == spec_draft_enqueued_control(before, i, input.button_pressed));
            k = k + 1;
        }
        assert(added.subrange(0, n as int) =~= added);
        assert(self.machine() =~= spec_draft_plugged_in(m0, *input));
    }

    /// Converges the draft machine from its state.
    fn converge_state(&mut self, input: &InputObservation)
        requires
            old(self).wf(),
        ensures
            final(self).wf(),
            final(self).machine() == spec_draft_step(old(self).machine(), *input),
    {
        let ghost m0 = self.machine();
        match self.state {
            State::Normal => {
                match self.queue.pop() {
                    Some(ControlAction::Calibrate(i)) => {
                        assert(m0.queue[0].control_of() < 4);
                        self.state = State::calibrating_octave_1(i);
                    },
                    Some(ControlAction::Mapping(i)) => {
                        assert(m0.queue[0].control_of() < 4);
                        self.state = State::mapping(i);
                    },
                    None => {},
                }
                assert forall|k: int| 0 <= k < self.queue@.len() implies #[trigger] self.queue@[k].control_of() < 4 by {
                    if m0.queue.len() > 0 {
                        assert(self.queue@[k] == m0.queue[k + 1]);
                    }
                }
                assert forall|x: int, y: int|
                    0 <= x < self.queue@.len() && 0 <= y < self.queue@.len() && x != y implies self.queue@[x]
                    != self.queue@[y] by {
                    if m0.queue.len() > 0 {
                        assert(self.queue@[x] == m0.queue[x + 1]);
                        assert(self.queue@[y] == m0.queue[y + 1]);
                    }
                }
            },
            State::Calibrating(calibrating) => {
                if input.button_clicked {
                    match calibrating.phase {
                        CalibrationPhase::Octave1 => {
                            let octave_1 = input.control_value[calibrating.input];
                            self.state = State::calibrating_octave_2(calibrating.input, octave_1);
                        },
                        CalibrationPhase::Octave2(_) => {
                            if let Some(calibration) = input.calibration {
                                self.calibrations[calibrating.input] = calibration;
                            }
                            self.state = State::Normal;
                        },
                    }
                }
            },
            State::Mapping(mapping) => {
                let destination = active_attribute(&input.pots);
                if !destination.is_none() && !mapping_contains(&self.mapping, &destination) {
                    self.mapping[mapping.input] = destination;
                    self.state = State::Normal;
                }
            },
            State::Configuring(_) => {},
        }
        assert(self.machine() =~= spec_draft_step(m0, *input));
    }

    /// One cycle of the draft: the plugged and unplugged controls are
    /// handled, then the state converges.
    pub fn reconcile_changed_inputs(&mut self, input: &InputObservation)
        requires
            old(self).wf(),
        ensures
            final(self).wf(),
            final(self).machine() == spec_draft_step(
                spec_draft_plugged_in(old(self).machine(), *input),
                *input,
            ),
    {
        self.plug_controls(input);
        self.converge_state(input);
    }
}

impl Default for Cache {
    fn default() -> (cache: Self)
        ensures
            cache.wf(),
            cache.state is Normal,
            cache.queue@ == Seq::<ControlAction>::empty(),
    {
        Self::new()
    }
}

proof fn lemma_draft_enqueued_free(line: Seq<ControlAction>, plugged: Seq<usize>, pressed: bool, i: usize)
    requires
        free_of(line, i),
        !plugged.contains(i),
    ensures
        free_of(spec_draft_enqueued(line, plugged, pressed), i),
    decreases plugged.len(),
{
    if plugged.len() > 0 {
        let rest = plugged.drop_last();
        let last = plugged.last();
        assert(!rest.contains(i)) by {
            if rest.contains(i) {
                let k = choose|k: int| 0 <= k < rest.len() && rest[k] == i;
                assert(plugged[k] == i);
            }
        }
        assert(last != i) by {
            assert(plugged[plugged.len() - 1] == last);
        }
        lemma_draft_enqueued_free(line, rest, pressed, i);
        let before = spec_draft_enqueued(line, rest, pressed);
        lemma_without_control_free(before, last, i);
        let without = without_control(before, last);
        lemma_push_capped_free(without, ControlAction::Calibrate(last), i);
        let with_calibration = if pressed {
            push_capped(without, ControlAction::Calibrate(last))
        } else {
            without
        };
        lemma_push_capped_free(with_calibration, ControlAction::Mapping(last), i);
    }
}

/// In the reduced cache too, a control never gets an attribute that another
/// control already has: one cycle keeps the mapping free of duplicates.
pub proof fn lemma_draft_mapping_stays_distinct(m: DraftMachine, input: InputObservation)
    requires
        m.mapping.len() == 4,
        valid_state(m.state),
        distinct_mapping(m.mapping),
    ensures
        distinct_mapping(spec_draft_step(spec_draft_plugged_in(m, input), input).mapping),
{
    let plugged_in = spec_draft_plugged_in(m, input);
    let mapping = plugged_in.mapping;
    assert(distinct_mapping(mapping)) by {
        assert forall|i: int, j: int|
            0 <= i < mapping.len() && 0 <= j < mapping.len() && i != j && mapping[i]
                != AttributeIdentifier::Unmapped implies #[trigger] mapping[i] != #[trigger] mapping[j] by {
            assert(mapping[i] == m.mapping[i]);
            if mapping[j] != AttributeIdentifier::Unmapped {
                assert(mapping[j] == m.mapping[j]);
            }
        }
    }
    let next = spec_draft_step(plugged_in, input);
    match plugged_in.state {
        State::Mapping(mapping_state) => {
            let control = mapping_state.input;
            let destination = spec_active_attribute(input.pots);
            if destination != AttributeIdentifier::Unmapped && !mapping.contains(destination) {
                assert(next.mapping == mapping.update(control as int, destination));
                assert forall|i: int, j: int|
                    0 <= i < next.mapping.len() && 0 <= j < next.mapping.len() && i != j
                        && next.mapping[i] != AttributeIdentifier::Unmapped implies #[trigger] next.mapping[i]
                        != #[trigger] next.mapping[j] by {
                    if i == control {
                        assert(next.mapping[j] == mapping[j]);
                        if next.mapping[i] == next.mapping[j] {
                            assert(mapping[j] == destination);
                            assert(mapping.contains(destination));
                        }
                    } else if j == control {
                        assert(next.mapping[i] == mapping[i]);
                        if next.mapping[i] == next.mapping[j] {
                            assert(mapping[i] == destination);
                            assert(mapping.contains(destination));
                        }
                    } else {
                        assert(next.mapping[i] == mapping[i]);
                        assert(next.mapping[j] == mapping[j]);
                    }
                }
            }
        },
        _ => {},
    }
}

/// In the reduced cache, a control that was unplugged is unmapped and
/// nothing for it waits in the queue after the cycle, unless the cache was
/// mapping that very control: its mapping state does not look whether the
/// control is still plugged, so it may map it again.
pub proof fn lemma_draft_unplugged_control_forgotten(m: DraftMachine, input: InputObservation, i: usize)
    requires
        i < 4,
        m.mapping.len() == 4,
        valid_state(m.state),
        input.control_was_unplugged[i as int],
        !input.control_was_plugged[i as int],
        m.state != State::Mapping(StateMapping { input: i }),
    ensures
        spec_draft_step(spec_draft_plugged_in(m, input), input).mapping[i as int]
            == AttributeIdentifier::Unmapped,
        free_of(spec_draft_step(spec_draft_plugged_in(m, input), input).queue, i),
{
    lemma_indices_where(input.control_was_unplugged@, 4);
    lemma_indices_where(input.control_was_plugged@, 4);
    lemma_dequeued_free(m.queue, unplugged_of(input), i);
    lemma_draft_enqueued_free(
        spec_dequeued(m.queue, unplugged_of(input)),
        plugged_of(input),
        input.button_pressed,
        i,
    );
    let plugged_in = spec_draft_plugged_in(m, input);
    assert(plugged_in.mapping[i as int] == AttributeIdentifier::Unmapped);
    let next = spec_draft_step(plugged_in, input);
    match plugged_in.state {
        State::Normal => {
            let queue = plugged_in.queue;
            if queue.len() > 0 {
                assert(queue[0].control_of() != i);
                assert forall|k: int| 0 <= k < next.queue.len() implies #[trigger] next.queue[k].control_of() != i by {
                    assert(next.queue[k] == queue[k + 1]);
                }
            }
        },
        State::Mapping(mapping_state) => {
            assert(mapping_state.input != i);
            assert(next.mapping[i as int] == plugged_in.mapping[i as int]);
        },
        _ => {},
    }
}

/// In the reduced cache, a click while the first octave is awaited keeps the
/// value of the control being calibrated as the first octave.
pub proof fn lemma_draft_first_octave_is_of_calibrated_control(m: DraftMachine, input: InputObservation, control: usize)
    requires
        control < 4,
        m.state == State::Calibrating(StateCalibrating { input: control, phase: CalibrationPhase::Octave1 }),
        input.button_clicked,
    ensures
        spec_draft_step(spec_draft_plugged_in(m, input), input).state == State::Calibrating(
            StateCalibrating { input: control, phase: CalibrationPhase::Octave2(input.control_value@[control as int]) },
        ),
        spec_draft_step(spec_draft_plugged_in(m, input), input).calibrations == m.calibrations,
{
}

/// In the reduced cache, a click on the second octave stores a valid
/// calibration at the control being calibrated and at no other, and ends
/// the calibration; without a valid one no calibration changes.
pub proof fn lemma_draft_calibration_stored_for_its_control(
    m: DraftMachine,
    input: InputObservation,
    control: usize,
    octave_1: u32,
)
    requires
        control < 4,
        m.calibrations.len() == 4,
        m.state == State::Calibrating(
            StateCalibrating { input: control, phase: CalibrationPhase::Octave2(octave_1) },
        ),
        input.button_clicked,
    ensures
        ({
            let next = spec_draft_step(spec_draft_plugged_in(m, input), input);
            &&& next.state is Normal
            &&& next.calibrations.len() == 4
            &&& forall|j: int|
                0 <= j < 4 && j != control ==> #[trigger] next.calibrations[j] == m.calibrations[j]
            &&& match input.calibration {
                Some(calibration) => next.calibrations[control as int] == calibration,
                None => next.calibrations[control as int] == m.calibrations[control as int],
            }
        }),
{
}

} // verus!
