use kaseta_control::action::ControlAction;
use kaseta_control::mapping::AttributeIdentifier;
use kaseta_control::newlib::Cache;
use kaseta_control::save::StoredCalibration;
use kaseta_control::store::{
    CalibrationPhase, HeadActivity, InputObservation, PotActivity, State, StateCalibrating,
    StateMapping,
};

fn idle() -> InputObservation {
    let head = HeadActivity {
        position: false,
        volume: false,
        feedback: false,
        pan: false,
    };
    InputObservation {
        control_is_plugged: [false; 4],
        control_was_plugged: [false; 4],
        control_was_unplugged: [false; 4],
        control_value: [0; 4],
        control_low: [false; 4],
        control_triggered: [false; 4],
        button_pressed: false,
        button_clicked: false,
        button_held: 0,
        pots: PotActivity {
            pre_amp: false,
            drive: false,
            bias: false,
            dry_wet: false,
            wow_flut: false,
            speed: false,
            tone: false,
            head: [head; 4],
        },
        rewind_index: [(0, 0); 4],
        calibration: None,
    }
}

#[test]
fn newlib_when_control_is_plugged_then_state_changes_to_mapping() {
    let mut cache = Cache::new();
    let mut input = idle();
    input.control_is_plugged[1] = true;
    input.control_was_plugged[1] = true;
    cache.reconcile_changed_inputs(&input);
    assert_eq!(cache.state, State::Mapping(StateMapping { input: 1 }));
}

#[test]
fn newlib_when_control_is_plugged_while_holding_button_then_state_changes_to_calibration() {
    let mut cache = Cache::new();
    let mut input = idle();
    input.button_pressed = true;
    input.control_is_plugged[1] = true;
    input.control_was_plugged[1] = true;
    cache.reconcile_changed_inputs(&input);
    assert_eq!(
        cache.state,
        State::Calibrating(StateCalibrating {
            input: 1,
            phase: CalibrationPhase::Octave1
        })
    );
    assert!(cache.queue.contains(&ControlAction::Mapping(1)));
}

#[test]
fn newlib_when_pot_is_active_it_gets_mapped_to_the_current_control() {
    let mut cache = Cache::new();
    let mut input = idle();
    input.control_is_plugged = [true, true, false, false];
    input.control_was_plugged = [true, true, false, false];
    cache.reconcile_changed_inputs(&input);
    let mut input = idle();
    input.control_is_plugged = [true, true, false, false];
    input.pots.drive = true;
    cache.reconcile_changed_inputs(&input);
    assert_eq!(cache.mapping[0], AttributeIdentifier::Drive);
    assert_eq!(cache.state, State::Normal);
    cache.reconcile_changed_inputs(&input);
    assert_eq!(cache.state, State::Mapping(StateMapping { input: 1 }));
    cache.reconcile_changed_inputs(&input);
    assert_eq!(cache.mapping[1], AttributeIdentifier::Unmapped);
}

#[test]
fn newlib_when_control_is_unplugged_it_is_removed_from_queue_and_unmapped() {
    let mut cache = Cache::new();
    cache.mapping[2] = AttributeIdentifier::Tone;
    let mut input = idle();
    input.control_is_plugged = [true, true, true, false];
    input.control_was_plugged = [true, true, false, false];
    cache.reconcile_changed_inputs(&input);
    assert_eq!(cache.queue.len(), 1);
    let mut input = idle();
    input.control_is_plugged = [true, false, false, false];
    input.control_was_unplugged = [false, true, true, false];
    cache.reconcile_changed_inputs(&input);
    assert_eq!(cache.queue.len(), 0);
    assert_eq!(cache.mapping[2], AttributeIdentifier::Unmapped);
}

#[test]
fn newlib_calibration_takes_two_clicks() {
    let mut cache = Cache::new();
    let mut input = idle();
    input.button_pressed = true;
    input.control_is_plugged[0] = true;
    input.control_was_plugged[0] = true;
    cache.reconcile_changed_inputs(&input);
    let mut input = idle();
    input.control_is_plugged[0] = true;
    input.button_clicked = true;
    input.control_value[0] = 7;
    cache.reconcile_changed_inputs(&input);
    assert_eq!(
        cache.state,
        State::Calibrating(StateCalibrating {
            input: 0,
            phase: CalibrationPhase::Octave2(7)
        })
    );
    assert_eq!(cache.pending_calibration(), Some((0, 7)));
    let calibration = StoredCalibration {
        offset: 1,
        scaling: 2,
    };
    input.calibration = Some(calibration);
    cache.reconcile_changed_inputs(&input);
    assert_eq!(cache.calibrations[0], calibration);
    assert_eq!(cache.state, State::Normal);
}

#[test]
fn newlib_an_attribute_goes_to_one_control_only() {
    let mut cache = Cache::new();
    let mut input = idle();
    input.control_is_plugged = [true, true, false, false];
    input.control_was_plugged = [true, true, false, false];
    cache.reconcile_changed_inputs(&input);
    let mut input = idle();
    input.control_is_plugged = [true, true, false, false];
    input.pots.tone = true;
    for _ in 0..3 {
        cache.reconcile_changed_inputs(&input);
    }
    assert_eq!(cache.mapping[0], AttributeIdentifier::Tone);
    assert_eq!(cache.mapping[1], AttributeIdentifier::Unmapped);
    assert_eq!(cache.state, State::Mapping(StateMapping { input: 1 }));
}
