use kaseta_control::action::ControlAction;
use kaseta_control::cache::display::AttributeScreen;
use kaseta_control::mapping::AttributeIdentifier;
use kaseta_control::output::DesiredOutput;
use kaseta_control::save::{Save, StoredCalibration};
use kaseta_control::store::{
    CalibrationPhase, HeadActivity, InputObservation, PotActivity, State, StateCalibrating,
    StateMapping, Store,
};

fn idle_head() -> HeadActivity {
    HeadActivity {
        position: false,
        volume: false,
        feedback: false,
        pan: false,
    }
}

fn idle_pots() -> PotActivity {
    PotActivity {
        pre_amp: false,
        drive: false,
        bias: false,
        dry_wet: false,
        wow_flut: false,
        speed: false,
        tone: false,
        head: [idle_head(); 4],
    }
}

/// What the peripherals show, turned into observations cycle by cycle: plug
/// and click events are the edges of what the panel showed last.
#[derive(Clone, Copy)]
struct Panel {
    plugged: [bool; 4],
    button: bool,
    pots: PotActivity,
    rewind_index: [(usize, usize); 4],
    value: [u32; 4],
    low: [bool; 4],
    triggered: [bool; 4],
    calibration: Option<StoredCalibration>,
    last_plugged: [bool; 4],
    last_button: bool,
    held: u32,
}

impl Panel {
    fn new() -> Self {
        Panel {
            plugged: [false; 4],
            button: false,
            pots: idle_pots(),
            rewind_index: [(0, 0); 4],
            value: [0; 4],
            low: [false; 4],
            triggered: [false; 4],
            calibration: None,
            last_plugged: [false; 4],
            last_button: false,
            held: 0,
        }
    }

    fn observe(&mut self) -> InputObservation {
        let mut was_plugged = [false; 4];
        let mut was_unplugged = [false; 4];
        for i in 0..4 {
            was_plugged[i] = self.plugged[i] && !self.last_plugged[i];
            was_unplugged[i] = !self.plugged[i] && self.last_plugged[i];
        }
        let clicked = self.button && !self.last_button;
        self.held = if self.button { self.held + 1 } else { 0 };
        self.last_plugged = self.plugged;
        self.last_button = self.button;
        InputObservation {
            control_is_plugged: self.plugged,
            control_was_plugged: was_plugged,
            control_was_unplugged: was_unplugged,
            control_value: self.value,
            control_low: self.low,
            control_triggered: self.triggered,
            button_pressed: self.button,
            button_clicked: clicked,
            button_held: self.held,
            pots: self.pots,
            rewind_index: self.rewind_index,
            calibration: self.calibration,
        }
    }
}

/// One cycle of the control loop; as the attributes stay at rest, the
/// overview of the heads shows no head enabled.
fn apply(store: &mut Store<f32>, panel: &mut Panel) -> Option<Save> {
    let observation = panel.observe();
    let save = store.converge_internal_state(&observation);
    store
        .cache
        .display
        .set_fallback_attribute(AttributeScreen::HeadsOverview(([false; 4], [false; 4])));
    save
}

fn apply_4(store: &mut Store<f32>, panel: &mut Panel) {
    for _ in 0..4 {
        apply(store, panel);
    }
}

fn tick(store: &mut Store<f32>) -> DesiredOutput {
    let leds = store
        .cache
        .display
        .active_screen()
        .leds()
        .unwrap_or([false; 8]);
    store.tick(leds)
}

fn click_button(store: &mut Store<f32>, panel: &mut Panel) -> Option<Save> {
    panel.button = true;
    let save_1 = apply(store, panel);
    tick(store);
    panel.button = false;
    let save_2 = apply(store, panel);
    tick(store);
    save_1.or(save_2)
}

fn hold_button(store: &mut Store<f32>, panel: &mut Panel) {
    panel.button = true;
    for _ in 0..6 * 1000 {
        apply(store, panel);
        tick(store);
    }
    panel.button = false;
    apply(store, panel);
    tick(store);
}

fn tap_button(store: &mut Store<f32>, panel: &mut Panel, time: usize) {
    click_button(store, panel);
    for _ in 0..time - 2 {
        apply(store, panel);
        tick(store);
    }
}

fn clock_trigger(store: &mut Store<f32>, panel: &mut Panel, i: usize, time: usize) {
    panel.triggered[i] = true;
    apply(store, panel);
    tick(store);
    panel.triggered[i] = false;
    for _ in 0..time - 1 {
        apply(store, panel);
        tick(store);
    }
}

fn transition_into_bools(mut x: u32) -> [bool; 8] {
    assert!(x < 10000);
    let mut digits = [0; 4];
    for i in (0..4).rev() {
        digits[i] = x % 10;
        x /= 10;
    }
    let mut bools = [false; 8];
    for (i, digit) in digits.iter().enumerate() {
        match digit {
            9 => bools[i] = true,
            6 => bools[i + 4] = true,
            8 => {
                bools[i] = true;
                bools[i + 4] = true;
            }
            0 => (),
            _ => panic!("Led code must consist of 6, 8, 9 and 0"),
        }
    }
    bools
}

fn assert_animation(store: &mut Store<f32>, transitions: &[u32]) {
    let mut old_display = None;
    'transition: for transition in transitions {
        for _ in 0..10000 {
            let display = tick(store).display;
            let bools = transition_into_bools(*transition);
            if display == bools {
                old_display = Some(display);
                continue 'transition;
            } else if old_display.is_some() && old_display.unwrap() != display {
                panic!("Reached unexpected transition {:?}", display);
            }
        }
        panic!("Transition was not reached within the given timeout");
    }
}

fn plugged_store(pending: usize) -> (Store<f32>, Panel) {
    let mut store = Store::new();
    let mut panel = Panel::new();
    apply(&mut store, &mut panel);
    for i in 0..pending {
        panel.plugged[i] = true;
    }
    apply(&mut store, &mut panel);
    (store, panel)
}

fn calibrating_store(pending: usize) -> (Store<f32>, Panel) {
    let mut store = Store::new();
    let mut panel = Panel::new();
    apply(&mut store, &mut panel);
    panel.button = true;
    apply(&mut store, &mut panel);
    for i in 0..pending {
        panel.plugged[i] = true;
    }
    apply(&mut store, &mut panel);
    panel.button = false;
    apply(&mut store, &mut panel);
    (store, panel)
}

fn configuring_store() -> (Store<f32>, Panel) {
    let mut store = Store::new();
    let mut panel = Panel::new();
    hold_button(&mut store, &mut panel);
    (store, panel)
}

fn turn_rewind(panel: &mut Panel, head: usize, index: (usize, usize)) {
    panel.pots.head[head].volume = true;
    panel.pots.head[head].feedback = true;
    panel.rewind_index[head] = index;
}

fn rest_rewind(panel: &mut Panel, head: usize) {
    panel.pots.head[head].volume = false;
    panel.pots.head[head].feedback = false;
}

fn example_calibration() -> StoredCalibration {
    StoredCalibration {
        offset: 0x3e4c_cccd,
        scaling: 0x3f8c_cccd,
    }
}

#[test]
fn it_should_be_possible_to_initialize_store() {
    let _store = Store::<f32>::new();
}

#[test]
fn when_dsp_returns_impulse_it_should_set_output_trigger_for_multiple_cycles() {
    let mut store = Store::<f32>::new();
    store.apply_dsp_reaction(true);
    store.apply_dsp_reaction(false);

    let output = tick(&mut store);
    assert!(output.impulse_trigger);
    let output = tick(&mut store);
    assert!(output.impulse_trigger);

    for _ in 0..100 {
        let output = tick(&mut store);
        if !output.impulse_trigger {
            return;
        }
    }

    panic!("Trigger was not set down within given timeout");
}

#[test]
fn when_dsp_returns_impulse_it_should_lit_impulse_led_for_multiple_cycles() {
    let mut store = Store::<f32>::new();
    store.apply_dsp_reaction(true);
    store.apply_dsp_reaction(false);

    let output = tick(&mut store);
    assert!(output.impulse_led);
    let output = tick(&mut store);
    assert!(output.impulse_led);

    for _ in 0..100 {
        let output = tick(&mut store);
        if !output.impulse_led {
            return;
        }
    }

    panic!("Trigger was not set down within given timeout");
}

#[test]
fn given_save_it_recovers_previously_set_tapped_tempo() {
    let mut store = Store::<f32>::new();
    let mut panel = Panel::new();

    tap_button(&mut store, &mut panel, 2000);
    tap_button(&mut store, &mut panel, 2000);
    tap_button(&mut store, &mut panel, 2000);
    tap_button(&mut store, &mut panel, 2000);

    let save = click_button(&mut store, &mut panel);
    assert_eq!(store.cache.tapped_tempo, Some(2000));

    let mut store = Store::<f32>::from_save(save.unwrap());
    let mut panel = Panel::new();
    apply(&mut store, &mut panel);
    assert_eq!(store.cache.tapped_tempo, Some(2000));
}

#[test]
fn given_save_it_recovers_previously_set_mapping() {
    let (mut store, mut panel) = plugged_store(0);
    panel.plugged[1] = true;
    apply(&mut store, &mut panel);

    panel.pots.drive = true;
    apply(&mut store, &mut panel);

    let save = store.cache.save();
    let mut store = Store::<f32>::from_save(save);
    let mut panel_after = Panel::new();
    panel_after.plugged = panel.plugged;
    panel_after.last_plugged = panel.plugged;
    panel_after.pots = panel.pots;
    apply(&mut store, &mut panel_after);

    assert_eq!(store.cache.mapping[1], AttributeIdentifier::Drive);
    assert_eq!(store.state, State::Normal);
}

#[test]
fn given_save_if_new_control_was_plugged_since_it_gets_to_the_queque() {
    let store = Store::<f32>::new();

    let save = store.cache.save();

    let mut panel = Panel::new();
    panel.plugged[1] = true;

    let mut store = Store::<f32>::from_save(save);
    apply(&mut store, &mut panel);

    assert_eq!(store.state, State::Mapping(StateMapping { input: 1 }));
}

#[test]
fn given_save_it_recovers_previously_set_calibration_and_mapping() {
    let mut store = Store::<f32>::new();
    let mut panel = Panel::new();
    apply(&mut store, &mut panel);

    panel.button = true;
    apply(&mut store, &mut panel);

    panel.plugged[1] = true;
    apply(&mut store, &mut panel);

    panel.button = false;
    apply(&mut store, &mut panel);

    panel.value[1] = 0x3f99_999a;
    for _ in 0..10 {
        apply(&mut store, &mut panel);
    }
    click_button(&mut store, &mut panel);

    panel.value[1] = 0x4013_3333;
    panel.calibration = Some(example_calibration());
    for _ in 0..10 {
        apply(&mut store, &mut panel);
    }
    click_button(&mut store, &mut panel);
    panel.calibration = None;

    panel.pots.drive = true;
    apply(&mut store, &mut panel);
    assert_eq!(store.state, State::Normal);

    let calibration = store.cache.calibrations[1];
    let mapping = store.cache.mapping[1];
    assert_eq!(calibration, example_calibration());
    assert_eq!(mapping, AttributeIdentifier::Drive);

    let save = store.cache.save();
    let mut store = Store::<f32>::from_save(save);
    let mut panel_after = Panel::new();
    panel_after.plugged = panel.plugged;
    panel_after.last_plugged = panel.plugged;
    apply(&mut store, &mut panel_after);

    assert_eq!(store.cache.calibrations[1], calibration);
    assert_eq!(store.cache.mapping[1], mapping);
    assert_eq!(store.state, State::Normal);
}

#[test]
fn given_save_it_recovers_previously_set_configuration() {
    let (mut store, mut panel) = configuring_store();

    turn_rewind(&mut panel, 0, (3, 3));
    apply_4(&mut store, &mut panel);
    rest_rewind(&mut panel, 0);
    turn_rewind(&mut panel, 1, (3, 3));
    apply_4(&mut store, &mut panel);
    rest_rewind(&mut panel, 1);
    turn_rewind(&mut panel, 2, (3, 3));
    apply_4(&mut store, &mut panel);
    rest_rewind(&mut panel, 2);
    turn_rewind(&mut panel, 3, (3, 3));
    apply_4(&mut store, &mut panel);

    let save = click_button(&mut store, &mut panel);

    let mut store = Store::<f32>::from_save(save.unwrap());
    apply(&mut store, &mut Panel::new());

    assert_eq!(store.cache.configuration.rewind_speed[0], (3, 3));
    assert_eq!(store.cache.configuration.rewind_speed[1], (3, 3));
    assert_eq!(store.cache.configuration.rewind_speed[2], (3, 3));
    assert_eq!(store.cache.configuration.rewind_speed[3], (3, 3));
}

#[test]
fn when_button_is_clicked_in_exact_interval_it_detects_tempo() {
    let mut store = Store::<f32>::new();
    let mut panel = Panel::new();

    for _ in 0..4 {
        tap_button(&mut store, &mut panel, 2000);
    }

    apply(&mut store, &mut panel);
    assert_eq!(store.cache.tapped_tempo, Some(2000));
}

#[test]
fn when_button_is_clicked_in_rough_interval_within_toleration_it_detects_tempo() {
    let mut store = Store::<f32>::new();
    let mut panel = Panel::new();

    tap_button(&mut store, &mut panel, 1990);
    tap_button(&mut store, &mut panel, 2050);
    tap_button(&mut store, &mut panel, 2000);
    tap_button(&mut store, &mut panel, 2);

    apply(&mut store, &mut panel);
    assert_eq!(store.cache.tapped_tempo, Some(2000));
}

#[test]
fn when_button_is_clicked_too_fast_it_does_not_detect_tempo() {
    let mut store = Store::<f32>::new();
    let mut panel = Panel::new();

    tap_button(&mut store, &mut panel, 20);
    tap_button(&mut store, &mut panel, 20);
    tap_button(&mut store, &mut panel, 20);
    tap_button(&mut store, &mut panel, 20);

    assert!(store.cache.tapped_tempo.is_none());
}

#[test]
fn when_button_is_clicked_in_unequal_interval_it_does_not_detect_tempo() {
    let mut store = Store::<f32>::new();
    let mut panel = Panel::new();

    tap_button(&mut store, &mut panel, 2000);
    tap_button(&mut store, &mut panel, 1000);
    tap_button(&mut store, &mut panel, 2000);
    tap_button(&mut store, &mut panel, 2000);

    assert!(store.cache.tapped_tempo.is_none());
}

#[test]
fn when_tempo_is_tapped_in_it_is_overwritten_only_after_speed_pot_turning() {
    let mut store = Store::<f32>::new();
    let mut panel = Panel::new();

    tap_button(&mut store, &mut panel, 2000);
    tap_button(&mut store, &mut panel, 2000);
    tap_button(&mut store, &mut panel, 2000);
    tap_button(&mut store, &mut panel, 2000);
    apply(&mut store, &mut panel);
    assert_eq!(store.cache.tapped_tempo, Some(2000));

    panel.pots.tone = true;
    apply(&mut store, &mut panel);
    tick(&mut store);
    assert_eq!(store.cache.tapped_tempo, Some(2000));

    panel.pots.tone = false;
    panel.pots.speed = true;
    for _ in 0..4 {
        apply(&mut store, &mut panel);
        tick(&mut store);
    }
    assert_eq!(store.cache.tapped_tempo, None);
}

#[test]
fn store_when_control_is_plugged_then_state_changes_to_mapping() {
    let (mut store, mut panel) = plugged_store(0);

    panel.plugged[1] = true;
    let save = apply(&mut store, &mut panel);

    assert!(save.is_none());
    assert!(matches!(
        store.state,
        State::Mapping(StateMapping { input: 1 })
    ));
    assert_animation(&mut store, &[9600, 800, 690, 609, 9600, 800, 690, 609]);
}

#[test]
fn store_when_control_is_plugged_while_holding_button_then_state_changes_to_calibration() {
    let (mut store, mut panel) = plugged_store(0);

    panel.button = true;
    panel.plugged[1] = true;
    let save = apply(&mut store, &mut panel);

    assert!(save.is_none());
    assert!(matches!(
        store.state,
        State::Calibrating(StateCalibrating {
            input: 1,
            phase: CalibrationPhase::Octave1
        })
    ));
    assert_animation(&mut store, &[9800, 600, 9800, 600]);
}

#[test]
fn store_when_multiple_controls_are_plugged_then_are_all_added_to_queue() {
    let (mut store, mut panel) = plugged_store(0);

    panel.plugged[1] = true;
    panel.plugged[2] = true;
    apply(&mut store, &mut panel);

    assert!(matches!(
        store.state,
        State::Mapping(StateMapping { input: 1 })
    ));
    assert_eq!(store.queue.len(), 1);
}

#[test]
fn when_button_is_held_for_5_seconds_it_enters_configuration_mode() {
    let (store, _) = configuring_store();
    assert!(matches!(store.state, State::Configuring(_)));
}

#[test]
fn when_clicks_button_it_saves_configuration_and_enters_normal_mode() {
    let (mut store, mut panel) = configuring_store();

    turn_rewind(&mut panel, 0, (0, 0));
    apply_4(&mut store, &mut panel);
    rest_rewind(&mut panel, 0);
    turn_rewind(&mut panel, 1, (1, 1));
    apply_4(&mut store, &mut panel);
    rest_rewind(&mut panel, 1);
    turn_rewind(&mut panel, 2, (2, 2));
    apply_4(&mut store, &mut panel);
    rest_rewind(&mut panel, 2);
    turn_rewind(&mut panel, 3, (3, 3));
    apply_4(&mut store, &mut panel);

    let save = click_button(&mut store, &mut panel);

    assert!(save.is_some());
    assert_eq!(store.state, State::Normal);
    assert_eq!(store.cache.configuration.rewind_speed[0], (0, 0));
    assert_eq!(store.cache.configuration.rewind_speed[1], (1, 1));
    assert_eq!(store.cache.configuration.rewind_speed[2], (2, 2));
    assert_eq!(store.cache.configuration.rewind_speed[3], (3, 3));
}

#[test]
fn when_turns_volume_and_feedback_the_rewind_speed_is_visualized_on_display() {
    let (mut store, mut panel) = configuring_store();

    turn_rewind(&mut panel, 0, (0, 0));
    apply_4(&mut store, &mut panel);
    assert_animation(&mut store, &[9006]);
    rest_rewind(&mut panel, 0);

    turn_rewind(&mut panel, 1, (1, 1));
    apply_4(&mut store, &mut panel);
    assert_animation(&mut store, &[9966]);
    rest_rewind(&mut panel, 1);

    turn_rewind(&mut panel, 2, (2, 2));
    apply_4(&mut store, &mut panel);
    assert_animation(&mut store, &[9886]);
    rest_rewind(&mut panel, 2);

    turn_rewind(&mut panel, 3, (3, 3));
    apply_4(&mut store, &mut panel);
    assert_animation(&mut store, &[8888]);
}

#[test]
fn when_does_not_change_attribute_it_keeps_the_previously_set_value() {
    let (mut store, mut panel) = configuring_store();

    turn_rewind(&mut panel, 2, (2, 2));
    apply_4(&mut store, &mut panel);
    click_button(&mut store, &mut panel);

    assert_eq!(store.cache.configuration.rewind_speed[2], (2, 2));

    rest_rewind(&mut panel, 2);
    apply_4(&mut store, &mut panel);

    hold_button(&mut store, &mut panel);

    turn_rewind(&mut panel, 1, (1, 1));
    apply_4(&mut store, &mut panel);
    click_button(&mut store, &mut panel);

    assert_eq!(store.cache.configuration.rewind_speed[2], (2, 2));
    assert_eq!(store.cache.configuration.rewind_speed[1], (1, 1));
}

#[test]
fn when_no_attribute_was_changed_yet_it_shows_animation() {
    let (mut store, _) = configuring_store();
    assert_animation(&mut store, &[9696, 6969]);
}

#[test]
fn when_pot_is_active_it_gets_mapped_to_the_current_control_and_saved() {
    let (mut store, mut panel) = plugged_store(4);

    panel.pots.drive = true;
    let save = apply(&mut store, &mut panel);
    assert_eq!(save.unwrap().mapping[0], AttributeIdentifier::Drive);
    assert_eq!(store.cache.mapping[0], AttributeIdentifier::Drive);
    panel.pots.drive = false;
    apply_4(&mut store, &mut panel);

    panel.pots.speed = true;
    let save = apply(&mut store, &mut panel);
    assert_eq!(save.unwrap().mapping[0], AttributeIdentifier::Drive);
    assert_eq!(save.unwrap().mapping[1], AttributeIdentifier::Speed);
    assert_eq!(store.cache.mapping[0], AttributeIdentifier::Drive);
    assert_eq!(store.cache.mapping[1], AttributeIdentifier::Speed);
    panel.pots.speed = false;
    apply_4(&mut store, &mut panel);

    panel.pots.dry_wet = true;
    let save = apply(&mut store, &mut panel);
    assert_eq!(save.unwrap().mapping[0], AttributeIdentifier::Drive);
    assert_eq!(save.unwrap().mapping[1], AttributeIdentifier::Speed);
    assert_eq!(save.unwrap().mapping[2], AttributeIdentifier::DryWet);
    assert_eq!(store.cache.mapping[0], AttributeIdentifier::Drive);
    assert_eq!(store.cache.mapping[1], AttributeIdentifier::Speed);
    assert_eq!(store.cache.mapping[2], AttributeIdentifier::DryWet);
    panel.pots.dry_wet = false;
    apply_4(&mut store, &mut panel);

    panel.pots.bias = true;
    let save = apply(&mut store, &mut panel);
    assert_eq!(save.unwrap().mapping[0], AttributeIdentifier::Drive);
    assert_eq!(save.unwrap().mapping[1], AttributeIdentifier::Speed);
    assert_eq!(save.unwrap().mapping[2], AttributeIdentifier::DryWet);
    assert_eq!(save.unwrap().mapping[3], AttributeIdentifier::Bias);
    assert_eq!(store.cache.mapping[0], AttributeIdentifier::Drive);
    assert_eq!(store.cache.mapping[1], AttributeIdentifier::Speed);
    assert_eq!(store.cache.mapping[2], AttributeIdentifier::DryWet);
    assert_eq!(store.cache.mapping[3], AttributeIdentifier::Bias);
}

#[test]
fn store_when_last_pending_control_is_processed_then_state_changes_to_normal() {
    let (mut store, mut panel) = plugged_store(1);
    assert_eq!(store.state, State::Mapping(StateMapping { input: 0 }));

    panel.pots.drive = true;
    apply_4(&mut store, &mut panel);
    assert_eq!(store.state, State::Normal);
    assert_animation(&mut store, &[0]);
}

#[test]
fn store_when_second_last_pending_control_is_processed_it_moves_to_last() {
    let (mut store, mut panel) = plugged_store(2);

    panel.pots.drive = true;
    apply_4(&mut store, &mut panel);
    assert_eq!(store.state, State::Mapping(StateMapping { input: 1 }));
}

#[test]
fn store_when_multiple_controls_are_plugged_then_they_are_all_added_to_queue() {
    let (mut store, mut panel) = plugged_store(2);
    assert_eq!(store.state, State::Mapping(StateMapping { input: 0 }));
    assert_eq!(store.queue.len(), 1);
    assert!(store.queue.contains(&ControlAction::Mapping(1)));

    panel.plugged[2] = true;
    panel.plugged[3] = true;
    apply(&mut store, &mut panel);
    assert_eq!(store.state, State::Mapping(StateMapping { input: 0 }));
    assert_eq!(store.queue.len(), 3);
    assert!(store.queue.contains(&ControlAction::Mapping(1)));
    assert!(store.queue.contains(&ControlAction::Mapping(2)));
    assert!(store.queue.contains(&ControlAction::Mapping(3)));
}

#[test]
fn store_when_control_is_unplugged_it_is_removed_from_queue() {
    let (mut store, mut panel) = plugged_store(3);
    assert_eq!(store.state, State::Mapping(StateMapping { input: 0 }));
    assert_eq!(store.queue.len(), 2);
    assert!(store.queue.contains(&ControlAction::Mapping(1)));
    assert!(store.queue.contains(&ControlAction::Mapping(2)));

    panel.plugged[1] = false;
    apply(&mut store, &mut panel);
    assert_eq!(store.state, State::Mapping(StateMapping { input: 0 }));
    assert_eq!(store.queue.len(), 1);
    assert!(store.queue.contains(&ControlAction::Mapping(2)));
}

#[test]
fn store_when_mapped_control_in_unplugged_it_is_unmapped() {
    let (mut store, mut panel) = plugged_store(2);

    panel.pots.drive = true;
    apply_4(&mut store, &mut panel);
    assert_eq!(store.cache.mapping[0], AttributeIdentifier::Drive);
    assert_eq!(store.state, State::Mapping(StateMapping { input: 1 }));

    panel.pots.drive = false;
    panel.plugged[0] = false;
    apply_4(&mut store, &mut panel);
    assert_eq!(store.cache.mapping[0], AttributeIdentifier::Unmapped);
    assert_eq!(store.state, State::Mapping(StateMapping { input: 1 }));
}

#[test]
fn store_when_active_pot_is_assigned_it_is_not_reassigned() {
    let (mut store, mut panel) = plugged_store(2);

    panel.pots.drive = true;
    apply_4(&mut store, &mut panel);
    assert_eq!(store.cache.mapping[0], AttributeIdentifier::Drive);
    assert_eq!(store.cache.mapping[1], AttributeIdentifier::Unmapped);

    apply_4(&mut store, &mut panel);
    assert_eq!(store.cache.mapping[0], AttributeIdentifier::Drive);
    assert_eq!(store.cache.mapping[1], AttributeIdentifier::Unmapped);
    assert_eq!(store.state, State::Mapping(StateMapping { input: 1 }));

    assert_animation(&mut store, &[9600, 800, 690, 609]);
}

#[test]
fn when_control_is_unplugged_it_returns_to_normal_mode() {
    let (mut store, mut panel) = plugged_store(1);
    assert_eq!(store.state, State::Mapping(StateMapping { input: 0 }));

    panel.plugged[0] = false;
    apply_4(&mut store, &mut panel);
    assert_eq!(store.state, State::Normal);
}

#[test]
fn when_correct_values_are_given_it_successfully_converges_turns_to_mapping_and_saves() {
    let (mut store, mut panel) = calibrating_store(1);
    assert_eq!(
        store.state,
        State::Calibrating(StateCalibrating {
            input: 0,
            phase: CalibrationPhase::Octave1
        })
    );
    assert_animation(&mut store, &[8900, 6000, 8900, 6000]);

    panel.value[0] = 0x3fa6_6666;
    apply_4(&mut store, &mut panel);
    click_button(&mut store, &mut panel);
    assert_eq!(
        store.state,
        State::Calibrating(StateCalibrating {
            input: 0,
            phase: CalibrationPhase::Octave2(0x3fa6_6666)
        })
    );
    assert_eq!(store.pending_calibration(), Some((0, 0x3fa6_6666)));
    assert_animation(&mut store, &[6099, 6000, 6099, 6000]);

    panel.value[0] = 0x4019_999a;
    panel.calibration = Some(example_calibration());
    apply(&mut store, &mut panel);
    let save = click_button(&mut store, &mut panel);
    panel.calibration = None;
    let saved_calibration = save.unwrap().calibrations[0];
    assert_ne!(saved_calibration, StoredCalibration::default());
    let store_calibration = store.cache.calibrations[0];
    assert_ne!(store_calibration, StoredCalibration::default());
    assert_eq!(store.state, State::Mapping(StateMapping { input: 0 }));
    assert_animation(&mut store, &[8000, 6900, 6090, 6009]);
}

#[test]
fn when_incorrect_values_are_given_it_it_cancels_calibration_turns_to_mapping_and_does_not_save() {
    let (mut store, mut panel) = calibrating_store(1);
    assert_eq!(
        store.state,
        State::Calibrating(StateCalibrating {
            input: 0,
            phase: CalibrationPhase::Octave1
        })
    );
    assert_animation(&mut store, &[8900, 6000, 8900, 6000]);

    panel.value[0] = 0x3fa6_6666;
    apply_4(&mut store, &mut panel);
    click_button(&mut store, &mut panel);
    assert_eq!(
        store.state,
        State::Calibrating(StateCalibrating {
            input: 0,
            phase: CalibrationPhase::Octave2(0x3fa6_6666)
        })
    );
    assert_animation(&mut store, &[6099, 6000, 6099, 6000]);

    panel.value[0] = 0x3fb3_3333;
    panel.calibration = None;
    apply(&mut store, &mut panel);
    let save = click_button(&mut store, &mut panel);
    assert!(save.is_none());
    let store_calibration = store.cache.calibrations[0];
    assert_eq!(store_calibration, StoredCalibration::default());
    assert_eq!(store.state, State::Mapping(StateMapping { input: 0 }));
    assert_animation(&mut store, &[8888, 0, 8888, 0, 6090, 6009]);
}

#[test]
fn calibrating_when_multiple_controls_are_plugged_then_they_are_all_added_to_queue() {
    let (mut store, mut panel) = calibrating_store(2);
    assert_eq!(
        store.state,
        State::Calibrating(StateCalibrating {
            input: 0,
            phase: CalibrationPhase::Octave1
        })
    );
    assert_eq!(store.queue.len(), 3);
    assert!(store.queue.contains(&ControlAction::Mapping(0)));
    assert!(store.queue.contains(&ControlAction::Calibrate(1)));
    assert!(store.queue.contains(&ControlAction::Mapping(1)));

    panel.plugged[2] = true;
    panel.plugged[3] = true;
    apply(&mut store, &mut panel);
    assert_eq!(
        store.state,
        State::Calibrating(StateCalibrating {
            input: 0,
            phase: CalibrationPhase::Octave1
        })
    );
    assert_eq!(store.queue.len(), 5);
    assert!(store.queue.contains(&ControlAction::Mapping(0)));
    assert!(store.queue.contains(&ControlAction::Calibrate(1)));
    assert!(store.queue.contains(&ControlAction::Mapping(1)));
    assert!(store.queue.contains(&ControlAction::Mapping(2)));
    assert!(store.queue.contains(&ControlAction::Mapping(3)));
}

#[test]
fn calibrating_when_control_is_unplugged_it_is_removed_from_queue() {
    let (mut store, mut panel) = calibrating_store(3);
    assert_eq!(
        store.state,
        State::Calibrating(StateCalibrating {
            input: 0,
            phase: CalibrationPhase::Octave1
        })
    );
    assert_eq!(store.queue.len(), 5);

    panel.plugged[1] = false;
    apply(&mut store, &mut panel);
    assert_eq!(
        store.state,
        State::Calibrating(StateCalibrating {
            input: 0,
            phase: CalibrationPhase::Octave1
        })
    );
    assert_eq!(store.queue.len(), 3);
}

#[test]
fn when_currently_mapping_control_is_unplugged_it_returns_to_normal() {
    let (mut store, mut panel) = calibrating_store(1);
    assert_eq!(
        store.state,
        State::Calibrating(StateCalibrating {
            input: 0,
            phase: CalibrationPhase::Octave1
        })
    );
    assert_eq!(store.queue.len(), 1);

    panel.plugged[0] = false;
    apply(&mut store, &mut panel);
    assert_eq!(store.state, State::Normal);
    assert_animation(&mut store, &[8888, 0, 8888, 0]);
}

#[test]
fn store_when_calibrated_control_is_unplugged_it_retains_calibration() {
    let (mut store, mut panel) = calibrating_store(1);

    panel.value[0] = 0x3fa6_6666;
    apply_4(&mut store, &mut panel);
    click_button(&mut store, &mut panel);

    panel.value[0] = 0x4019_999a;
    panel.calibration = Some(example_calibration());
    apply_4(&mut store, &mut panel);
    click_button(&mut store, &mut panel);
    panel.calibration = None;

    let original = store.cache.calibrations[0];
    assert_eq!(original, example_calibration());

    panel.plugged[0] = false;
    apply_4(&mut store, &mut panel);

    assert_eq!(store.cache.calibrations[0], original);
}

#[test]
fn store_when_steady_clock_passes_in_it_detects_tempo() {
    let mut store = Store::<f32>::new();
    let mut panel = Panel::new();
    panel.plugged[1] = true;

    clock_trigger(&mut store, &mut panel, 1, 2000);
    clock_trigger(&mut store, &mut panel, 1, 2000);
    clock_trigger(&mut store, &mut panel, 1, 2000);
    clock_trigger(&mut store, &mut panel, 1, 1);

    assert_eq!(store.cache.clock_detectors[1].detected_tempo(), Some(2000));
}

#[test]
fn store_when_clock_within_toleration_passes_it_detects_tempo() {
    let mut store = Store::<f32>::new();
    let mut panel = Panel::new();
    panel.plugged[1] = true;

    clock_trigger(&mut store, &mut panel, 1, 1995);
    clock_trigger(&mut store, &mut panel, 1, 2030);
    clock_trigger(&mut store, &mut panel, 1, 2000);
    clock_trigger(&mut store, &mut panel, 1, 1);

    assert_eq!(store.cache.clock_detectors[1].detected_tempo(), Some(2000));
}

#[test]
fn store_when_unevenly_spaced_triggers_are_given_it_is_not_recognized_as_tempo() {
    let mut store = Store::<f32>::new();
    let mut panel = Panel::new();
    panel.plugged[1] = true;

    clock_trigger(&mut store, &mut panel, 1, 2000);
    clock_trigger(&mut store, &mut panel, 1, 999);
    clock_trigger(&mut store, &mut panel, 1, 2000);
    clock_trigger(&mut store, &mut panel, 1, 1);

    assert_eq!(store.cache.clock_detectors[1].detected_tempo(), None);
}

#[test]
fn unplugged_control_does_not_keep_its_clock() {
    let mut store = Store::<f32>::new();
    let mut panel = Panel::new();
    panel.plugged[1] = true;

    clock_trigger(&mut store, &mut panel, 1, 2000);
    clock_trigger(&mut store, &mut panel, 1, 2000);
    clock_trigger(&mut store, &mut panel, 1, 2000);
    clock_trigger(&mut store, &mut panel, 1, 1);
    assert_eq!(store.cache.clock_detectors[1].detected_tempo(), Some(2000));

    panel.plugged[1] = false;
    apply(&mut store, &mut panel);
    assert_eq!(store.cache.clock_detectors[1].detected_tempo(), None);
}

#[test]
fn low_signal_restarts_the_clock_detection() {
    let mut store = Store::<f32>::new();
    let mut panel = Panel::new();
    panel.plugged[2] = true;

    clock_trigger(&mut store, &mut panel, 2, 2000);
    clock_trigger(&mut store, &mut panel, 2, 2000);
    panel.low[2] = true;
    apply(&mut store, &mut panel);
    panel.low[2] = false;
    clock_trigger(&mut store, &mut panel, 2, 2000);
    clock_trigger(&mut store, &mut panel, 2, 1);

    assert_eq!(store.cache.clock_detectors[2].detected_tempo(), None);
}

#[test]
fn unplugging_a_mapped_control_asks_for_a_save() {
    let (mut store, mut panel) = plugged_store(1);
    panel.pots.drive = true;
    apply(&mut store, &mut panel);
    panel.pots.drive = false;
    assert_eq!(store.cache.mapping[0], AttributeIdentifier::Drive);

    panel.plugged[0] = false;
    let save = apply(&mut store, &mut panel);
    assert_eq!(save.unwrap().mapping[0], AttributeIdentifier::Unmapped);
}

#[test]
fn dropping_a_tapped_tempo_is_not_saved() {
    let mut store = Store::<f32>::new();
    let mut panel = Panel::new();
    for _ in 0..4 {
        tap_button(&mut store, &mut panel, 2000);
    }
    panel.pots.speed = true;
    let save = apply(&mut store, &mut panel);
    assert!(save.is_none());
    assert_eq!(store.cache.tapped_tempo, None);
}

#[test]
fn a_pot_already_mapped_is_not_given_to_a_second_control() {
    let (mut store, mut panel) = plugged_store(2);
    panel.pots.bias = true;
    apply(&mut store, &mut panel);
    apply(&mut store, &mut panel);
    assert_eq!(store.cache.mapping[0], AttributeIdentifier::Bias);
    assert_eq!(store.cache.mapping[1], AttributeIdentifier::Unmapped);
    panel.pots.bias = false;
    panel.pots.head[1].volume = true;
    apply(&mut store, &mut panel);
    assert_eq!(store.cache.mapping[1], AttributeIdentifier::Volume(1));
}

#[test]
fn long_hold_opens_the_configuration_dialog() {
    let mut store = Store::<f32>::new();
    let mut panel = Panel::new();
    panel.button = true;
    for _ in 0..5000 {
        apply(&mut store, &mut panel);
    }
    assert_eq!(store.state, State::Normal);
    apply(&mut store, &mut panel);
    assert!(matches!(store.state, State::Configuring(_)));
}

#[test]
fn plugging_every_control_while_pressing_queues_every_action() {
    let (mut store, mut panel) = plugged_store(0);
    panel.button = true;
    panel.plugged = [true; 4];
    apply(&mut store, &mut panel);
    assert_eq!(
        store.state,
        State::Calibrating(StateCalibrating {
            input: 0,
            phase: CalibrationPhase::Octave1
        })
    );
    assert_eq!(store.queue.len(), 7);
    for i in 1..4 {
        assert!(store.queue.contains(&ControlAction::Calibrate(i)));
    }
    for i in 0..4 {
        assert!(store.queue.contains(&ControlAction::Mapping(i)));
    }

    panel.plugged[2] = false;
    apply(&mut store, &mut panel);
    panel.plugged[2] = true;
    apply(&mut store, &mut panel);
    assert_eq!(store.queue.len(), 7);
}

#[test]
fn normal_when_control_is_unplugged_it_is_removed_from_queue() {
    let (mut store, mut panel) = plugged_store(0);

    panel.plugged[1] = true;
    panel.plugged[2] = true;
    panel.plugged[3] = true;
    apply(&mut store, &mut panel);

    assert_eq!(store.state, State::Mapping(StateMapping { input: 1 }));
    assert_eq!(store.queue.len(), 2);

    panel.plugged[2] = false;
    apply(&mut store, &mut panel);

    assert_eq!(store.state, State::Mapping(StateMapping { input: 1 }));
    assert_eq!(store.queue.len(), 1);
}

#[test]
fn normal_when_mapped_control_in_unplugged_it_is_unmapped() {
    let (mut store, mut panel) = plugged_store(0);

    panel.plugged[0] = true;
    apply(&mut store, &mut panel);

    panel.pots.drive = true;
    apply(&mut store, &mut panel);
    assert_eq!(store.cache.mapping[0], AttributeIdentifier::Drive);

    panel.pots.drive = false;
    panel.plugged[0] = false;
    apply(&mut store, &mut panel);
    assert_eq!(store.cache.mapping[0], AttributeIdentifier::Unmapped);
}

#[test]
fn a_store_from_a_save_starts_with_default_options() {
    let mut store = Store::<f32>::new();
    store.cache.mapping[1] = AttributeIdentifier::Tone;
    store.cache.options.rewind = true;
    store.cache.options.unlimited = true;
    let save = store.cache.save();
    assert!(save.options.rewind);

    let restored = Store::<f32>::from_save(save);
    assert_eq!(restored.cache.mapping[1], AttributeIdentifier::Tone);
    assert!(!restored.cache.options.rewind);
    assert!(!restored.cache.options.unlimited);
}
