use kaseta_control::cache::display::{
    dry_wet_to_leds, feedback_to_leds, flutter_to_leds, heads_overview_to_leds, index_to_leds,
    leds_for_alt_attribute, leds_for_buffer_reset, leds_for_calibration, leds_for_clipping,
    leds_for_configuration, leds_for_dialog, leds_for_failure, leds_for_mapping, leds_for_paused,
    octave_offset_to_leds, pan_to_leds, phase_to_leds, speed_to_leds, ticked_dialog, tone_to_leds,
    volume_to_leds, wow_to_leds, AltAttributeScreen, AttributeScreen, CalibrationScreen,
    ConfigurationScreen, DialogScreen, Display, HysteresisRange, PreAmpMode, Screen, SpeedRange,
};

fn code(leds: [bool; 8]) -> u32 {
    let mut x = 0;
    for i in 0..4 {
        let digit = match (leds[i], leds[i + 4]) {
            (true, true) => 8,
            (true, false) => 9,
            (false, true) => 6,
            (false, false) => 0,
        };
        x = x * 10 + digit;
    }
    x
}

#[test]
fn failure_blinks_twice() {
    assert_eq!(code(leds_for_failure(0)), 8888);
    assert_eq!(code(leds_for_failure(79)), 8888);
    assert_eq!(code(leds_for_failure(80)), 0);
    assert_eq!(code(leds_for_failure(240)), 8888);
    assert_eq!(code(leds_for_failure(320)), 0);
}

#[test]
fn calibration_shows_control_and_blinks_octave() {
    assert_eq!(code(leds_for_calibration(0, 0, 0)), 8900);
    assert_eq!(code(leds_for_calibration(1, 0, 0)), 9800);
    assert_eq!(code(leds_for_calibration(1, 300, 0)), 600);
    assert_eq!(code(leds_for_calibration(2, 0, 1)), 89);
    assert_eq!(code(leds_for_calibration(2, 300, 1)), 60);
}

#[test]
fn mapping_walks_over_the_top_row() {
    assert_eq!(code(leds_for_mapping(1, 0)), 9600);
    assert_eq!(code(leds_for_mapping(1, 300)), 800);
    assert_eq!(code(leds_for_mapping(1, 500)), 690);
    assert_eq!(code(leds_for_mapping(1, 800)), 609);
}

#[test]
fn configuration_screens_show_their_values() {
    assert_eq!(code(leds_for_configuration(&ConfigurationScreen::Idle(0))), 9696);
    assert_eq!(code(leds_for_configuration(&ConfigurationScreen::Idle(600))), 6969);
    assert_eq!(
        code(leds_for_configuration(&ConfigurationScreen::Rewind((0, 0)))),
        9006
    );
    assert_eq!(
        code(leds_for_configuration(&ConfigurationScreen::Rewind((3, 3)))),
        8888
    );
    assert_eq!(
        code(leds_for_configuration(&ConfigurationScreen::ControlMapping(Some(2)))),
        80
    );
    assert_eq!(
        code(leds_for_configuration(&ConfigurationScreen::TapIntervalDenominator(8))),
        900
    );
    assert_eq!(
        code(leds_for_configuration(&ConfigurationScreen::DefaultScreen(5))),
        600
    );
}

#[test]
fn dialog_dispatches_to_its_screen() {
    let dialog = DialogScreen::Calibration(CalibrationScreen::SelectOctave2(0, 0));
    assert_eq!(code(leds_for_dialog(&dialog)), 6099);
    assert_eq!(code(leds_for_dialog(&DialogScreen::Mapping(3, 0))), 9006);
}

#[test]
fn alt_attributes_have_fixed_patterns() {
    assert_eq!(
        code(leds_for_alt_attribute(AltAttributeScreen::PreAmpMode(PreAmpMode::PreAmp))),
        8800
    );
    assert_eq!(
        code(leds_for_alt_attribute(AltAttributeScreen::SpeedRange(SpeedRange::Audio))),
        8
    );
    assert_eq!(
        code(leds_for_alt_attribute(AltAttributeScreen::HysteresisRange(
            HysteresisRange::Unlimited
        ))),
        6969
    );
}

#[test]
fn animations_of_paused_clipping_and_buffer_reset() {
    assert_eq!(code(leds_for_paused(0)), 880);
    assert_eq!(code(leds_for_paused(300)), 0);
    assert_eq!(code(leds_for_clipping(0)), 8800);
    assert_eq!(code(leds_for_clipping(50)), 8880);
    assert_eq!(code(leds_for_clipping(100)), 8888);
    assert_eq!(code(leds_for_buffer_reset(0)), 8888);
    assert_eq!(code(leds_for_buffer_reset(6)), 9900);
    assert_eq!(code(leds_for_buffer_reset(8)), 0);
}

#[test]
fn value_patterns() {
    assert_eq!(index_to_leds(6), [false, false, false, false, false, false, true, false]);
    assert_eq!(code(phase_to_leds(1)), 6000);
    assert_eq!(code(phase_to_leds(8)), 8888);
    assert_eq!(code(dry_wet_to_leds(1)), 9996);
    assert_eq!(code(flutter_to_leds(2)), 9900);
    assert_eq!(code(wow_to_leds(2)), 66);
    assert_eq!(code(speed_to_leds(1)), 9);
    assert_eq!(code(tone_to_leds(0, 0)), 8888);
    assert_eq!(code(tone_to_leds(4, 2)), 99);
    assert_eq!(code(volume_to_leds(1, 2)), 6800);
    assert_eq!(code(feedback_to_leds(2, 1)), 9060);
    assert_eq!(code(pan_to_leds(0, 1, 1)), 9660);
    assert_eq!(code(heads_overview_to_leds(([true, false, false, false], [false, true, false, false]))), 9600);
    assert_eq!(code(octave_offset_to_leds(3)), 8);
}

#[test]
fn dialog_animations_loop() {
    let dialog = DialogScreen::Mapping(0, 961);
    assert!(matches!(ticked_dialog(dialog), DialogScreen::Mapping(0, 0)));
    let dialog = DialogScreen::Mapping(0, 960);
    assert!(matches!(ticked_dialog(dialog), DialogScreen::Mapping(0, 961)));
}

#[test]
fn display_shows_the_screen_of_highest_priority() {
    let mut display = Display::<f32>::new();
    assert!(matches!(
        display.active_screen(),
        Screen::Attribute(0, AttributeScreen::Position(0))
    ));
    display.set_paused();
    assert!(matches!(display.active_screen(), Screen::Paused(0)));
    display.set_failure();
    assert!(matches!(display.active_screen(), Screen::Failure(0)));
    display.reset_screen(0);
    assert!(matches!(display.active_screen(), Screen::Paused(0)));
}

#[test]
fn failure_expires_after_its_animation() {
    let mut display = Display::<f32>::new();
    display.set_failure();
    for _ in 0..481 {
        display.tick();
    }
    assert!(matches!(display.active_screen(), Screen::Failure(481)));
    display.tick();
    assert!(matches!(
        display.active_screen(),
        Screen::Attribute(_, AttributeScreen::Position(0))
    ));
}

#[test]
fn updating_an_attribute_keeps_its_age_and_kind() {
    let mut display = Display::<f32>::new();
    display.force_attribute(AttributeScreen::Drive(0.2));
    display.tick();
    display.update_attribute(AttributeScreen::Drive(0.4));
    assert!(matches!(
        display.active_screen(),
        Screen::Attribute(1, AttributeScreen::Drive(v)) if *v == 0.4
    ));
    display.update_attribute(AttributeScreen::Bias(0.9));
    assert!(matches!(
        display.active_screen(),
        Screen::Attribute(1, AttributeScreen::Drive(_))
    ));
}

#[test]
fn screens_with_values_are_left_to_the_caller() {
    let screen: Screen<f32> = Screen::Attribute(0, AttributeScreen::Tone(0.5));
    assert!(screen.leds().is_none());
    let screen: Screen<f32> = Screen::Attribute(0, AttributeScreen::Position(2));
    assert_eq!(screen.leds().map(code), Some(90));
    let screen: Screen<f32> = Screen::Failure(0);
    assert_eq!(screen.leds().map(code), Some(8888));
}

#[test]
fn a_display_falls_back_to_its_first_screen() {
    let mut display = Display::<f32>::new_with_screen(Screen::Paused(0));
    assert!(matches!(display.active_screen(), Screen::Paused(0)));
    display.set_dialog(DialogScreen::configuration());
    assert!(matches!(display.active_screen(), Screen::Dialog(_)));
    display.reset_dialog();
    assert!(matches!(display.active_screen(), Screen::Paused(0)));
}

#[test]
fn calibration_can_blink_the_upper_octaves() {
    assert_eq!(code(leds_for_calibration(0, 0, 2)), 6600);
    assert_eq!(code(leds_for_calibration(2, 0, 3)), 66);
    assert_eq!(code(leds_for_calibration(2, 300, 3)), 0);
    assert_eq!(code(leds_for_calibration(2, 300, 2)), 60);
    assert_eq!(code(leds_for_calibration(1, 300, 3)), 600);
}
