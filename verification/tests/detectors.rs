use kaseta_control::cache::tap_clock_detector::TapClockDetector;
use kaseta_control::cache::tap_detector::TapDetector;
use kaseta_control::cache::trigger::Trigger;
use kaseta_control::input::activity::latest_pot_activity;
use kaseta_control::input::buffer::{is_power_of_2, Buffer};
use kaseta_control::input::control::Control;
use kaseta_control::led::Led;

#[test]
fn tap_detector_marks_the_cycle_of_detection() {
    let mut detector = TapDetector::new();
    for _ in 0..4 {
        for _ in 0..1000 {
            detector.tick();
        }
        detector.trigger();
    }
    assert!(detector.just_detected());
    assert_eq!(detector.detected_tempo(), Some(1000));
    detector.tick();
    assert!(!detector.just_detected());
    assert_eq!(detector.detected_tempo(), Some(1000));
    detector.reset();
    assert_eq!(detector.detected_tempo(), None);
}

#[test]
fn clock_detector_forgets_an_uneven_clock() {
    let mut detector = TapClockDetector::new();
    for interval in [1000, 1000, 1000, 400] {
        for _ in 0..interval {
            detector.tick();
        }
        detector.trigger();
    }
    assert_eq!(detector.detected_tempo(), None);
    assert!(!detector.just_detected());
}

#[test]
fn trigger_and_led_stay_on_for_a_while() {
    let mut trigger = Trigger::new();
    let mut led = Led::new();
    for _ in 0..200 {
        trigger.tick();
        led.tick();
    }
    assert!(!trigger.triggered());
    assert!(!led.triggered());
    trigger.trigger();
    led.trigger();
    for _ in 0..9 {
        trigger.tick();
        led.tick();
    }
    assert!(trigger.triggered());
    trigger.tick();
    assert!(!trigger.triggered());
    for _ in 0..90 {
        led.tick();
    }
    assert!(led.triggered());
    led.tick();
    assert!(!led.triggered());
}

#[test]
fn buffer_keeps_the_latest_samples() {
    assert!(is_power_of_2(4));
    assert!(!is_power_of_2(6));
    let mut buffer: Buffer<u32, 4> = Buffer::new(0);
    for x in 1..=6 {
        buffer.write(x);
    }
    assert_eq!(buffer.read_raw(), 6);
    assert_eq!(buffer.read_previous_raw(), 5);
    assert_eq!(buffer.read_oldest_raw(), 3);
    let mut samples = buffer.samples_raw();
    samples.sort();
    assert_eq!(samples, [3, 4, 5, 6]);
    buffer.reset(9);
    assert_eq!(buffer.samples_raw(), [9; 4]);
}

#[test]
fn control_reports_plugging_for_one_cycle() {
    let mut control: Control<f32> = Control::new(0.0);
    control.update(None);
    assert!(!control.is_plugged && !control.was_plugged);
    control.update(Some(1.0));
    assert!(control.is_plugged && control.was_plugged);
    assert_eq!(control.value_raw(), 1.0);
    control.update(Some(2.0));
    assert!(control.is_plugged && !control.was_plugged);
    assert_eq!(control.previous_value_raw(), 1.0);
    control.update(None);
    assert!(!control.is_plugged && control.was_unplugged);
    assert_eq!(control.value_raw(), 0.0);
}

#[test]
fn latest_activity_is_the_least_count() {
    let global = [10, 20, 30, 40, 50, 60, 70];
    let mut heads = [[100; 4]; 4];
    assert_eq!(latest_pot_activity(&global, &heads), 10);
    heads[2][3] = 3;
    assert_eq!(latest_pot_activity(&global, &heads), 3);
}

#[test]
fn tap_and_clock_detectors_detect_alike() {
    let mut tap = TapDetector::new();
    let mut clock = TapClockDetector::new();
    let intervals = [700, 300, 1000, 1000, 1000, 1020, 50];
    for (n, interval) in intervals.iter().enumerate() {
        for _ in 0..*interval {
            tap.tick();
            clock.tick();
        }
        if n == 2 {
            tap.reset();
            clock.reset();
        }
        tap.trigger();
        clock.trigger();
        assert_eq!(tap.detected_tempo(), clock.detected_tempo());
        assert_eq!(tap.just_detected(), clock.just_detected());
    }
}
