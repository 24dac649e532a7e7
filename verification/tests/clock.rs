use kaseta_control::clock::{toleration, ClockDetector};

#[test]
fn when_triggered_in_exact_interval_it_detects_tempo() {
    let mut detector = ClockDetector::default();
    for _ in 0..4 {
        for _ in 0..2000 {
            detector.tick();
        }
        detector.trigger();
    }
    assert_eq!(detector.detected_tempo, Some(2000));
}

#[test]
fn when_triggered_in_rough_interval_within_toleration_it_detects_tempo() {
    let mut detector = ClockDetector::default();
    detector.trigger();
    for _ in 0..1990 {
        detector.tick();
    }
    detector.trigger();
    for _ in 0..2059 {
        detector.tick();
    }
    detector.trigger();
    for _ in 0..2000 {
        detector.tick();
    }
    detector.trigger();
    assert_eq!(detector.detected_tempo, Some(2000));
}

#[test]
fn when_triggered_too_fast_it_does_not_detect_tempo() {
    let mut detector = ClockDetector::default();
    for _ in 0..4 {
        for _ in 0..20 {
            detector.tick();
        }
        detector.tick();
    }
    assert_eq!(detector.detected_tempo, None);
}

#[test]
fn when_triggered_in_unequal_interval_it_does_not_detect_tempo() {
    let mut detector = ClockDetector::default();
    detector.trigger();
    for _ in 0..2000 {
        detector.tick();
    }
    detector.trigger();
    for _ in 0..2000 {
        detector.tick();
    }
    detector.trigger();
    for _ in 0..1083 {
        detector.tick();
    }
    detector.trigger();
    assert_eq!(detector.detected_tempo, None);
}

#[test]
fn steady_triggers_give_their_distance_as_tempo() {
    let mut detector = ClockDetector::default();
    for _ in 0..4 {
        for _ in 0..500 {
            detector.tick();
        }
        detector.trigger();
    }
    assert_eq!(detector.detected_tempo, Some(500));
    detector.reset();
    assert_eq!(detector.detected_tempo, Some(500));
    detector.trigger();
    assert_eq!(detector.detected_tempo, None);
}

#[test]
fn triggers_at_most_a_hundred_cycles_apart_are_not_a_clock() {
    let mut detector = ClockDetector::default();
    for _ in 0..4 {
        for _ in 0..100 {
            detector.tick();
        }
        detector.trigger();
    }
    assert_eq!(detector.detected_tempo, None);
}

#[test]
fn toleration_spans_from_below_to_above_the_distance() {
    let range = toleration(2000);
    assert!(range.start < 2000 && 2000 < range.end);
    assert!(range.contains(&1990));
    assert!(!range.contains(&1000));
}
