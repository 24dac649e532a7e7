use kaseta_control::button::Button;
use kaseta_control::input::button::Button as InputButton;
use kaseta_control::newlib::Button as DraftButton;

#[test]
fn button_when_was_up_and_now_is_down_it_is_marked_as_clicked() {
    let mut button = Button::default();
    assert!(!button.clicked);
    button.update(true);
    assert!(button.clicked);
    button.update(true);
    assert!(!button.clicked);
    button.update(false);
    assert!(!button.clicked);

    let mut button = InputButton::default();
    assert!(!button.clicked);
    button.update(true);
    assert!(button.clicked);
    button.update(true);
    assert!(!button.clicked);
    button.update(false);
    assert!(!button.clicked);
}

#[test]
fn button_when_is_down_it_reports_how_many_cycles() {
    let mut button = Button::default();
    assert_eq!(button.held, 0);
    button.update(false);
    assert_eq!(button.held, 0);
    button.update(true);
    assert_eq!(button.held, 1);
    button.update(true);
    assert_eq!(button.held, 2);
    button.update(true);
    assert_eq!(button.held, 3);
    button.update(false);
    assert_eq!(button.held, 0);

    let mut button = InputButton::default();
    assert_eq!(button.held, 0);
    button.update(false);
    assert_eq!(button.held, 0);
    button.update(true);
    assert_eq!(button.held, 1);
    button.update(true);
    assert_eq!(button.held, 2);
    button.update(true);
    assert_eq!(button.held, 3);
    button.update(false);
    assert_eq!(button.held, 0);
}

#[test]
fn newlib_when_was_up_and_now_is_down_it_is_marked_as_clicked() {
    let mut button = DraftButton::default();
    assert!(!button.clicked);
    button.update(true);
    assert!(button.clicked);
    button.update(true);
    assert!(!button.clicked);
    button.update(false);
    assert!(!button.clicked);
}

#[test]
fn when_clicked_in_exact_interval_it_detects_tempo() {
    let mut button = Button::default();
    for _ in 0..4 {
        for _ in 0..1999 {
            button.update(false);
        }
        button.update(true);
    }
    assert_eq!(button.clock_detector.detected_tempo, Some(2000));
    assert_eq!(button.detected_tempo(), Some(2000));
}

#[test]
fn when_clicked_in_rough_interval_within_toleration_it_detects_tempo() {
    let mut button = Button::default();
    button.update(true);
    for _ in 0..1990 {
        button.update(false);
    }
    button.update(true);
    for _ in 0..2059 {
        button.update(false);
    }
    button.update(true);
    for _ in 0..1999 {
        button.update(false);
    }
    button.update(true);
    assert_eq!(button.clock_detector.detected_tempo, Some(2000));
}

#[test]
fn when_clicked_too_fast_it_does_not_detect_tempo() {
    let mut button = Button::default();
    for _ in 0..4 {
        for _ in 0..19 {
            button.update(false);
        }
        button.update(true);
    }
    assert_eq!(button.clock_detector.detected_tempo, None);
}

#[test]
fn when_clicked_in_unequal_interval_it_does_not_detect_tempo() {
    let mut button = Button::default();
    button.update(true);
    for _ in 0..1999 {
        button.update(false);
    }
    button.update(true);
    for _ in 0..1999 {
        button.update(false);
    }
    button.update(true);
    for _ in 0..1083 {
        button.update(false);
    }
    button.update(true);
    assert_eq!(button.clock_detector.detected_tempo, None);
}

#[test]
fn held_button_saturates_instead_of_wrapping() {
    let mut button = InputButton::default();
    button.held = u32::MAX - 1;
    button.pressed = true;
    button.update(true);
    assert_eq!(button.held, u32::MAX);
    button.update(true);
    assert_eq!(button.held, u32::MAX);
}
