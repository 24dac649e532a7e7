use kaseta_control::cache::configuration::{Configuration, DisplayPage};
use kaseta_control::cache::display::{AltAttributeScreen, HysteresisRange, Screen, SpeedRange};
use kaseta_control::cache::quantization::Quantization;
use kaseta_control::cache::{DelayRange, Options, WowFlutterPlacement};
use kaseta_control::mapping::AttributeIdentifier;
use kaseta_control::store::{
    active_attribute, update_rewind_configuration, updated_configuration_draft, HeadActivity,
    OptionSelection, PotActivity, Store, TempoSource,
};

fn idle_head() -> HeadActivity {
    HeadActivity {
        position: false,
        volume: false,
        feedback: false,
        pan: false,
    }
}

fn idle_pots() -> PotActivity {
    PotActivity {
        pre_amp: false,
        drive: false,
        bias: false,
        dry_wet: false,
        wow_flut: false,
        speed: false,
        tone: false,
        head: [idle_head(); 4],
    }
}

#[test]
fn defaults_of_options_and_configuration() {
    let options = Options::default();
    assert_eq!(options.delay_range, DelayRange::Long);
    assert_eq!(options.wow_flutter_placement, WowFlutterPlacement::Both);
    assert!(!options.unlimited);
    let configuration = Configuration::default();
    assert_eq!(configuration.rewind_speed, [(0, 0), (1, 1), (2, 2), (3, 3)]);
    assert!(configuration.default_display_page.is_heads());
    assert!(!DisplayPage::Heads.is_position());
    assert_eq!(WowFlutterPlacement::Read.index(), 1);
    assert!(WowFlutterPlacement::Input.is_input());
}

#[test]
fn quantization_from_options() {
    assert_eq!(Quantization::from((true, true)), Quantization::Both);
    assert_eq!(Quantization::from((true, false)), Quantization::Six);
    assert_eq!(Quantization::from((false, true)), Quantization::Eight);
    assert_eq!(Quantization::from((false, false)), Quantization::Disabled);
}

#[test]
fn the_first_turned_pot_is_the_active_attribute() {
    let mut pots = idle_pots();
    assert_eq!(active_attribute(&pots), AttributeIdentifier::Unmapped);
    pots.head[2].pan = true;
    pots.head[3].position = true;
    assert_eq!(active_attribute(&pots), AttributeIdentifier::Pan(2));
    pots.tone = true;
    assert_eq!(active_attribute(&pots), AttributeIdentifier::Tone);
    pots.pre_amp = true;
    assert_eq!(active_attribute(&pots), AttributeIdentifier::PreAmp);
}

#[test]
fn rewind_speeds_follow_the_active_pots() {
    let mut draft = Configuration::default();
    let mut head = idle_head();
    assert!(update_rewind_configuration(&mut draft, 1, &head, (3, 0)).is_none());
    assert_eq!(draft.rewind_speed[1], (1, 1));
    head.volume = true;
    assert!(update_rewind_configuration(&mut draft, 1, &head, (3, 0)).is_some());
    assert_eq!(draft.rewind_speed[1], (3, 1));

    let mut heads = [idle_head(); 4];
    heads[2].feedback = true;
    heads[3].volume = true;
    let (updated, screen) = updated_configuration_draft(draft, &heads, &[(2, 2); 4]);
    assert!(screen.is_some());
    assert_eq!(updated.rewind_speed[2], (2, 2));
    assert_eq!(updated.rewind_speed[3], (3, 3));
}

#[test]
fn selecting_an_option_shows_it_and_asks_for_a_save_once() {
    let mut store = Store::<f32>::new();
    let mut needs_save = false;
    store.select_option(OptionSelection::DelayRange(DelayRange::Audio), &mut needs_save);
    assert!(needs_save);
    assert_eq!(store.cache.options.delay_range, DelayRange::Audio);
    assert!(matches!(
        store.cache.display.active_screen(),
        Screen::AltAttribute(0, AltAttributeScreen::SpeedRange(SpeedRange::Audio))
    ));

    let mut needs_save = false;
    store.select_option(OptionSelection::DelayRange(DelayRange::Audio), &mut needs_save);
    assert!(!needs_save);

    store.select_option(OptionSelection::Unlimited(true), &mut needs_save);
    assert!(needs_save);
    assert!(store.cache.options.unlimited);
    assert!(matches!(
        store.cache.display.active_screen(),
        Screen::AltAttribute(0, AltAttributeScreen::HysteresisRange(HysteresisRange::Unlimited))
    ));
}

#[test]
fn tempo_comes_from_the_pot_until_tapped() {
    let mut store = Store::<f32>::new();
    assert_eq!(store.tempo_source(), (TempoSource::Pot, false));
    store.cache.tapped_tempo = Some(1500);
    assert_eq!(store.tempo_source(), (TempoSource::Tapped(1500), false));
}

#[test]
fn a_clock_on_the_speed_control_takes_over() {
    let mut store = Store::<f32>::new();
    store.cache.tapped_tempo = Some(1500);
    store.cache.mapping[2] = AttributeIdentifier::Speed;
    for _ in 0..4 {
        for _ in 0..800 {
            store.cache.clock_detectors[2].tick();
        }
        store.cache.clock_detectors[2].trigger();
    }
    assert_eq!(store.tempo_source(), (TempoSource::Clock(800), true));
    assert_eq!(store.control_index_for_attribute(AttributeIdentifier::Speed), Some(2));
    assert_eq!(store.control_index_for_attribute(AttributeIdentifier::Drive), None);
}
