//! State machine representing 8 display LEDs of the module.
//!
//! The screens carrying a continuous attribute value hold it as `P`; turning
//! that value into a number of lit LEDs is left to the caller, which then
//! uses the pattern functions of this module.

use vstd::prelude::*;

verus! {

/// State machine representing 8 display LEDs of the module.
///
/// This structure handles the prioritization of display modes, their
/// changing from one to another, or animations. Slot 0 has the highest
/// priority, slot 7 holds the fallback.
#[derive(Debug)]
pub struct Display<P> {
    pub prioritized: [Option<Screen<P>>; 8],
}

#[derive(Debug, Copy)]
pub enum Screen<P> {
    Dialog(DialogScreen),
    Failure(u32),
    AltAttribute(u32, AltAttributeScreen),
    Attribute(u32, AttributeScreen<P>),
    Clipping(u32),
    Paused(u32),
    BufferReset(u32),
}

#[derive(Debug, Clone, Copy)]
pub enum DialogScreen {
    Calibration(CalibrationScreen),
    Mapping(usize, u32),
    Configuration(ConfigurationScreen),
}

#[derive(Debug, Clone, Copy)]
pub enum CalibrationScreen {
    SelectOctave1(usize, u32),
    SelectOctave2(usize, u32),
}

#[derive(Debug, Clone, Copy)]
pub enum ConfigurationScreen {
    Idle(u32),
    Rewind((usize, usize)),
    DefaultScreen(usize),
    ControlMapping(Option<usize>),
    TapIntervalDenominator(usize),
}

#[derive(Debug, Clone, Copy)]
pub enum AltAttributeScreen {
    PreAmpMode(PreAmpMode),
    SpeedRange(SpeedRange),
    FilterPlacement(FilterPlacement),
    HysteresisRange(HysteresisRange),
    WowFlutterPlacement(WowFlutterPlacement),
}

#[derive(Debug, Clone, Copy)]
pub enum PreAmpMode {
    PreAmp,
    Oscillator,
}

#[derive(Debug, Clone, Copy)]
pub enum SpeedRange {
    Long,
    Short,
    Audio,
}

#[derive(Debug, Clone, Copy)]
pub enum FilterPlacement {
    Input,
    Feedback,
    Both,
}

#[derive(Debug, Clone, Copy)]
pub enum HysteresisRange {
    Unlimited,
    Limited,
}

#[derive(Debug, Clone, Copy)]
pub enum WowFlutterPlacement {
    Input,
    Read,
    Both,
}

#[derive(Debug, Copy)]
pub enum AttributeScreen<P> {
    HeadsOverview(([bool; 4], [bool; 4])),
    Position(usize),
    OctaveOffset(usize),
    OscillatorTone(P),
    PreAmp(P),
    Drive(P),
    Bias(P),
    DryWet(P),
    Wow(P),
    Flutter(P),
    Speed(P),
    Tone(P),
    Volume(usize, P),
    Feedback(usize, P),
    Pan(usize, P),
}

impl<P: Copy> Clone for Screen<P> {
    fn clone(&self) -> (copy: Self)
        ensures
            copy == *self,
    {
        *self
    }
}

impl<P: Copy> Clone for AttributeScreen<P> {
    fn clone(&self) -> (copy: Self)
        ensures
            copy == *self,
    {
        *self
    }
}

// ---------------------------------------------------------------------------
// Specification of the screens' animation over time.

pub open spec fn spec_ticked_dialog(menu: DialogScreen) -> DialogScreen {
    match menu {
        DialogScreen::Configuration(ConfigurationScreen::Idle(cycles)) => DialogScreen::Configuration(
            ConfigurationScreen::Idle(if cycles > 1000 { 0 } else { (cycles + 1) as u32 }),
        ),
        DialogScreen::Configuration(_) => menu,
        DialogScreen::Calibration(CalibrationScreen::SelectOctave1(i, cycles)) => DialogScreen::Calibration(
            CalibrationScreen::SelectOctave1(i, if cycles > 240 * 6 { 0 } else { (cycles + 1) as u32 }),
        ),
        DialogScreen::Calibration(CalibrationScreen::SelectOctave2(i, cycles)) => DialogScreen::Calibration(
            CalibrationScreen::SelectOctave2(i, if cycles > 240 * 6 { 0 } else { (cycles + 1) as u32 }),
        ),
        DialogScreen::Mapping(i, cycles) => DialogScreen::Mapping(
            i,
            if cycles > 240 * 4 { 0 } else { (cycles + 1) as u32 },
        ),
    }
}

/// The screen one cycle later; `None` when it has expired.
pub open spec fn spec_ticked<P>(screen: Screen<P>) -> Option<Screen<P>> {
    match screen {
        Screen::Failure(cycles) => if cycles > 480 {
            None
        } else {
            Some(Screen::Failure((cycles + 1) as u32))
        },
        Screen::Dialog(menu) => Some(Screen::Dialog(spec_ticked_dialog(menu))),
        Screen::AltAttribute(age, alt) => if age > 1000 {
            None
        } else {
            Some(Screen::AltAttribute((age + 1) as u32, alt))
        },
        Screen::Attribute(age, attribute) => if age > 2000 {
            None
        } else {
            Some(Screen::Attribute((age + 1) as u32, attribute))
        },
        Screen::Clipping(age) => if age > 120 {
            None
        } else {
            Some(Screen::Clipping((age + 1) as u32))
        },
        Screen::Paused(cycles) => Some(
            Screen::Paused(if cycles > 240 * 8 { 0 } else { (cycles + 1) as u32 }),
        ),
        Screen::BufferReset(_) => Some(screen),
    }
}

/// The slots one cycle later.
pub open spec fn spec_ticked_slots<P>(slots: Seq<Option<Screen<P>>>) -> Seq<Option<Screen<P>>> {
    slots.map_values(
        |slot: Option<Screen<P>>|
            match slot {
                Some(screen) => spec_ticked(screen),
                None => None,
            },
    )
}

/// A number identifying the variant of an attribute screen.
pub open spec fn attribute_kind<P>(attribute: AttributeScreen<P>) -> int {
    match attribute {
        AttributeScreen::HeadsOverview(_) => 0,
        AttributeScreen::Position(_) => 1,
        AttributeScreen::OctaveOffset(_) => 2,
        AttributeScreen::OscillatorTone(_) => 3,
        AttributeScreen::PreAmp(_) => 4,
        AttributeScreen::Drive(_) => 5,
        AttributeScreen::Bias(_) => 6,
        AttributeScreen::DryWet(_) => 7,
        AttributeScreen::Wow(_) => 8,
        AttributeScreen::Flutter(_) => 9,
        AttributeScreen::Speed(_) => 10,
        AttributeScreen::Tone(_) => 11,
        AttributeScreen::Volume(_, _) => 12,
        AttributeScreen::Feedback(_, _) => 13,
        AttributeScreen::Pan(_, _) => 14,
    }
}

/// Whether a new attribute screen replaces the shown one: the same variant,
/// and for per-head screens the same head.
pub open spec fn same_attribute<P>(new: AttributeScreen<P>, current: AttributeScreen<P>) -> bool {
    match (new, current) {
        (AttributeScreen::Volume(i, _), AttributeScreen::Volume(j, _)) => i == j,
        (AttributeScreen::Feedback(i, _), AttributeScreen::Feedback(j, _)) => i == j,
        (AttributeScreen::Pan(i, _), AttributeScreen::Pan(j, _)) => i == j,
        _ => attribute_kind(new) == attribute_kind(current),
    }
}

/// The slots after refreshing the attribute in slot 4 with `attribute`.
pub open spec fn spec_updated_attribute<P>(
    slots: Seq<Option<Screen<P>>>,
    attribute: AttributeScreen<P>,
) -> Seq<Option<Screen<P>>> {
    match slots[4] {
        Some(Screen::Attribute(age, current)) => if same_attribute(attribute, current) {
            slots.update(4, Some(Screen::Attribute(age, attribute)))
        } else {
            slots
        },
        _ => slots,
    }
}

/// The slot that is shown: the first one holding a screen.
pub open spec fn is_active_slot<P>(slots: Seq<Option<Screen<P>>>, index: int) -> bool {
    &&& 0 <= index < slots.len()
    &&& slots[index] is Some
    &&& forall|j: int| 0 <= j < index ==> slots[j] is None
}

impl<P: Copy> Display<P> {
    pub open spec fn slots(&self) -> Seq<Option<Screen<P>>> {
        self.prioritized@
    }

    /// At least one slot holds a screen to show.
    pub open spec fn has_active(&self) -> bool {
        exists|i: int| 0 <= i < 8 && #[trigger] self.prioritized@[i] is Some
    }

    pub fn new() -> (display: Self)
        ensures
            display.slots() == seq![
                None,
                None,
                None,
                None,
                None,
                None,
                None,
                Some(Screen::<P>::Attribute(0, AttributeScreen::Position(0))),
            ],
            display.has_active(),
    {
        let display = Self {
            prioritized: [
                None,
                None,
                None,
                None,
                None,
                None,
                None,
                Some(Screen::Attribute(0, AttributeScreen::Position(0))),
            ],
        };
        assert(display.prioritized@[7] is Some);
        display
    }

    /// A display showing `screen` when no other screen is set.
    pub fn new_with_screen(screen: Screen<P>) -> (display: Self)
        ensures
            display.slots() == seq![None, None, None, None, None, None, None, Some(screen)],
            display.has_active(),
    {
        let display = Self { prioritized: [None, None, None, None, None, None, None, Some(screen)] };
        assert(display.prioritized@[7] is Some);
        display
    }

    /// Advances the animation of every screen by one cycle, dropping the
    /// screens that expired.
    pub fn tick(&mut self)
        ensures
            final(self).slots() == spec_ticked_slots(old(self).slots()),
    {
        let mut i: usize = 0;
        while i < 8
            invariant
                i <= 8,
                forall|j: int| 0 <= j < i ==> self.prioritized@[j] == spec_ticked_slots(old(self).slots())[j],
                forall|j: int| i <= j < 8 ==> self.prioritized@[j] == old(self).slots()[j],
            decreases 8 - i,
        {
            match self.prioritized[i] {
                Some(screen) => {
                    self.prioritized[i] = screen.ticked();
                },
                None => {},
            }
            i = i + 1;
        }
        assert(self.prioritized@ =~= spec_ticked_slots(old(self).slots()));
    }

    /// The screen currently shown: the one in the first occupied slot.
    pub fn active_screen(&self) -> (screen: &Screen<P>)
        requires
            self.has_active(),
        ensures
            exists|i: int| is_active_slot(self.slots(), i) && self.slots()[i] == Some(*screen),
    {
        let mut i: usize = 0;
        while i < 8
            invariant
                i <= 8,
                self.has_active(),
                forall|j: int| 0 <= j < i ==> self.prioritized@[j] is None,
            decreases 8 - i,
        {
            match &self.prioritized[i] {
                Some(screen) => {
                    assert(is_active_slot(self.slots(), i as int));
                    return screen;
                },
                None => {},
            }
            i = i + 1;
        }
        assert(false);
        vstd::pervasive::unreached()
    }

    pub fn set_failure(&mut self)
        ensures
            final(self).slots() == old(self).slots().update(0, Some(Screen::<P>::Failure(0))),
            final(self).has_active(),
    {
        self.set_screen(0, Screen::Failure(0));
    }

    pub fn set_dialog(&mut self, dialog: DialogScreen)
        ensures
            final(self).slots() == old(self).slots().update(1, Some(Screen::<P>::Dialog(dialog))),
            final(self).has_active(),
    {
        self.set_screen(1, Screen::Dialog(dialog));
    }

    pub fn reset_dialog(&mut self)
        ensures
            final(self).slots() == old(self).slots().update(1, None),
    {
        self.reset_screen(1);
    }

    pub fn set_alt_menu(&mut self, alt_menu: AltAttributeScreen)
        ensures
            final(self).slots() == old(self).slots().update(
                2,
                Some(Screen::<P>::AltAttribute(0, alt_menu)),
            ),
            final(self).has_active(),
    {
        self.set_screen(2, Screen::AltAttribute(0, alt_menu));
    }

    /// Starts the clipping animation, unless it is already running.
    pub fn set_clipping(&mut self)
        ensures
            (old(self).slots()[3] matches Some(Screen::Clipping(_))) ==> final(self).slots()
                == old(self).slots(),
            !(old(self).slots()[3] matches Some(Screen::Clipping(_))) ==> final(self).slots()
                == old(self).slots().update(3, Some(Screen::<P>::Clipping(0))),
            final(self).has_active(),
    {
        match self.prioritized[3] {
            Some(Screen::Clipping(_)) => {
                assert(self.prioritized@[3] is Some);
            },
            _ => self.set_screen(3, Screen::Clipping(0)),
        }
    }

    /// Shows the attribute, regardless of what attribute was shown before.
    pub fn force_attribute(&mut self, attribute: AttributeScreen<P>)
        ensures
            final(self).slots() == old(self).slots().update(
                4,
                Some(Screen::Attribute(0, attribute)),
            ),
            final(self).has_active(),
    {
        self.set_screen(4, Screen::Attribute(0, attribute));
    }

    /// Refreshes the value of the shown attribute if the given one is of the
    /// same kind, keeping the age of the screen; otherwise nothing changes.
    pub fn update_attribute(&mut self, attribute: AttributeScreen<P>)
        ensures
            final(self).slots() == spec_updated_attribute(old(self).slots(), attribute),
    {
        if let Some(Screen::Attribute(age, current_attribute)) = self.prioritized[4] {
            if is_same_attribute(&attribute, &current_attribute) {
                self.set_screen(4, Screen::Attribute(age, attribute));
            }
        }
    }

    pub fn set_buffer_reset(&mut self, progress: u8)
        ensures
            final(self).slots() == old(self).slots().update(
                5,
                Some(Screen::<P>::BufferReset(progress as u32)),
            ),
            final(self).has_active(),
    {
        self.set_screen(5, Screen::BufferReset(progress as u32));
    }

    pub fn reset_buffer_reset(&mut self)
        ensures
            final(self).slots() == old(self).slots().update(5, None),
    {
        self.reset_screen(5);
    }

    /// Starts the pause animation, unless it is already running.
    pub fn set_paused(&mut self)
        ensures
            (old(self).slots()[6] matches Some(Screen::Paused(_))) ==> final(self).slots()
                == old(self).slots(),
            !(old(self).slots()[6] matches Some(Screen::Paused(_))) ==> final(self).slots()
                == old(self).slots().update(6, Some(Screen::<P>::Paused(0))),
            final(self).has_active(),
    {
        match self.prioritized[6] {
            Some(Screen::Paused(_)) => {
                assert(self.prioritized@[6] is Some);
            },
            _ => self.set_screen(6, Screen::Paused(0)),
        }
    }

    pub fn reset_paused(&mut self)
        ensures
            final(self).slots() == old(self).slots().update(6, None),
    {
        self.reset_screen(6);
    }

    /// Sets the screen shown when no other is.
    pub fn set_fallback_attribute(&mut self, attribute: AttributeScreen<P>)
        ensures
            final(self).slots() == old(self).slots().update(
                7,
                Some(Screen::Attribute(0, attribute)),
            ),
            final(self).has_active(),
    {
        self.set_screen(7, Screen::Attribute(0, attribute));
    }

    pub fn set_screen(&mut self, priority: usize, screen: Screen<P>)
        requires
            priority < 8,
        ensures
            final(self).slots() == old(self).slots().update(priority as int, Some(screen)),
            final(self).has_active(),
    {
        self.prioritized[priority] = Some(screen);
        assert(self.prioritized@[priority as int] is Some);
    }

    pub fn reset_screen(&mut self, priority: usize)
        requires
            priority < 8,
        ensures
            final(self).slots() == old(self).slots().update(priority as int, None),
    {
        self.prioritized[priority] = None;
    }
}

impl<P: Copy> Default for Display<P> {
    fn default() -> (display: Self)
        ensures
            display.slots() == seq![
                None,
                None,
                None,
                None,
                None,
                None,
                None,
                Some(Screen::<P>::Attribute(0, AttributeScreen::Position(0))),
            ],
            display.has_active(),
    {
        Self::new()
    }
}

/// Decides `same_attribute`.
pub fn is_same_attribute<P: Copy>(new: &AttributeScreen<P>, current: &AttributeScreen<P>) -> (same: bool)
    ensures
        same == same_attribute(*new, *current),
{
    match (new, current) {
        (AttributeScreen::Volume(i, _), AttributeScreen::Volume(j, _)) => *i == *j,
        (AttributeScreen::Feedback(i, _), AttributeScreen::Feedback(j, _)) => *i == *j,
        (AttributeScreen::Pan(i, _), AttributeScreen::Pan(j, _)) => *i == *j,
        _ => kind_of(new) == kind_of(current),
    }
}

fn kind_of<P: Copy>(attribute: &AttributeScreen<P>) -> (kind: u8)
    ensures
        kind as int == attribute_kind(*attribute),
{
    match attribute {
        AttributeScreen::HeadsOverview(_) => 0,
        AttributeScreen::Position(_) => 1,
        AttributeScreen::OctaveOffset(_) => 2,
        AttributeScreen::OscillatorTone(_) => 3,
        AttributeScreen::PreAmp(_) => 4,
        AttributeScreen::Drive(_) => 5,
        AttributeScreen::Bias(_) => 6,
        AttributeScreen::DryWet(_) => 7,
        AttributeScreen::Wow(_) => 8,
        AttributeScreen::Flutter(_) => 9,
        AttributeScreen::Speed(_) => 10,
        AttributeScreen::Tone(_) => 11,
        AttributeScreen::Volume(_, _) => 12,
        AttributeScreen::Feedback(_, _) => 13,
        AttributeScreen::Pan(_, _) => 14,
    }
}

impl<P: Copy> Screen<P> {
    /// The screen one cycle later; `None` when it has expired.
    pub fn ticked(self) -> (next: Option<Self>)
        ensures
            next == spec_ticked(self),
    {
        match self {
            Screen::Failure(cycles) => ticked_failure(cycles),
            Screen::Dialog(menu) => Some(Screen::Dialog(ticked_dialog(menu))),
            Screen::AltAttribute(age, alt_attribute) => ticked_alt_attribute(age, alt_attribute),
            Screen::Attribute(age, attribute) => ticked_attribute(age, attribute),
            Screen::Clipping(age) => ticked_clipping(age),
            Screen::Paused(cycles) => ticked_paused(cycles),
            Screen::BufferReset(_) => Some(self),
        }
    }
}

pub fn ticked_dialog(menu: DialogScreen) -> (next: DialogScreen)
    ensures
        next == spec_ticked_dialog(menu),
{
    match menu {
        DialogScreen::Configuration(configuration) => match configuration {
            ConfigurationScreen::Idle(cycles) => ticked_configuration_idle(cycles),
            ConfigurationScreen::Rewind(_) => menu,
            ConfigurationScreen::DefaultScreen(_) => menu,
            ConfigurationScreen::ControlMapping(_) => menu,
            ConfigurationScreen::TapIntervalDenominator(_) => menu,
        },
        DialogScreen::Calibration(calibration) => match calibration {
            CalibrationScreen::SelectOctave1(i, cycles) => ticked_calibration_1(i, cycles),
            CalibrationScreen::SelectOctave2(i, cycles) => ticked_calibration_2(i, cycles),
        },
        DialogScreen::Mapping(i, cycles) => ticked_mapping(i, cycles),
    }
}

pub fn ticked_configuration_idle(cycles: u32) -> (next: DialogScreen)
    ensures
        next == DialogScreen::Configuration(
            ConfigurationScreen::Idle(if cycles > 1000 { 0 } else { (cycles + 1) as u32 }),
        ),
{
    let cycles = if cycles > 1000 { 0 } else { cycles + 1 };
    DialogScreen::Configuration(ConfigurationScreen::Idle(cycles))
}

pub fn ticked_calibration_1(i: usize, cycles: u32) -> (next: DialogScreen)
    ensures
        next == DialogScreen::Calibration(
            CalibrationScreen::SelectOctave1(i, if cycles > 240 * 6 { 0 } else { (cycles + 1) as u32 }),
        ),
{
    let cycles = if cycles > 240 * 6 { 0 } else { cycles + 1 };
    DialogScreen::Calibration(CalibrationScreen::SelectOctave1(i, cycles))
}

pub fn ticked_calibration_2(i: usize, cycles: u32) -> (next: DialogScreen)
    ensures
        next == DialogScreen::Calibration(
            CalibrationScreen::SelectOctave2(i, if cycles > 240 * 6 { 0 } else { (cycles + 1) as u32 }),
        ),
{
    let cycles = if cycles > 240 * 6 { 0 } else { cycles + 1 };
    DialogScreen::Calibration(CalibrationScreen::SelectOctave2(i, cycles))
}

pub fn ticked_mapping(i: usize, cycles: u32) -> (next: DialogScreen)
    ensures
        next == DialogScreen::Mapping(i, if cycles > 240 * 4 { 0 } else { (cycles + 1) as u32 }),
{
    DialogScreen::Mapping(i, if cycles > 240 * 4 { 0 } else { cycles + 1 })
}

pub fn ticked_failure<P: Copy>(cycles: u32) -> (next: Option<Screen<P>>)
    ensures
        next == spec_ticked(Screen::<P>::Failure(cycles)),
{
    if cycles > 480 {
        None
    } else {
        Some(Screen::Failure(cycles + 1))
    }
}

pub fn ticked_alt_attribute<P: Copy>(age: u32, menu: AltAttributeScreen) -> (next: Option<Screen<P>>)
    ensures
        next == spec_ticked(Screen::<P>::AltAttribute(age, menu)),
{
    if age > 1000 {
        None
    } else {
        Some(Screen::AltAttribute(age + 1, menu))
    }
}

pub fn ticked_attribute<P: Copy>(age: u32, menu: AttributeScreen<P>) -> (next: Option<Screen<P>>)
    ensures
        next == spec_ticked(Screen::<P>::Attribute(age, menu)),
{
    if age > 2000 {
        None
    } else {
        Some(Screen::Attribute(age + 1, menu))
    }
}

pub fn ticked_clipping<P: Copy>(age: u32) -> (next: Option<Screen<P>>)
    ensures
        next == spec_ticked(Screen::<P>::Clipping(age)),
{
    if age > 120 {
        None
    } else {
        Some(Screen::Clipping(age + 1))
    }
}

pub fn ticked_paused<P: Copy>(cycles: u32) -> (next: Option<Screen<P>>)
    ensures
        next == spec_ticked(Screen::<P>::Paused(cycles)),
{
    let cycles = if cycles > 240 * 8 { 0 } else { cycles + 1 };
    Some(Screen::Paused(cycles))
}

impl DialogScreen {
    pub fn configuration() -> (dialog: Self)
        ensures
            dialog == DialogScreen::Configuration(ConfigurationScreen::Idle(0)),
    {
        DialogScreen::Configuration(ConfigurationScreen::Idle(0))
    }

    pub fn calibration_1(i: usize) -> (dialog: Self)
        ensures
            dialog == DialogScreen::Calibration(CalibrationScreen::SelectOctave1(i, 0)),
    {
        DialogScreen::Calibration(CalibrationScreen::SelectOctave1(i, 0))
    }

    pub fn calibration_2(i: usize) -> (dialog: Self)
        ensures
            dialog == DialogScreen::Calibration(CalibrationScreen::SelectOctave2(i, 0)),
    {
        DialogScreen::Calibration(CalibrationScreen::SelectOctave2(i, 0))
    }

    pub fn mapping(i: usize) -> (dialog: Self)
        ensures
            dialog == DialogScreen::Mapping(i, 0),
    {
        DialogScreen::Mapping(i, 0)
    }
}


// ---------------------------------------------------------------------------
// LED patterns of the screens.

/// How long the failure screen keeps its LEDs lit, then twice as long off.
pub const FAILURE_INTERVAL_ON: u32 = 80;

pub const FAILURE_INTERVAL_OFF: u32 = 160;

/// The length of one step of the dialog and pause animations.
pub const ANIMATION_INTERVAL: u32 = 240;

/// Eight LEDs, the `k`-th lit when `f(k)` holds.
pub open spec fn pattern(f: spec_fn(int) -> bool) -> Seq<bool> {
    Seq::new(8, f)
}

/// The two halves of eight LEDs interleaved: LEDs 1, 3, 5, 7 go to the top
/// row, LEDs 0, 2, 4, 6 to the bottom row.
pub open spec fn interleaved(leds: Seq<bool>) -> Seq<bool> {
    seq![leds[1], leds[3], leds[5], leds[7], leds[0], leds[2], leds[4], leds[6]]
}

pub open spec fn failure_on(cycles: u32) -> bool {
    cycles < 80 || (240 <= cycles && cycles < 320)
}

pub open spec fn calibration_blink_on(cycles: u32) -> bool {
    cycles < 240 || (480 <= cycles && cycles < 720)
}

pub open spec fn mapping_step(cycles: u32) -> int {
    if cycles < 240 {
        0
    } else if cycles < 480 {
        1
    } else if cycles < 720 {
        2
    } else {
        3
    }
}

pub open spec fn denominator_index(denominator: usize) -> int {
    if denominator == 16 {
        0
    } else if denominator == 8 {
        1
    } else if denominator == 4 {
        2
    } else {
        3
    }
}

/// The dialogs whose LEDs can be drawn: the indices they show fit the
/// display, and an interval denominator is one of 16, 8, 4 and 1.
pub open spec fn dialog_drawable(menu: DialogScreen) -> bool {
    match menu {
        DialogScreen::Calibration(CalibrationScreen::SelectOctave1(i, _)) => i < 4,
        DialogScreen::Calibration(CalibrationScreen::SelectOctave2(i, _)) => i < 4,
        DialogScreen::Mapping(i, _) => i < 4,
        DialogScreen::Configuration(configuration) => configuration_drawable(configuration),
    }
}

pub open spec fn configuration_drawable(configuration: ConfigurationScreen) -> bool {
    match configuration {
        ConfigurationScreen::Idle(_) => true,
        ConfigurationScreen::Rewind((rewind, fast_forward)) => rewind < 8 && fast_forward < 8,
        ConfigurationScreen::DefaultScreen(selection) => selection < 8,
        ConfigurationScreen::ControlMapping(mapping) => match mapping {
            Some(index) => index < 4,
            None => true,
        },
        ConfigurationScreen::TapIntervalDenominator(d) => d == 16 || d == 8 || d == 4 || d == 1,
    }
}

pub open spec fn spec_configuration_leds(configuration: ConfigurationScreen) -> Seq<bool> {
    match configuration {
        ConfigurationScreen::Idle(cycles) => if cycles < 500 {
            seq![true, false, true, false, false, true, false, true]
        } else {
            seq![false, true, false, true, true, false, true, false]
        },
        ConfigurationScreen::Rewind((rewind, fast_forward)) => pattern(
            |k: int| k <= fast_forward || k >= 7 - rewind,
        ),
        ConfigurationScreen::DefaultScreen(selection) => pattern(|k: int| k == selection),
        ConfigurationScreen::ControlMapping(mapping) => match mapping {
            Some(index) => pattern(|k: int| k == index || k == index + 4),
            None => pattern(|k: int| false),
        },
        ConfigurationScreen::TapIntervalDenominator(d) => pattern(
            |k: int| k == denominator_index(d),
        ),
    }
}

pub open spec fn spec_dialog_leds(menu: DialogScreen) -> Seq<bool> {
    match menu {
        DialogScreen::Calibration(CalibrationScreen::SelectOctave1(i, cycles)) => pattern(
            |k: int| k == 4 + i || (calibration_blink_on(cycles) && (k == 0 || k == 1)),
        ),
        DialogScreen::Calibration(CalibrationScreen::SelectOctave2(i, cycles)) => pattern(
            |k: int| k == 4 + i || (calibration_blink_on(cycles) && (k == 2 || k == 3)),
        ),
        DialogScreen::Mapping(i, cycles) => pattern(|k: int| k == 4 + i || k == mapping_step(cycles)),
        DialogScreen::Configuration(configuration) => spec_configuration_leds(configuration),
    }
}

pub open spec fn spec_alt_attribute_leds(alt_attribute: AltAttributeScreen) -> Seq<bool> {
    match alt_attribute {
        AltAttributeScreen::PreAmpMode(PreAmpMode::PreAmp) => seq![true, true, false, false, true, true, false, false],
        AltAttributeScreen::PreAmpMode(PreAmpMode::Oscillator) => seq![false, false, true, true, false, false, true, true],
        AltAttributeScreen::SpeedRange(SpeedRange::Long) => seq![true, true, true, true, true, true, true, true],
        AltAttributeScreen::SpeedRange(SpeedRange::Short) => seq![false, false, true, true, false, false, true, true],
        AltAttributeScreen::SpeedRange(SpeedRange::Audio) => seq![false, false, false, true, false, false, false, true],
        AltAttributeScreen::FilterPlacement(FilterPlacement::Input) => seq![true, false, false, false, true, false, false, false],
        AltAttributeScreen::FilterPlacement(FilterPlacement::Feedback) => seq![false, true, true, true, false, true, true, true],
        AltAttributeScreen::FilterPlacement(FilterPlacement::Both) => seq![true, true, true, true, true, true, true, true],
        AltAttributeScreen::HysteresisRange(HysteresisRange::Unlimited) => seq![false, true, false, true, true, false, true, false],
        AltAttributeScreen::HysteresisRange(HysteresisRange::Limited) => seq![false, false, false, false, true, true, true, true],
        AltAttributeScreen::WowFlutterPlacement(WowFlutterPlacement::Input) => seq![true, false, false, false, true, false, false, false],
        AltAttributeScreen::WowFlutterPlacement(WowFlutterPlacement::Read) => seq![false, true, true, true, false, true, true, true],
        AltAttributeScreen::WowFlutterPlacement(WowFlutterPlacement::Both) => seq![true, true, true, true, true, true, true, true],
    }
}

pub open spec fn spec_clipping_leds(cycles: u32) -> Seq<bool> {
    if cycles < 40 {
        seq![true, true, false, false, true, true, false, false]
    } else if cycles < 80 {
        seq![true, true, true, false, true, true, true, false]
    } else {
        seq![true, true, true, true, true, true, true, true]
    }
}

/// The screens whose LEDs can be drawn: the indices they show fit the
/// display.
pub open spec fn screen_drawable<P>(screen: Screen<P>) -> bool {
    match screen {
        Screen::Dialog(menu) => dialog_drawable(menu),
        Screen::Attribute(_, AttributeScreen::Position(position)) => position < 8,
        Screen::Attribute(_, AttributeScreen::OctaveOffset(offset)) => offset < 4,
        Screen::BufferReset(progress) => progress <= 8,
        _ => true,
    }
}

/// The LEDs of a screen; `None` for the screens carrying an attribute value,
/// which the caller draws from the value.
pub open spec fn spec_screen_leds<P>(screen: Screen<P>) -> Option<Seq<bool>> {
    match screen {
        Screen::Failure(cycles) => Some(pattern(|k: int| failure_on(cycles))),
        Screen::Dialog(menu) => Some(spec_dialog_leds(menu)),
        Screen::AltAttribute(_, alt_attribute) => Some(spec_alt_attribute_leds(alt_attribute)),
        Screen::Attribute(_, attribute) => match attribute {
            AttributeScreen::HeadsOverview(overview) => Some(overview.0@ + overview.1@),
            AttributeScreen::Position(position) => Some(pattern(|k: int| k == position)),
            AttributeScreen::OctaveOffset(offset) => Some(
                pattern(|k: int| k == offset || k == offset + 4),
            ),
            _ => None,
        },
        Screen::Clipping(cycles) => Some(spec_clipping_leds(cycles)),
        Screen::Paused(cycles) => Some(
            pattern(
                |k: int|
                    (cycles / 240 == 0 || cycles / 240 == 2) && (k == 1 || k == 2 || k == 5 || k
                        == 6),
            ),
        ),
        Screen::BufferReset(progress) => Some(pattern(|k: int| k < 8 - progress)),
    }
}

impl<P: Copy> Screen<P> {
    /// The LEDs of the screen; `None` for the screens carrying an attribute
    /// value, which the caller draws from the value.
    pub fn leds(&self) -> (leds: Option<[bool; 8]>)
        requires
            screen_drawable(*self),
        ensures
            match spec_screen_leds(*self) {
                Some(expected) => leds is Some && leds->0@ == expected,
                None => leds is None,
            },
    {
        match self {
            Screen::Failure(cycles) => Some(leds_for_failure(*cycles)),
            Screen::Dialog(menu) => Some(leds_for_dialog(menu)),
            Screen::AltAttribute(_, alt_attribute) => Some(leds_for_alt_attribute(*alt_attribute)),
            Screen::Attribute(_, attribute) => match attribute {
                AttributeScreen::HeadsOverview(overview) => Some(heads_overview_to_leds(*overview)),
                AttributeScreen::Position(position) => Some(index_to_leds(*position)),
                AttributeScreen::OctaveOffset(offset) => Some(octave_offset_to_leds(*offset)),
                _ => None,
            },
            Screen::Clipping(cycles) => Some(leds_for_clipping(*cycles)),
            Screen::Paused(cycles) => Some(leds_for_paused(*cycles)),
            Screen::BufferReset(progress) => Some(leds_for_buffer_reset(*progress)),
        }
    }
}

pub fn leds_for_failure(cycles: u32) -> (leds: [bool; 8])
    ensures
        leds@ == pattern(|k: int| failure_on(cycles)),
{
    let leds = if cycles < FAILURE_INTERVAL_ON {
        [true; 8]
    } else if cycles < FAILURE_INTERVAL_ON + FAILURE_INTERVAL_OFF {
        [false; 8]
    } else if cycles < FAILURE_INTERVAL_ON + FAILURE_INTERVAL_OFF + FAILURE_INTERVAL_ON {
        [true; 8]
    } else {
        [false; 8]
    };
    assert(leds@ =~= pattern(|k: int| failure_on(cycles)));
    leds
}

pub fn leds_for_dialog(menu: &DialogScreen) -> (leds: [bool; 8])
    requires
        dialog_drawable(*menu),
    ensures
        leds@ == spec_dialog_leds(*menu),
{
    match menu {
        DialogScreen::Calibration(calibration) => match calibration {
            CalibrationScreen::SelectOctave1(i, cycles) => leds_for_calibration(*i, *cycles, 0),
            CalibrationScreen::SelectOctave2(i, cycles) => leds_for_calibration(*i, *cycles, 1),
        },
        DialogScreen::Mapping(i, cycles) => leds_for_mapping(*i, *cycles),
        DialogScreen::Configuration(configuration) => leds_for_configuration(configuration),
    }
}

pub fn leds_for_calibration(i: usize, cycles: u32, octave: usize) -> (leds: [bool; 8])
    requires
        i < 4,
        octave < 4,
    ensures
        leds@ == pattern(
            |k: int|
                if k == octave * 2 || k == octave * 2 + 1 {
                    calibration_blink_on(cycles)
                } else {
                    k == 4 + i
                },
        ),
{
    let mut leds = [false; 8];
    leds[4 + i] = true;
    if cycles < ANIMATION_INTERVAL {
        leds[octave * 2] = true;
        leds[octave * 2 + 1] = true;
    } else if cycles < ANIMATION_INTERVAL * 2 {
        leds[octave * 2] = false;
        leds[octave * 2 + 1] = false;
    } else if cycles < ANIMATION_INTERVAL * 3 {
        leds[octave * 2] = true;
        leds[octave * 2 + 1] = true;
    } else {
        leds[octave * 2] = false;
        leds[octave * 2 + 1] = false;
    }
    assert(leds@ =~= pattern(
        |k: int|
            if k == octave * 2 || k == octave * 2 + 1 {
                calibration_blink_on(cycles)
            } else {
                k == 4 + i
            },
    ));
    leds
}

pub fn leds_for_mapping(i: usize, cycles: u32) -> (leds: [bool; 8])
    requires
        i < 4,
    ensures
        leds@ == pattern(|k: int| k == 4 + i || k == mapping_step(cycles)),
{
    let mut leds = [false; 8];
    leds[4 + i] = true;
    if cycles < ANIMATION_INTERVAL {
        leds[0] = true;
    } else if cycles < ANIMATION_INTERVAL * 2 {
        leds[1] = true;
    } else if cycles < ANIMATION_INTERVAL * 3 {
        leds[2] = true;
    } else {
        leds[3] = true;
    }
    assert(leds@ =~= pattern(|k: int| k == 4 + i || k == mapping_step(cycles)));
    leds
}

pub fn leds_for_configuration(configuration: &ConfigurationScreen) -> (leds: [bool; 8])
    requires
        configuration_drawable(*configuration),
    ensures
        leds@ == spec_configuration_leds(*configuration),
{
    match configuration {
        ConfigurationScreen::Idle(cycles) => {
            let leds = if *cycles < 500 {
                [true, false, true, false, false, true, false, true]
            } else {
                [false, true, false, true, true, false, true, false]
            };
            assert(leds@ =~= spec_configuration_leds(*configuration));
            leds
        },
        ConfigurationScreen::Rewind((rewind, fast_forward)) => {
            let mut leds = [false; 8];
            let mut i: usize = 0;
            while i <= *fast_forward
                invariant
                    *fast_forward < 8,
                    i <= *fast_forward + 1,
                    forall|k: int| 0 <= k < 8 ==> leds@[k] == (k < i),
                decreases *fast_forward + 1 - i,
            {
                leds[i] = true;
                i = i + 1;
            }
            let mut i: usize = 0;
            while i <= *rewind
                invariant
                    *fast_forward < 8,
                    *rewind < 8,
                    i <= *rewind + 1,
                    forall|k: int| 0 <= k < 8 ==> leds@[k] == (k <= *fast_forward || k >= 8 - i),
                decreases *rewind + 1 - i,
            {
                leds[8 - 1 - i] = true;
                i = i + 1;
            }
            assert(leds@ =~= spec_configuration_leds(*configuration));
            leds
        },
        ConfigurationScreen::DefaultScreen(selection) => index_to_leds(*selection),
        ConfigurationScreen::ControlMapping(mapping) => {
            let mut leds = [false; 8];
            if let Some(index) = mapping {
                leds[*index] = true;
                leds[*index + 4] = true;
            }
            assert(leds@ =~= spec_configuration_leds(*configuration));
            leds
        },
        ConfigurationScreen::TapIntervalDenominator(denominator) => {
            let index = if *denominator == 16 {
                0
            } else if *denominator == 8 {
                1
            } else if *denominator == 4 {
                2
            } else {
                3
            };
            index_to_leds(index)
        },
    }
}

pub fn leds_for_alt_attribute(alt_attribute: AltAttributeScreen) -> (leds: [bool; 8])
    ensures
        leds@ == spec_alt_attribute_leds(alt_attribute),
{
    let leds = match alt_attribute {
        AltAttributeScreen::PreAmpMode(mode) => match mode {
            PreAmpMode::PreAmp => [true, true, false, false, true, true, false, false],
            PreAmpMode::Oscillator => [false, false, true, true, false, false, true, true],
        },
        AltAttributeScreen::SpeedRange(range) => match range {
            SpeedRange::Long => [true, true, true, true, true, true, true, true],
            SpeedRange::Short => [false, false, true, true, false, false, true, true],
            SpeedRange::Audio => [false, false, false, true, false, false, false, true],
        },
        AltAttributeScreen::FilterPlacement(position) => match position {
            FilterPlacement::Input => [true, false, false, false, true, false, false, false],
            FilterPlacement::Feedback => [false, true, true, true, false, true, true, true],
            FilterPlacement::Both => [true, true, true, true, true, true, true, true],
        },
        AltAttributeScreen::HysteresisRange(range) => match range {
            HysteresisRange::Unlimited => [false, true, false, true, true, false, true, false],
            HysteresisRange::Limited => [false, false, false, false, true, true, true, true],
        },
        AltAttributeScreen::WowFlutterPlacement(placement) => match placement {
            WowFlutterPlacement::Input => [true, false, false, false, true, false, false, false],
            WowFlutterPlacement::Read => [false, true, true, true, false, true, true, true],
            WowFlutterPlacement::Both => [true, true, true, true, true, true, true, true],
        },
    };
    assert(leds@ =~= spec_alt_attribute_leds(alt_attribute));
    leds
}

pub fn leds_for_paused(cycles: u32) -> (leds: [bool; 8])
    ensures
        leds@ == pattern(
            |k: int|
                (cycles / 240 == 0 || cycles / 240 == 2) && (k == 1 || k == 2 || k == 5 || k == 6),
        ),
{
    let mut leds = [false; 8];
    let segment = cycles / ANIMATION_INTERVAL;
    let on = segment == 0 || segment == 2;
    if on {
        leds[1] = true;
        leds[2] = true;
        leds[5] = true;
        leds[6] = true;
    }
    assert(leds@ =~= pattern(
        |k: int| (cycles / 240 == 0 || cycles / 240 == 2) && (k == 1 || k == 2 || k == 5 || k == 6),
    ));
    leds
}

pub fn leds_for_buffer_reset(progress: u32) -> (leds: [bool; 8])
    requires
        progress <= 8,
    ensures
        leds@ == pattern(|k: int| k < 8 - progress),
{
    let mut leds = [false; 8];
    let end = 8 - progress as usize;
    let mut i: usize = 0;
    while i < end
        invariant
            end == 8 - progress,
            i <= end,
            forall|k: int| 0 <= k < 8 ==> leds@[k] == (k < i),
        decreases end - i,
    {
        leds[i] = true;
        i = i + 1;
    }
    assert(leds@ =~= pattern(|k: int| k < 8 - progress));
    leds
}

pub fn index_to_leds(index: usize) -> (leds: [bool; 8])
    requires
        index < 8,
    ensures
        leds@ == pattern(|k: int| k == index),
{
    let mut leds = [false; 8];
    leds[index] = true;
    assert(leds@ =~= pattern(|k: int| k == index));
    leds
}

pub fn leds_for_clipping(cycles: u32) -> (leds: [bool; 8])
    ensures
        leds@ == spec_clipping_leds(cycles),
{
    let leds = if cycles < 40 {
        [true, true, false, false, true, true, false, false]
    } else if cycles < 80 {
        [true, true, true, false, true, true, true, false]
    } else {
        [true, true, true, true, true, true, true, true]
    };
    assert(leds@ =~= spec_clipping_leds(cycles));
    leds
}

/// Top row shows the first four flags, bottom row the other four.
pub fn heads_overview_to_leds(overview: ([bool; 4], [bool; 4])) -> (leds: [bool; 8])
    ensures
        leds@ == overview.0@ + overview.1@,
{
    let (top, bottom) = overview;
    let leds = [top[0], top[1], top[2], top[3], bottom[0], bottom[1], bottom[2], bottom[3]];
    assert(leds@ =~= top@ + bottom@);
    leds
}

/// The selected octave offset lit in both rows.
pub fn octave_offset_to_leds(offset: usize) -> (leds: [bool; 8])
    requires
        offset < 4,
    ensures
        leds@ == pattern(|k: int| k == offset || k == offset + 4),
{
    let mut leds = [false; 8];
    leds[offset] = true;
    leds[offset + 4] = true;
    assert(leds@ =~= pattern(|k: int| k == offset || k == offset + 4));
    leds
}

/// A bar of `lit` LEDs, shown interleaved over both rows.
pub fn phase_to_leds(lit: usize) -> (leds: [bool; 8])
    ensures
        leds@ == interleaved(pattern(|k: int| k < lit)),
{
    let mut bar = [false; 8];
    let mut i: usize = 0;
    while i < 8 && i < lit
        invariant
            i <= 8,
            i <= lit,
            forall|k: int| 0 <= k < 8 ==> bar@[k] == (k < i),
        decreases 8 - i,
    {
        bar[i] = true;
        i = i + 1;
    }
    assert(bar@ =~= pattern(|k: int| k < lit));
    let leds = [bar[1], bar[3], bar[5], bar[7], bar[0], bar[2], bar[4], bar[6]];
    assert(leds@ =~= interleaved(bar@));
    leds
}

/// Dry part lit from the start of the top row, `wet_len` wet LEDs from the
/// end of the bottom row.
pub fn dry_wet_to_leds(wet_len: usize) -> (leds: [bool; 8])
    requires
        wet_len <= 4,
    ensures
        leds@ == pattern(|k: int| k < 4 - wet_len || k >= 8 - wet_len),
{
    let mut leds = [false; 8];
    let dry_len = 4 - wet_len;
    let mut i: usize = 0;
    while i < dry_len
        invariant
            dry_len == 4 - wet_len,
            i <= dry_len,
            forall|k: int| 0 <= k < 8 ==> leds@[k] == (k < i),
        decreases dry_len - i,
    {
        leds[i] = true;
        i = i + 1;
    }
    let mut i: usize = 0;
    while i < wet_len
        invariant
            wet_len <= 4,
            dry_len == 4 - wet_len,
            i <= wet_len,
            forall|k: int| 0 <= k < 8 ==> leds@[k] == (k < dry_len || k >= 8 - i),
        decreases wet_len - i,
    {
        leds[8 - 1 - i] = true;
        i = i + 1;
    }
    assert(leds@ =~= pattern(|k: int| k < 4 - wet_len || k >= 8 - wet_len));
    leds
}

/// The first `lit` LEDs.
pub fn flutter_to_leds(lit: usize) -> (leds: [bool; 8])
    ensures
        leds@ == pattern(|k: int| k < lit),
{
    let mut leds = [false; 8];
    let mut i: usize = 0;
    while i < 8 && i < lit
        invariant
            i <= 8,
            i <= lit,
            forall|k: int| 0 <= k < 8 ==> leds@[k] == (k < i),
        decreases 8 - i,
    {
        leds[i] = true;
        i = i + 1;
    }
    assert(leds@ =~= pattern(|k: int| k < lit));
    leds
}

/// The last `lit` LEDs.
pub fn wow_to_leds(lit: usize) -> (leds: [bool; 8])
    requires
        lit <= 8,
    ensures
        leds@ == pattern(|k: int| k >= 8 - lit),
{
    let mut leds = [false; 8];
    let mut i: usize = 0;
    while i < lit
        invariant
            lit <= 8,
            i <= lit,
            forall|k: int| 0 <= k < 8 ==> leds@[k] == (k >= 8 - i),
        decreases lit - i,
    {
        leds[8 - 1 - i] = true;
        i = i + 1;
    }
    assert(leds@ =~= pattern(|k: int| k >= 8 - lit));
    leds
}

/// A bar of the last `lit` LEDs, shown interleaved over both rows.
pub fn speed_to_leds(lit: usize) -> (leds: [bool; 8])
    requires
        lit <= 8,
    ensures
        leds@ == interleaved(pattern(|k: int| k >= 8 - lit)),
{
    let bar = wow_to_leds(lit);
    let leds = [bar[1], bar[3], bar[5], bar[7], bar[0], bar[2], bar[4], bar[6]];
    assert(leds@ =~= interleaved(bar@));
    leds
}

/// All LEDs lit except the last `dark_end` and the first `dark_start`.
pub fn tone_to_leds(dark_end: usize, dark_start: usize) -> (leds: [bool; 8])
    requires
        dark_end <= 8,
        dark_start <= 8,
    ensures
        leds@ == pattern(|k: int| k < 8 - dark_end && k >= dark_start),
{
    let mut leds = [true; 8];
    let mut i: usize = 0;
    while i < dark_end
        invariant
            dark_end <= 8,
            i <= dark_end,
            forall|k: int| 0 <= k < 8 ==> leds@[k] == (k < 8 - i),
        decreases dark_end - i,
    {
        leds[8 - 1 - i] = false;
        i = i + 1;
    }
    let mut i: usize = 0;
    while i < dark_start
        invariant
            dark_end <= 8,
            dark_start <= 8,
            i <= dark_start,
            forall|k: int| 0 <= k < 8 ==> leds@[k] == (k < 8 - dark_end && k >= i),
        decreases dark_start - i,
    {
        leds[i] = false;
        i = i + 1;
    }
    assert(leds@ =~= pattern(|k: int| k < 8 - dark_end && k >= dark_start));
    leds
}

/// The head lit in the top row, `lit` LEDs of volume in the bottom row.
pub fn volume_to_leds(position: usize, lit: usize) -> (leds: [bool; 8])
    requires
        position < 8,
        lit <= 4,
    ensures
        leds@ == pattern(|k: int| k == position || (4 <= k && k < 4 + lit)),
{
    let mut leds = [false; 8];
    leds[position] = true;
    let mut i: usize = 0;
    while i < lit
        invariant
            position < 8,
            lit <= 4,
            i <= lit,
            forall|k: int| 0 <= k < 8 ==> leds@[k] == (k == position || (4 <= k && k < 4 + i)),
        decreases lit - i,
    {
        leds[4 + i] = true;
        i = i + 1;
    }
    assert(leds@ =~= pattern(|k: int| k == position || (4 <= k && k < 4 + lit)));
    leds
}

/// The head lit in the bottom row, `lit` LEDs of feedback from the start.
pub fn feedback_to_leds(position: usize, lit: usize) -> (leds: [bool; 8])
    requires
        position < 4,
        lit <= 8,
    ensures
        leds@ == pattern(|k: int| k == 4 + position || k < lit),
{
    let mut leds = [false; 8];
    leds[4 + position] = true;
    let mut i: usize = 0;
    while i < lit
        invariant
            position < 4,
            lit <= 8,
            i <= lit,
            forall|k: int| 0 <= k < 8 ==> leds@[k] == (k == 4 + position || k < i),
        decreases lit - i,
    {
        leds[i] = true;
        i = i + 1;
    }
    assert(leds@ =~= pattern(|k: int| k == 4 + position || k < lit));
    leds
}

/// The head lit in the top row over a full bottom row, of which the last
/// `dark_end` and the first `dark_right` LEDs are turned off.
pub fn pan_to_leds(position: usize, dark_end: usize, dark_right: usize) -> (leds: [bool; 8])
    requires
        position < 8,
        dark_end <= 8,
        dark_right <= 4,
    ensures
        leds@ == pattern(
            |k: int|
                (k >= 4 || k == position) && k < 8 - dark_end && !(4 <= k && k < 4 + dark_right),
        ),
{
    let mut leds = [false, false, false, false, true, true, true, true];
    leds[position] = true;
    let mut i: usize = 0;
    while i < dark_end
        invariant
            position < 8,
            dark_end <= 8,
            i <= dark_end,
            forall|k: int| 0 <= k < 8 ==> leds@[k] == ((k >= 4 || k == position) && k < 8 - i),
        decreases dark_end - i,
    {
        leds[8 - 1 - i] = false;
        i = i + 1;
    }
    let mut i: usize = 0;
    while i < dark_right
        invariant
            position < 8,
            dark_end <= 8,
            dark_right <= 4,
            i <= dark_right,
            forall|k: int|
                0 <= k < 8 ==> leds@[k] == ((k >= 4 || k == position) && k < 8 - dark_end && !(4
                    <= k && k < 4 + i)),
        decreases dark_right - i,
    {
        leds[4 + i] = false;
        i = i + 1;
    }
    assert(leds@ =~= pattern(
        |k: int| (k >= 4 || k == position) && k < 8 - dark_end && !(4 <= k && k < 4 + dark_right),
    ));
    leds
}

/// A per-head attribute screen is refreshed only by a value of its own head:
/// a new volume, feedback or pan of another head leaves the shown screen as
/// it is, and one of the same head replaces the value and keeps the age.
pub proof fn lemma_update_keeps_other_heads<P>(
    slots: Seq<Option<Screen<P>>>,
    age: u32,
    shown_head: usize,
    shown: P,
    new_head: usize,
    value: P,
)
    requires
        slots.len() == 8,
    ensures
        ({
            let before = slots.update(4, Some(Screen::Attribute(age, AttributeScreen::Volume(shown_head, shown))));
            let after = spec_updated_attribute(before, AttributeScreen::Volume(new_head, value));
            &&& shown_head != new_head ==> after == before
            &&& shown_head == new_head ==> after == before.update(4, Some(Screen::Attribute(age, AttributeScreen::Volume(new_head, value))))
        }),
        ({
            let before = slots.update(4, Some(Screen::Attribute(age, AttributeScreen::Feedback(shown_head, shown))));
            let after = spec_updated_attribute(before, AttributeScreen::Feedback(new_head, value));
            &&& shown_head != new_head ==> after == before
            &&& shown_head == new_head ==> after == before.update(4, Some(Screen::Attribute(age, AttributeScreen::Feedback(new_head, value))))
        }),
        ({
            let before = slots.update(4, Some(Screen::Attribute(age, AttributeScreen::Pan(shown_head, shown))));
            let after = spec_updated_attribute(before, AttributeScreen::Pan(new_head, value));
            &&& shown_head != new_head ==> after == before
            &&& shown_head == new_head ==> after == before.update(4, Some(Screen::Attribute(age, AttributeScreen::Pan(new_head, value))))
        }),
        ({
            let before = slots.update(4, Some(Screen::Attribute(age, AttributeScreen::Volume(shown_head, shown))));
            &&& spec_updated_attribute(before, AttributeScreen::Feedback(new_head, value)) == before
            &&& spec_updated_attribute(before, AttributeScreen::Pan(new_head, value)) == before
        }),
{
}

} // verus!
