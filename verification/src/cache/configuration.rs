//! Tweaking of the default module configuration.

use vstd::prelude::*;

verus! {

/// Tweaking of the default module configuration.
///
/// This is mean to allow tweaking of some more niche configuration of the
/// module. Unlike with `Options`, the parameters here may be continuous
/// or offer enumeration of variants. An example of a configuration
/// may be tweaking of head's rewind speed.
#[derive(Debug, Clone, Copy, PartialEq, Eq)]
pub struct Configuration {
    /// Per head, the index of the rewind speed and of the fast-forward speed.
    pub rewind_speed: [(usize, usize); 4],
    pub default_display_page: DisplayPage,
    pub position_reset_mapping: Option<usize>,
    pub pause_resume_mapping: Option<usize>,
    pub tap_interval_denominator: usize,
}

#[derive(Debug, Clone, Copy, PartialEq, Eq, Structural)]
pub enum DisplayPage {
    Heads,
    Position,
}

pub type PositionResetMapping = Option<usize>;

pub type PauseResumeMapping = Option<usize>;

impl Configuration {
    pub open spec fn is_default(&self) -> bool {
        &&& self.rewind_speed@ == seq![(0usize, 0usize), (1, 1), (2, 2), (3, 3)]
        &&& self.default_display_page == DisplayPage::Heads
        &&& self.position_reset_mapping.is_none()
        &&& self.pause_resume_mapping.is_none()
        &&& self.tap_interval_denominator == 1
    }

    pub fn new() -> (configuration: Self)
        ensures
            configuration.is_default(),
    {
        let configuration = Self {
            rewind_speed: [(0, 0), (1, 1), (2, 2), (3, 3)],
            default_display_page: DisplayPage::Heads,
            position_reset_mapping: None,
            pause_resume_mapping: None,
            tap_interval_denominator: 1,
        };
        assert(configuration.rewind_speed@ =~= seq![(0usize, 0usize), (1, 1), (2, 2), (3, 3)]);
        configuration
    }
}

impl Default for Configuration {
    fn default() -> (configuration: Self)
        ensures
            configuration.is_default(),
    {
        Self::new()
    }
}

impl DisplayPage {
    pub fn is_heads(&self) -> (heads: bool)
        ensures
            heads == (*self == DisplayPage::Heads),
    {
        matches!(self, Self::Heads)
    }

    pub fn is_position(&self) -> (position: bool)
        ensures
            position == (*self == DisplayPage::Position),
    {
        matches!(self, Self::Position)
    }
}

} // verus!
