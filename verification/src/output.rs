//! Desired state of output peripherals.

use vstd::prelude::*;

verus! {

/// Desired state of output peripherals with the exception of audio.
///
/// This structure transfers request to the module, asking to lit LEDs or
/// set CV output.
#[derive(Debug, Clone, Copy, PartialEq, Eq)]
pub struct DesiredOutput {
    pub display: [bool; 8],
    pub impulse_trigger: bool,
    pub impulse_led: bool,
}

} // verus!
