//! Quantize position potentiometer into even blocks.

use vstd::prelude::*;

verus! {

#[derive(Clone, Copy, Debug, PartialEq, Eq, Structural)]
pub enum Quantization {
    Six,
    Eight,
    Both,
    Disabled,
}

/// The quantization selected by the pair of options (sixths, eighths).
pub open spec fn quantization_of(source: (bool, bool)) -> Quantization {
    match source {
        (true, true) => Quantization::Both,
        (true, false) => Quantization::Six,
        (false, true) => Quantization::Eight,
        (false, false) => Quantization::Disabled,
    }
}

impl From<(bool, bool)> for Quantization {
    fn from(source: (bool, bool)) -> (quantization: Self) {
        match source {
            (true, true) => Self::Both,
            (true, false) => Self::Six,
            (false, true) => Self::Eight,
            (false, false) => Self::Disabled,
        }
    }
}

impl vstd::std_specs::convert::FromSpecImpl<(bool, bool)> for Quantization {
    open spec fn obeys_from_spec() -> bool {
        true
    }

    open spec fn from_spec(source: (bool, bool)) -> Self {
        quantization_of(source)
    }
}

} // verus!
