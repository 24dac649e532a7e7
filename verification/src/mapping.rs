//! Manage mapping between control input to its designated attribute.

use vstd::prelude::*;

verus! {

/// Linking between universal control input and attributes controlled through pots.
///
/// This mapping is used to store mapping between control inputs and
/// attributes. It also represents the state machine ordering controls that
/// are yet to be mapped.
pub type Mapping = [AttributeIdentifier; 4];

/// Unique identifier of instrument's attribute.
#[derive(Debug, PartialEq, Eq, Structural, Clone, Copy)]
pub enum AttributeIdentifier {
    PreAmp,
    Drive,
    Bias,
    DryWet,
    WowFlut,
    Speed,
    Tone,
    Position(usize),
    Volume(usize),
    Feedback(usize),
    Pan(usize),
    Unmapped,
}

impl Default for AttributeIdentifier {
    fn default() -> (identifier: Self)
        ensures
            identifier == AttributeIdentifier::Unmapped,
    {
        Self::Unmapped
    }
}

impl AttributeIdentifier {
    pub fn is_none(&self) -> (none: bool)
        ensures
            none == (*self == AttributeIdentifier::Unmapped),
    {
        matches!(self, Self::Unmapped)
    }
}

/// A mapping with no control input assigned to an attribute.
pub fn empty_mapping() -> (mapping: Mapping)
    ensures
        forall|i: int| 0 <= i < 4 ==> mapping@[i] == AttributeIdentifier::Unmapped,
{
    [AttributeIdentifier::Unmapped; 4]
}

} // verus!
