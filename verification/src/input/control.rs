//! Manage control input's state.

use super::buffer::{spec_is_power_of_2, Buffer};
use vstd::prelude::*;

verus! {

/// Use this to hold control input's state over time.
///
/// This detects plugging and unplugging of the input and keeps its latest
/// samples for smoothening and clock detection. While unplugged, the
/// samples rest at `rest`.
#[derive(Debug)]
pub struct Control<T> {
    pub is_plugged: bool,
    pub was_plugged: bool,
    pub was_unplugged: bool,
    pub buffer: Buffer<T, 4>,
    pub rest: T,
}

impl<T: Copy> Control<T> {
    pub open spec fn wf(&self) -> bool {
        self.buffer.wf()
    }

    pub fn new(rest: T) -> (control: Self)
        ensures
            control.wf(),
            !control.is_plugged,
            !control.was_plugged,
            !control.was_unplugged,
            control.rest == rest,
            control.buffer.samples() == Seq::new(4, |i: int| rest),
    {
        assert(spec_is_power_of_2(4)) by {
            reveal_with_fuel(spec_is_power_of_2, 3);
        }
        Control {
            is_plugged: false,
            was_plugged: false,
            was_unplugged: false,
            buffer: Buffer::new(rest),
            rest,
        }
    }

    /// Takes a reading of the input: `None` when nothing is plugged in.
    pub fn update(&mut self, value: Option<T>)
        requires
            old(self).wf(),
        ensures
            final(self).wf(),
            final(self).rest == old(self).rest,
            final(self).is_plugged == value.is_some(),
            final(self).was_plugged == (!old(self).is_plugged && value.is_some()),
            final(self).was_unplugged == (old(self).is_plugged && value.is_none()),
            value matches Some(v) ==> final(self).buffer.samples() == old(self).buffer.samples().update(old(self).buffer.next_slot(), v),
            value is Some ==> final(self).buffer.next_slot() == (old(self).buffer.next_slot() + 1) % 4,
            value is None ==> final(self).buffer.samples() == Seq::new(4, |i: int| old(self).rest),
            value is None ==> final(self).buffer.next_slot() == old(self).buffer.next_slot(),
    {
        let was_plugged = self.is_plugged;
        if let Some(value) = value {
            self.is_plugged = true;
            self.buffer.write(value);
        } else {
            self.is_plugged = false;
            let rest = self.rest;
            self.buffer.reset(rest);
        }
        self.was_plugged = !was_plugged && self.is_plugged;
        self.was_unplugged = was_plugged && !self.is_plugged;
    }

    /// The newest sample.
    pub fn value_raw(&self) -> (value: T)
        requires
            self.wf(),
        ensures
            value == self.buffer.samples()[self.buffer.newest_slot()],
    {
        self.buffer.read_raw()
    }

    /// The sample before the newest.
    pub fn previous_value_raw(&self) -> (value: T)
        requires
            self.wf(),
        ensures
            value == self.buffer.samples()[self.buffer.previous_slot()],
    {
        self.buffer.read_previous_raw()
    }

    /// The oldest sample kept.
    pub fn oldest_value_raw(&self) -> (value: T)
        requires
            self.wf(),
        ensures
            value == self.buffer.samples()[self.buffer.next_slot()],
    {
        self.buffer.read_oldest_raw()
    }
}

} // verus!
