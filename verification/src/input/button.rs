//! Manage button's state.

use vstd::prelude::*;

verus! {

/// Use this to hold buttons state over time.
///
/// Detects clicking and holding.
#[derive(Debug, Clone, Copy, PartialEq, Eq, Structural)]
pub struct Button {
    pub pressed: bool,
    pub clicked: bool,
    pub held: u32,
}

impl Button {
    /// The state after one more reading of the button.
    pub open spec fn spec_updated(self, down: bool) -> Button {
        Button {
            pressed: down,
            clicked: !self.pressed && down,
            held: if down {
                self.held.saturating_add(1)
            } else {
                0
            },
        }
    }

    pub fn new() -> (button: Self)
        ensures
            !button.pressed,
            !button.clicked,
            button.held == 0,
    {
        Button { pressed: false, clicked: false, held: 0 }
    }

    pub fn update(&mut self, down: bool)
        ensures
            *final(self) == old(self).spec_updated(down),
    {
        let was_pressed = self.pressed;
        self.pressed = down;
        self.clicked = !was_pressed && self.pressed;
        self.held = if self.pressed {
            self.held.saturating_add(1)
        } else {
            0
        };
    }
}

impl Default for Button {
    fn default() -> (button: Self)
        ensures
            !button.pressed,
            !button.clicked,
            button.held == 0,
    {
        Self::new()
    }
}

/// The button after `n` readings while pressed.
pub open spec fn after_presses(button: Button, n: nat) -> Button
    decreases n,
{
    if n == 0 {
        button
    } else {
        after_presses(button, (n - 1) as nat).spec_updated(true)
    }
}

/// Holding a released button down for `n` cycles counts `n` cycles held
/// (saturating at `u32::MAX`); it is clicked in the first of them only.
pub proof fn lemma_held_counts_cycles(button: Button, n: nat)
    requires
        !button.pressed,
        button.held == 0,
    ensures
        n > 0 ==> after_presses(button, n).pressed,
        n > 0 ==> after_presses(button, n).clicked == (n == 1),
        n > 0 ==> after_presses(button, n).held == (if n <= u32::MAX {
            n
        } else {
            u32::MAX as nat
        }),
    decreases n,
{
    if n > 0 {
        let previous = after_presses(button, (n - 1) as nat);
        assert(after_presses(button, n) == previous.spec_updated(true));
        if n > 1 {
            lemma_held_counts_cycles(button, (n - 1) as nat);
        } else {
            assert(previous == button);
        }
        assert(previous.held.saturating_add(1) == (if previous.held + 1 > u32::MAX {
            u32::MAX
        } else {
            (previous.held + 1) as u32
        }));
    }
}

} // verus!
