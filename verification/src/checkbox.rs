//! The checkbox interaction engine.
//!
//! A checkbox tracks press/hover/focus state exactly like a button, but its
//! activation turns into a [`ToggleChecked`] intent event: the engine never
//! learns or stores the authoritative checked value, it only asks the host
//! to flip it, which avoids stale-state races. A [`SetChecked`] event is
//! also exposed so the host can drive imperative sets (for example "select
//! all") through the same channel without any user input.

use crate::press::{press_emits, press_set_disabled, press_step, PressInput, PressState};
use vstd::prelude::*;

verus! {

/// Intent event: ask the host to flip its authoritative checked flag.
#[derive(Clone, Copy, Debug, PartialEq, Eq, Structural)]
pub struct ToggleChecked;

/// Intent event: ask the host to set its authoritative checked flag to the
/// carried value. The engine never emits this from user input; it exists for
/// host-driven imperative sets.
#[derive(Clone, Copy, Debug, PartialEq, Eq, Structural)]
pub struct SetChecked(pub bool);

/// A headless checkbox: transient interaction state only; the checked value
/// lives in the host.
#[derive(Clone, Copy, Debug, PartialEq, Eq, Structural)]
pub struct CoreCheckbox {
    /// The shared press machine that decides when the checkbox activates.
    pub press: PressState,
}

impl CoreCheckbox {
    /// The invariant inherited from the press machine: disabled implies not
    /// pressed.
    pub open spec fn wf(self) -> bool {
        self.press.wf()
    }

    /// A fresh, enabled checkbox.
    pub fn new() -> (c: CoreCheckbox)
        ensures
            c.press == (PressState {
                disabled: false,
                pressed: false,
                hovered: false,
                focused: false,
            }),
            c.wf(),
    {
        CoreCheckbox { press: PressState::new() }
    }

    /// Feeds one input event to the checkbox; emits [`ToggleChecked`]
    /// exactly when the press machine reports an activation.
    pub fn handle(&mut self, ev: PressInput) -> (out: Option<ToggleChecked>)
        ensures
            final(self).press == press_step(old(self).press, ev),
            out == (if press_emits(old(self).press, ev) {
                Some(ToggleChecked)
            } else {
                None::<ToggleChecked>
            }),
            old(self).wf() ==> final(self).wf(),
    {
        let activated = self.press.handle(ev);
        if activated {
            Some(ToggleChecked)
        } else {
            None
        }
    }

    /// Sets the disabled flag; disabling mid-press force-releases the press
    /// (and pointer capture) without emitting anything.
    pub fn set_disabled(&mut self, disabled: bool)
        ensures
            final(self).press == press_set_disabled(old(self).press, disabled),
            final(self).wf(),
    {
        self.press.set_disabled(disabled);
    }
}

/// The reference host handler for [`ToggleChecked`]: the host flips its own
/// checked flag.
pub fn apply_toggle_checked(checked: bool) -> (out: bool)
    ensures
        out == !checked,
{
    !checked
}

/// The reference host handler for [`SetChecked`]: the host adopts the
/// carried value, whatever it held before.
pub fn apply_set_checked(_checked: bool, ev: &SetChecked) -> (out: bool)
    ensures
        out == ev.0,
{
    ev.0
}

} // verus!
