//! The button interaction engine.
//!
//! A button tracks press/hover/focus state through the shared press machine
//! and emits a single [`Activate`] intent event per complete valid
//! press-release cycle inside its bounds, or per activation key press while
//! focused. It holds no persistent state at all.

use crate::press::{press_emits, press_set_disabled, press_step, PressInput, PressState};
use vstd::prelude::*;

verus! {

/// The button's intent event: the button was triggered. It carries no
/// payload; what triggering means is up to the host.
#[derive(Clone, Copy, Debug, PartialEq, Eq, Structural)]
pub struct Activate;

/// A headless button: transient interaction state only.
#[derive(Clone, Copy, Debug, PartialEq, Eq, Structural)]
pub struct CoreButton {
    /// The shared press machine that decides when the button activates.
    pub press: PressState,
}

impl CoreButton {
    /// The invariant inherited from the press machine: disabled implies not
    /// pressed.
    pub open spec fn wf(self) -> bool {
        self.press.wf()
    }

    /// A fresh, enabled button.
    pub fn new() -> (b: CoreButton)
        ensures
            b.press == (PressState {
                disabled: false,
                pressed: false,
                hovered: false,
                focused: false,
            }),
            b.wf(),
    {
        CoreButton { press: PressState::new() }
    }

    /// Feeds one input event to the button; emits [`Activate`] exactly when
    /// the press machine reports an activation.
    pub fn handle(&mut self, ev: PressInput) -> (out: Option<Activate>)
        ensures
            final(self).press == press_step(old(self).press, ev),
            out == (if press_emits(old(self).press, ev) {
                Some(Activate)
            } else {
                None::<Activate>
            }),
            old(self).wf() ==> final(self).wf(),
    {
        let activated = self.press.handle(ev);
        if activated {
            Some(Activate)
        } else {
            None
        }
    }

    /// Sets the disabled flag; disabling mid-press force-releases the press
    /// (and pointer capture) without emitting anything.
    pub fn set_disabled(&mut self, disabled: bool)
        ensures
            final(self).press == press_set_disabled(old(self).press, disabled),
            final(self).wf(),
    {
        self.press.set_disabled(disabled);
    }
}

} // verus!
