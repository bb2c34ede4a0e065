//! Headless, unstyled interactive UI primitives: button, checkbox, radio
//! group, and slider.
//!
//! The crate owns interaction semantics only: it translates low-level input
//! events (pointer down/up/move, key presses, focus changes) into well-defined
//! widget state transitions and intent events. It never renders anything and
//! it never owns persistent application state.
//!
//! # State management
//!
//! Every widget here uses external state management: the widget does not
//! mutate its own persistent value (checked, selected, value). Instead it
//! emits an intent event, and the host application applies the change to its
//! own authoritative state. The only state a widget keeps between events is
//! transient interaction state: pressed, hovered, focused, dragging. This
//! avoids two-way data binding between a dynamic data source and the UI.
//!
//! Each widget's transition behaviour is given by a specification function,
//! and the executable handlers are proved to follow it exactly; the key
//! interaction guarantees (one activation per valid click cycle, silence
//! while disabled, in-range stepped slider values, no redundant slider
//! events) are stated and proved as lemmas next to the machines.

use vstd::prelude::*;

pub mod button;
pub mod checkbox;
pub mod press;
pub mod radio;
pub mod slider;

pub use button::{Activate, CoreButton};
pub use checkbox::{CoreCheckbox, SetChecked, ToggleChecked};
pub use press::{PressInput, PressState};
pub use radio::{CoreRadio, CoreRadioGroup, SelectItem};
pub use slider::{CoreSlider, CoreSliderDragState, SetSliderValue, SliderInput, SliderRange};

verus! {

/// Marker for wiring all four core widget engines into a host's event
/// dispatch in one step. A host that wants only some of the widgets can wire
/// the individual engines instead; the engines share no state, so no
/// registration order matters.
pub struct CoreWidgetsPlugin;

} // verus!
