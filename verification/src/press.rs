//! The press state machine shared by button-like widgets.
//!
//! Buttons, checkboxes and radio items all track the same transient
//! interaction state — pressed, hovered, focused — and all decide in the same
//! way when an activation happened: a pointer press inside bounds followed by
//! a release inside bounds, or a press of an activation key (Enter or Space)
//! while focused. The widgets differ only in which intent event an
//! activation turns into, so the shared machine lives here and the widget
//! modules wrap it.

use vstd::prelude::*;

verus! {

/// A low-level input event delivered to a press-style widget.
#[derive(Clone, Copy, Debug, PartialEq, Eq, Structural)]
pub enum PressInput {
    /// The pointer moved into the widget's bounds.
    PointerEnter,
    /// The pointer moved out of the widget's bounds.
    PointerLeave,
    /// A pointer button went down; `inside` says whether the press hit the
    /// widget's bounds.
    PointerDown { inside: bool },
    /// A pointer button came up; `inside` says whether the release position
    /// is within the widget's bounds.
    PointerUp { inside: bool },
    /// A key went down while the widget may have focus; `activation` says
    /// whether it is one of the designated activation keys (Enter or Space).
    KeyDown { activation: bool },
    /// The widget gained keyboard focus.
    FocusGained,
    /// The widget lost keyboard focus.
    FocusLost,
}

/// Transient interaction state of a press-style widget.
///
/// `pressed` doubles as the pointer-capture flag: the widget holds pointer
/// capture exactly while it is pressed, and every path that clears `pressed`
/// (release inside, release outside, becoming disabled) therefore also
/// releases capture. Persistent state (checked, selected) is owned by the
/// host, never stored here.
#[derive(Clone, Copy, Debug, PartialEq, Eq, Structural)]
pub struct PressState {
    /// While true, every input event is ignored and nothing is emitted.
    pub disabled: bool,
    /// True from a pointer press inside bounds until the matching release.
    pub pressed: bool,
    /// True while the pointer is within the widget's bounds.
    pub hovered: bool,
    /// True while the widget has keyboard focus.
    pub focused: bool,
}

/// The state after one input event: the single transition function of the
/// press machine. A disabled widget ignores everything; otherwise pointer
/// enter/leave track hover, a press inside bounds takes the pressed state
/// (and with it pointer capture), and the matching release drops it, leaving
/// hover to reflect where the pointer ended up.
pub open spec fn press_step(s: PressState, ev: PressInput) -> PressState {
    if s.disabled {
        s
    } else {
        match ev {
            PressInput::PointerEnter => PressState { hovered: true, ..s },
            PressInput::PointerLeave => PressState { hovered: false, ..s },
            PressInput::PointerDown { inside } => if inside && !s.pressed {
                PressState { pressed: true, ..s }
            } else {
                s
            },
            PressInput::PointerUp { inside } => if s.pressed {
                PressState { pressed: false, hovered: inside, ..s }
            } else {
                s
            },
            PressInput::KeyDown { activation: _ } => s,
            PressInput::FocusGained => PressState { focused: true, ..s },
            PressInput::FocusLost => PressState { focused: false, ..s },
        }
    }
}

/// Whether one input event causes an activation: a release inside bounds
/// while pressed, or an activation key while focused. A disabled widget
/// never activates.
pub open spec fn press_emits(s: PressState, ev: PressInput) -> bool {
    !s.disabled && match ev {
        PressInput::PointerUp { inside } => s.pressed && inside,
        PressInput::KeyDown { activation } => activation && s.focused,
        _ => false,
    }
}

/// The state after the host sets the disabled flag. Disabling while pressed
/// force-releases the press (and with it pointer capture) without emitting
/// anything.
pub open spec fn press_set_disabled(s: PressState, disabled: bool) -> PressState {
    PressState {
        disabled,
        pressed: if disabled { false } else { s.pressed },
        ..s
    }
}

impl PressState {
    /// The machine's invariant: a disabled widget is never pressed, so it
    /// can never hold pointer capture.
    pub open spec fn wf(self) -> bool {
        self.disabled ==> !self.pressed
    }

    /// A fresh, enabled widget: not pressed, not hovered, not focused.
    pub fn new() -> (s: PressState)
        ensures
            s == (PressState { disabled: false, pressed: false, hovered: false, focused: false }),
    {
        PressState { disabled: false, pressed: false, hovered: false, focused: false }
    }

    /// Feeds one input event to the machine; returns whether the event was
    /// an activation.
    pub fn handle(&mut self, ev: PressInput) -> (activated: bool)
        ensures
            *final(self) == press_step(*old(self), ev),
            activated == press_emits(*old(self), ev),
            old(self).wf() ==> final(self).wf(),
    {
        if self.disabled {
            return false;
        }
        match ev {
            PressInput::PointerEnter => {
                self.hovered = true;
                false
            },
            PressInput::PointerLeave => {
                self.hovered = false;
                false
            },
            PressInput::PointerDown { inside } => {
                if inside && !self.pressed {
                    self.pressed = true;
                }
                false
            },
            PressInput::PointerUp { inside } => {
                let was_pressed = self.pressed;
                if was_pressed {
                    self.pressed = false;
                    self.hovered = inside;
                }
                was_pressed && inside
            },
            PressInput::KeyDown { activation } => activation && self.focused,
            PressInput::FocusGained => {
                self.focused = true;
                false
            },
            PressInput::FocusLost => {
                self.focused = false;
                false
            },
        }
    }

    /// Sets the disabled flag; disabling mid-press force-releases the press
    /// without emitting anything.
    pub fn set_disabled(&mut self, disabled: bool)
        ensures
            *final(self) == press_set_disabled(*old(self), disabled),
            final(self).wf(),
    {
        if disabled {
            self.pressed = false;
        }
        self.disabled = disabled;
    }
}

/// One step of the press machine preserves its invariant: a widget that was
/// not pressed while disabled never becomes so.
pub proof fn lemma_press_step_preserves_wf(s: PressState, ev: PressInput)
    requires
        s.wf(),
    ensures
        press_step(s, ev).wf(),
{
}

/// The state after a whole sequence of input events, first event first.
pub open spec fn press_run(s: PressState, evs: Seq<PressInput>) -> PressState
    decreases evs.len(),
{
    if evs.len() == 0 {
        s
    } else {
        press_run(press_step(s, evs[0]), evs.drop_first())
    }
}

/// How many activations a whole sequence of input events causes.
pub open spec fn press_emit_count(s: PressState, evs: Seq<PressInput>) -> nat
    decreases evs.len(),
{
    if evs.len() == 0 {
        0
    } else {
        (if press_emits(s, evs[0]) { 1nat } else { 0nat }) + press_emit_count(
            press_step(s, evs[0]),
            evs.drop_first(),
        )
    }
}

/// A disabled press-style widget is inert: any sequence of input events
/// leaves its state unchanged and causes zero activations.
pub proof fn lemma_disabled_ignores_input(s: PressState, evs: Seq<PressInput>)
    requires
        s.disabled,
    ensures
        press_run(s, evs) == s,
        press_emit_count(s, evs) == 0,
    decreases evs.len(),
{
    if evs.len() > 0 {
        assert(press_step(s, evs[0]) == s);
        lemma_disabled_ignores_input(s, evs.drop_first());
    }
}

/// Whether an event is pure hover motion: pointer enter or leave.
pub open spec fn is_hover_motion(ev: PressInput) -> bool {
    ev is PointerEnter || ev is PointerLeave
}

proof fn lemma_pressed_motion_then_release(
    s: PressState,
    motions: Seq<PressInput>,
    release_inside: bool,
)
    requires
        !s.disabled,
        s.pressed,
        forall|i: int| 0 <= i < motions.len() ==> is_hover_motion(#[trigger] motions[i]),
    ensures
        press_emit_count(s, motions + seq![PressInput::PointerUp { inside: release_inside }])
            == if release_inside { 1nat } else { 0nat },
    decreases motions.len(),
{
    let up = PressInput::PointerUp { inside: release_inside };
    let evs = motions + seq![up];
    if motions.len() == 0 {
        assert(evs =~= seq![up]);
        assert(evs[0] == up);
        assert(evs.drop_first() =~= Seq::<PressInput>::empty());
        assert(press_emit_count(press_step(s, evs[0]), evs.drop_first()) == 0);
        assert(press_emits(s, up) == release_inside);
    } else {
        assert(evs[0] == motions[0]);
        let s1 = press_step(s, motions[0]);
        assert(s1.pressed && !s1.disabled);
        assert(!press_emits(s, motions[0]));
        assert(evs.drop_first() =~= motions.drop_first() + seq![up]);
        lemma_pressed_motion_then_release(s1, motions.drop_first(), release_inside);
    }
}

/// Exactly one activation per complete valid press cycle, and zero when the
/// release lands outside: starting enabled and unpressed, a pointer press
/// inside bounds, any amount of hover motion, and the matching release cause
/// exactly one activation if the release is inside the bounds and none if it
/// is outside.
pub proof fn lemma_press_release_cycle(
    s: PressState,
    motions: Seq<PressInput>,
    release_inside: bool,
)
    requires
        !s.disabled,
        !s.pressed,
        forall|i: int| 0 <= i < motions.len() ==> is_hover_motion(#[trigger] motions[i]),
    ensures
        ({
            let cycle = seq![PressInput::PointerDown { inside: true }] + motions
                + seq![PressInput::PointerUp { inside: release_inside }];
            press_emit_count(s, cycle) == if release_inside { 1nat } else { 0nat }
        }),
{
    let down = PressInput::PointerDown { inside: true };
    let up = PressInput::PointerUp { inside: release_inside };
    let cycle = seq![down] + motions + seq![up];
    assert(cycle[0] == down);
    let s1 = press_step(s, down);
    assert(s1.pressed && !s1.disabled);
    assert(!press_emits(s, down));
    assert(cycle.drop_first() =~= motions + seq![up]);
    lemma_pressed_motion_then_release(s1, motions, release_inside);
}

} // verus!
