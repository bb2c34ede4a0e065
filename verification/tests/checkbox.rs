use core_widgets::checkbox::{
    apply_set_checked, apply_toggle_checked, CoreCheckbox, SetChecked, ToggleChecked,
};
use core_widgets::press::PressInput;

#[test]
fn click_inside_emits_toggle_and_host_flips_to_true() {
    let host_checked = false;
    let mut c = CoreCheckbox::new();
    assert_eq!(c.handle(PressInput::PointerDown { inside: true }), None);
    let out = c.handle(PressInput::PointerUp { inside: true });
    assert_eq!(out, Some(ToggleChecked));
    let host_checked = apply_toggle_checked(host_checked);
    assert!(host_checked);
}

#[test]
fn toggle_applied_twice_returns_to_start() {
    let host_checked = true;
    let once = apply_toggle_checked(host_checked);
    let twice = apply_toggle_checked(once);
    assert!(!once);
    assert_eq!(twice, host_checked);
}

#[test]
fn click_released_outside_emits_nothing() {
    let mut c = CoreCheckbox::new();
    assert_eq!(c.handle(PressInput::PointerDown { inside: true }), None);
    assert_eq!(c.handle(PressInput::PointerUp { inside: false }), None);
}

#[test]
fn keyboard_activation_toggles_when_focused() {
    let mut c = CoreCheckbox::new();
    c.handle(PressInput::FocusGained);
    assert_eq!(c.handle(PressInput::KeyDown { activation: true }), Some(ToggleChecked));
    assert_eq!(c.handle(PressInput::KeyDown { activation: false }), None);
}

#[test]
fn set_checked_adopts_carried_value_regardless_of_current() {
    assert!(apply_set_checked(false, &SetChecked(true)));
    assert!(apply_set_checked(true, &SetChecked(true)));
    assert!(!apply_set_checked(true, &SetChecked(false)));
    assert!(!apply_set_checked(false, &SetChecked(false)));
}

#[test]
fn disabled_checkbox_emits_nothing_and_keeps_state() {
    let mut c = CoreCheckbox::new();
    c.set_disabled(true);
    let before = c.press;
    let inputs = [
        PressInput::PointerEnter,
        PressInput::PointerDown { inside: true },
        PressInput::PointerUp { inside: true },
        PressInput::FocusGained,
        PressInput::KeyDown { activation: true },
    ];
    for ev in inputs {
        assert_eq!(c.handle(ev), None);
        assert_eq!(c.press, before);
    }
}
