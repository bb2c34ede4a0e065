use core_widgets::press::PressInput;
use core_widgets::radio::{apply_select, CoreRadioGroup, SelectItem};

const GROUP: u64 = 7;
const ITEM_A: u64 = 101;
const ITEM_B: u64 = 102;
const ITEM_C: u64 = 103;

fn abc_group() -> CoreRadioGroup {
    let mut g = CoreRadioGroup::new(GROUP);
    g.add_item(ITEM_A);
    g.add_item(ITEM_B);
    g.add_item(ITEM_C);
    g
}

#[test]
fn clicking_b_emits_single_select_item_and_host_moves_selection() {
    // Host state: A selected, B and C not.
    let host_selected = vec![true, false, false];
    let mut g = abc_group();
    let mut emitted: Vec<SelectItem> = Vec::new();
    if let Some(ev) = g.handle_item(1, PressInput::PointerDown { inside: true }) {
        emitted.push(ev);
    }
    if let Some(ev) = g.handle_item(1, PressInput::PointerUp { inside: true }) {
        emitted.push(ev);
    }
    // Exactly one event, naming the group and B; no deselect-A event exists.
    assert_eq!(emitted.len(), 1);
    assert_eq!(emitted[0], SelectItem { group: GROUP, item: ITEM_B });
    // The host's single handler applies it atomically.
    let host_selected = apply_select(&host_selected, 1);
    assert_eq!(host_selected, vec![false, true, false]);
}

#[test]
fn apply_select_leaves_exactly_one_selected() {
    let messy = vec![true, true, false, true];
    let out = apply_select(&messy, 2);
    assert_eq!(out, vec![false, false, true, false]);
    assert_eq!(out.iter().filter(|&&s| s).count(), 1);

    let none = vec![false, false];
    let out = apply_select(&none, 0);
    assert_eq!(out, vec![true, false]);
    assert_eq!(out.iter().filter(|&&s| s).count(), 1);

    let single = vec![false];
    assert_eq!(apply_select(&single, 0), vec![true]);
}

#[test]
fn release_outside_emits_nothing() {
    let mut g = abc_group();
    assert_eq!(g.handle_item(2, PressInput::PointerDown { inside: true }), None);
    assert_eq!(g.handle_item(2, PressInput::PointerUp { inside: false }), None);
}

#[test]
fn keyboard_selects_focused_item() {
    let mut g = abc_group();
    assert_eq!(g.handle_item(0, PressInput::FocusGained), None);
    assert_eq!(
        g.handle_item(0, PressInput::KeyDown { activation: true }),
        Some(SelectItem { group: GROUP, item: ITEM_A })
    );
}

#[test]
fn disabled_item_emits_nothing_and_siblings_still_work() {
    let mut g = abc_group();
    g.set_item_disabled(1, true);
    assert_eq!(g.handle_item(1, PressInput::PointerDown { inside: true }), None);
    assert_eq!(g.handle_item(1, PressInput::PointerUp { inside: true }), None);
    assert_eq!(g.handle_item(2, PressInput::PointerDown { inside: true }), None);
    assert_eq!(
        g.handle_item(2, PressInput::PointerUp { inside: true }),
        Some(SelectItem { group: GROUP, item: ITEM_C })
    );
}

#[test]
fn disabled_while_pressed_swallows_release() {
    let mut g = abc_group();
    assert_eq!(g.handle_item(0, PressInput::PointerDown { inside: true }), None);
    g.set_item_disabled(0, true);
    assert_eq!(g.handle_item(0, PressInput::PointerUp { inside: true }), None);
}

#[test]
fn only_the_clicked_item_changes_state() {
    let mut g = abc_group();
    g.handle_item(1, PressInput::PointerDown { inside: true });
    assert!(g.items[1].press.pressed);
    assert!(!g.items[0].press.pressed);
    assert!(!g.items[2].press.pressed);
    assert_eq!(g.items[0].id, ITEM_A);
    assert_eq!(g.items[2].id, ITEM_C);
}
