use core_widgets::slider::{CoreSlider, CoreSliderDragState, SetSliderValue, SliderInput};

/// A slider over `[0, 100]` whose track is 100 pixels starting at 0, so one
/// pixel of pointer motion is one value unit.
fn unit_slider(step: Option<i64>) -> CoreSlider {
    CoreSlider::new(0, 100, step, 0, 100)
}

#[test]
fn drag_by_17_with_step_10_snaps_down_to_30() {
    let mut s = unit_slider(Some(10));
    let host_value = 20;
    assert_eq!(s.handle(host_value, SliderInput::ThumbDown { pos: 0 }), None);
    // +17 pixels map to a raw candidate of 20 + 17 = 37; snapping down to
    // the step grid gives 30.
    let out = s.handle(host_value, SliderInput::PointerMove { pos: 17 });
    assert_eq!(out, Some(SetSliderValue(30)));
}

#[test]
fn repeating_the_same_move_emits_nothing() {
    let mut s = unit_slider(Some(10));
    s.handle(20, SliderInput::ThumbDown { pos: 0 });
    assert_eq!(s.handle(20, SliderInput::PointerMove { pos: 17 }), Some(SetSliderValue(30)));
    assert_eq!(s.handle(20, SliderInput::PointerMove { pos: 17 }), None);
    assert_eq!(s.handle(20, SliderInput::PointerMove { pos: 17 }), None);
}

#[test]
fn every_emitted_value_is_in_range_and_on_the_step_grid() {
    let mut s = unit_slider(Some(10));
    s.handle(20, SliderInput::ThumbDown { pos: 0 });
    let positions = [17, -2000, 3, 2000, 55, 55, -1, 99, 14000, -14000];
    for pos in positions {
        if let Some(SetSliderValue(v)) = s.handle(20, SliderInput::PointerMove { pos }) {
            assert!((0..=100).contains(&v));
            assert_eq!(v % 10, 0);
        }
    }
}

#[test]
fn drag_past_the_ends_clamps() {
    let mut s = unit_slider(None);
    s.handle(50, SliderInput::ThumbDown { pos: 50 });
    assert_eq!(s.handle(50, SliderInput::PointerMove { pos: 10050 }), Some(SetSliderValue(100)));
    assert_eq!(s.handle(50, SliderInput::PointerMove { pos: -10050 }), Some(SetSliderValue(0)));
}

#[test]
fn move_back_to_origin_emits_origin_value() {
    let mut s = unit_slider(None);
    s.handle(40, SliderInput::ThumbDown { pos: 40 });
    assert_eq!(s.handle(40, SliderInput::PointerMove { pos: 60 }), Some(SetSliderValue(60)));
    assert_eq!(s.handle(40, SliderInput::PointerMove { pos: 40 }), Some(SetSliderValue(40)));
}

#[test]
fn first_move_that_lands_on_the_host_value_is_not_re_emitted() {
    // The host-reported value at drag start counts as the last emitted value.
    let mut s = unit_slider(None);
    s.handle(20, SliderInput::ThumbDown { pos: 20 });
    assert_eq!(s.handle(20, SliderInput::PointerMove { pos: 20 }), None);
}

#[test]
fn track_click_jumps_proportionally_and_drag_continues_from_there() {
    let mut s = unit_slider(None);
    assert_eq!(s.handle(5, SliderInput::TrackDown { pos: 50 }), Some(SetSliderValue(50)));
    // The drag is anchored at the jumped-to value, not at the old host value.
    assert_eq!(s.handle(50, SliderInput::PointerMove { pos: 60 }), Some(SetSliderValue(60)));
    assert_eq!(s.handle(50, SliderInput::PointerUp), None);
    assert_eq!(s.drag, CoreSliderDragState::Idle);
}

#[test]
fn track_click_snaps_down_to_step_grid() {
    let mut s = unit_slider(Some(30));
    // A click at 50 of 100 pixels maps to 50; the grid below it is 30.
    assert_eq!(s.handle(0, SliderInput::TrackDown { pos: 50 }), Some(SetSliderValue(30)));
}

#[test]
fn topmost_stepped_value_never_exceeds_max() {
    let mut s = unit_slider(Some(30));
    // A click at the far end maps to 100; the topmost grid value is 90.
    assert_eq!(s.handle(0, SliderInput::TrackDown { pos: 100 }), Some(SetSliderValue(90)));
}

#[test]
fn track_click_before_the_track_start_gives_min() {
    let mut s = CoreSlider::new(-50, 50, None, 200, 100);
    assert_eq!(s.handle(0, SliderInput::TrackDown { pos: 150 }), Some(SetSliderValue(-50)));
}

#[test]
fn pixel_to_value_ratio_scales_displacement() {
    // 100 pixels cover 1000 units: one pixel is ten units.
    let mut s = CoreSlider::new(0, 1000, None, 0, 100);
    s.handle(0, SliderInput::ThumbDown { pos: 0 });
    assert_eq!(s.handle(0, SliderInput::PointerMove { pos: 17 }), Some(SetSliderValue(170)));
}

#[test]
fn negative_displacement_truncates_toward_zero() {
    // 3 pixels on a 7-pixel track over [0, 10]: +3 maps to +4 (30/7
    // truncated), -3 to -4, symmetrically.
    let mut s = CoreSlider::new(0, 10, None, 0, 7);
    s.handle(5, SliderInput::ThumbDown { pos: 0 });
    assert_eq!(s.handle(5, SliderInput::PointerMove { pos: 3 }), Some(SetSliderValue(9)));
    assert_eq!(s.handle(5, SliderInput::PointerMove { pos: -3 }), Some(SetSliderValue(1)));
}

#[test]
fn reversed_range_is_swapped_at_construction() {
    let s = CoreSlider::new(100, 0, None, 0, 100);
    assert_eq!(s.range.min, 0);
    assert_eq!(s.range.max, 100);
}

#[test]
fn nonpositive_step_means_continuous() {
    let s = CoreSlider::new(0, 100, Some(0), 0, 100);
    assert_eq!(s.step, None);
    let s = CoreSlider::new(0, 100, Some(-5), 0, 100);
    assert_eq!(s.step, None);
    let mut s = CoreSlider::new(0, 100, Some(-5), 0, 100);
    assert_eq!(s.handle(0, SliderInput::TrackDown { pos: 37 }), Some(SetSliderValue(37)));
}

#[test]
fn degenerate_range_always_emits_the_single_value() {
    let mut s = CoreSlider::new(42, 42, Some(10), 0, 100);
    assert_eq!(s.handle(0, SliderInput::TrackDown { pos: 80 }), Some(SetSliderValue(42)));
}

#[test]
fn disabled_slider_ignores_presses_and_moves() {
    let mut s = unit_slider(None);
    s.set_disabled(true);
    assert_eq!(s.handle(20, SliderInput::TrackDown { pos: 50 }), None);
    assert_eq!(s.handle(20, SliderInput::ThumbDown { pos: 20 }), None);
    assert_eq!(s.handle(20, SliderInput::PointerMove { pos: 80 }), None);
    assert_eq!(s.drag, CoreSliderDragState::Idle);
}

#[test]
fn disabling_mid_drag_ends_the_drag_without_a_further_event() {
    let mut s = unit_slider(None);
    s.handle(20, SliderInput::ThumbDown { pos: 20 });
    assert!(matches!(s.drag, CoreSliderDragState::Dragging { .. }));
    s.set_disabled(true);
    assert_eq!(s.drag, CoreSliderDragState::Idle);
    assert_eq!(s.handle(20, SliderInput::PointerMove { pos: 80 }), None);
    assert_eq!(s.handle(20, SliderInput::PointerUp), None);
}

#[test]
fn move_and_release_without_a_drag_are_ignored() {
    let mut s = unit_slider(None);
    assert_eq!(s.handle(20, SliderInput::PointerMove { pos: 80 }), None);
    assert_eq!(s.handle(20, SliderInput::PointerUp), None);
    assert_eq!(s.drag, CoreSliderDragState::Idle);
}

#[test]
fn presses_during_a_drag_are_ignored() {
    let mut s = unit_slider(None);
    s.handle(20, SliderInput::ThumbDown { pos: 20 });
    assert_eq!(s.handle(20, SliderInput::ThumbDown { pos: 30 }), None);
    assert_eq!(s.handle(20, SliderInput::TrackDown { pos: 30 }), None);
    // The original anchor still governs the drag.
    assert_eq!(s.handle(20, SliderInput::PointerMove { pos: 30 }), Some(SetSliderValue(30)));
}

#[test]
fn range_change_mid_interaction_only_affects_new_computations() {
    let mut s = unit_slider(None);
    s.handle(90, SliderInput::ThumbDown { pos: 90 });
    s.set_range(0, 50);
    // The next computed value is clamped into the new range; the host's own
    // out-of-range value is its own to fix.
    assert_eq!(s.handle(90, SliderInput::PointerMove { pos: 95 }), Some(SetSliderValue(50)));
}
