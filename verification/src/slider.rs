//! The slider interaction engine.
//!
//! A slider tracks drag state and pointer capture, turns pointer motion into
//! stepped value updates within a configured range, and emits
//! [`SetSliderValue`] intent events. The authoritative value lives in the
//! host: it is read once when an interaction starts (the drag origin) and
//! written only through the emitted events.
//!
//! # Numeric model
//!
//! Values, range bounds and step sizes are `i64` value units (a host that
//! thinks in fractional values picks its own fixed-point scale); pointer
//! positions and track geometry are `i32` pixel coordinates along the track
//! axis. Every emitted value is clamped into `[min, max]`, and when a step
//! is configured every emitted value is `min + k * step` for some integer
//! `k >= 0`.
//!
//! # Quantization policy
//!
//! Candidates are snapped *down*: the emitted value is the largest
//! `min + k * step` that does not exceed the candidate (candidates at or
//! below `min` give `min`, and the topmost representable stepped value never
//! exceeds `max`). Pointer displacement is converted to a value delta with
//! the track's pixel-to-value ratio, truncating the delta toward zero.
//!
//! # Configuration policy
//!
//! A reversed range (`min > max`) is swapped at construction; a step that is
//! not positive means "no stepping" (continuous). A range change that leaves
//! the host's current value outside the range is not auto-corrected: the
//! engine only clamps values it computes itself for new interactions.

use vstd::arithmetic::div_mod::{
    lemma_div_is_ordered, lemma_div_multiples_vanish, lemma_div_nonincreasing,
    lemma_div_pos_is_pos, lemma_fundamental_div_mod, lemma_mod_bound, lemma_mod_multiples_basic,
};
use vstd::arithmetic::mul::{
    lemma_mul_inequality, lemma_mul_is_commutative, lemma_mul_nonnegative, lemma_mul_upper_bound,
};
use vstd::prelude::*;

verus! {

/// Intent event: ask the host to set its authoritative slider value to the
/// carried value.
#[derive(Clone, Copy, Debug, PartialEq, Eq, Structural)]
pub struct SetSliderValue(pub i64);

/// The inclusive value range of a slider, in value units.
#[derive(Clone, Copy, Debug, PartialEq, Eq, Structural)]
pub struct SliderRange {
    /// The smallest allowed value.
    pub min: i64,
    /// The largest allowed value; never below `min`.
    pub max: i64,
}

/// Whether a drag is in progress, and if so where it started.
#[derive(Clone, Copy, Debug, PartialEq, Eq, Structural)]
pub enum CoreSliderDragState {
    /// No drag in progress; the slider does not hold pointer capture.
    Idle,
    /// A drag is in progress; the slider holds pointer capture.
    Dragging {
        /// The host-reported value when the drag started (or the value a
        /// track click jumped to), the anchor for displacement math.
        origin_value: i64,
        /// The pointer position when the drag started.
        origin_pos: i32,
        /// The value the host last heard about during this drag; a move
        /// that computes the same value again emits nothing.
        last_value: i64,
    },
}

/// A pointer input event delivered to a slider.
#[derive(Clone, Copy, Debug, PartialEq, Eq, Structural)]
pub enum SliderInput {
    /// A pointer button went down on the slider's thumb.
    ThumbDown { pos: i32 },
    /// A pointer button went down on the track, away from the thumb.
    TrackDown { pos: i32 },
    /// The pointer moved while this slider may hold capture.
    PointerMove { pos: i32 },
    /// The pointer button came up.
    PointerUp,
}

/// A headless slider: configuration plus transient drag state. The value
/// itself lives in the host.
#[derive(Clone, Copy, Debug, PartialEq, Eq)]
pub struct CoreSlider {
    /// The inclusive value range; values the engine computes are clamped
    /// into it.
    pub range: SliderRange,
    /// The step size in value units, or `None` for a continuous slider.
    pub step: Option<i64>,
    /// The pixel coordinate of the low-value end of the track.
    pub track_start: i32,
    /// The track's length in pixels; always positive.
    pub track_len: i32,
    /// While true, track clicks and drag starts are ignored.
    pub disabled: bool,
    /// The current drag state.
    pub drag: CoreSliderDragState,
}

/// `v` clamped into `[lo, hi]`.
pub open spec fn spec_clamp(v: int, lo: int, hi: int) -> int {
    if v < lo {
        lo
    } else if v > hi {
        hi
    } else {
        v
    }
}

/// A candidate snapped down to the stepped grid and clamped: the largest
/// `min + k * st` not above the candidate, pulled up to `min` for low
/// candidates and down to the topmost stepped value not above `max` for
/// high ones.
pub open spec fn spec_floor_step(min: int, max: int, st: int, candidate: int) -> int {
    if candidate <= min {
        min
    } else {
        let v = min + ((candidate - min) / st) * st;
        if v > max {
            min + ((max - min) / st) * st
        } else {
            v
        }
    }
}

/// The value a candidate quantizes to: snapped down to the step grid when a
/// step is set, and clamped into `[min, max]` either way.
pub open spec fn spec_quantize(min: int, max: int, step: Option<i64>, candidate: int) -> int {
    match step {
        Option::None => spec_clamp(candidate, min, max),
        Option::Some(st) => spec_floor_step(min, max, st as int, candidate),
    }
}

/// The raw (unstepped) value a click position maps to: the click's offset
/// along the track, proportionally mapped into `[min, max]`.
pub open spec fn spec_track_value(min: int, max: int, start: int, len: int, pos: int) -> int {
    if pos <= start {
        min
    } else if pos - start >= len {
        max
    } else {
        min + (pos - start) * (max - min) / len
    }
}

/// The raw candidate a drag move produces: the drag origin value plus the
/// pointer displacement converted at the track's pixel-to-value ratio, the
/// delta truncated toward zero.
pub open spec fn spec_drag_candidate(
    origin_value: int,
    origin_pos: int,
    pos: int,
    min: int,
    max: int,
    len: int,
) -> int {
    let dp = pos - origin_pos;
    if dp >= 0 {
        origin_value + dp * (max - min) / len
    } else {
        origin_value - (-dp) * (max - min) / len
    }
}

/// Quantization always lands inside the range, and on the step grid when a
/// step is set.
pub proof fn lemma_quantize_in_range(min: int, max: int, step: Option<i64>, candidate: int)
    requires
        min <= max,
        step matches Some(st) ==> st > 0,
    ensures
        min <= spec_quantize(min, max, step, candidate) <= max,
        step matches Some(st) ==> (spec_quantize(min, max, step, candidate) - min) % (st as int)
            == 0,
{
    match step {
        Option::None => {},
        Option::Some(st) => {
            let sti = st as int;
            if candidate <= min {
                lemma_mod_multiples_basic(0, sti);
                assert((min - min) % sti == 0);
            } else {
                let d = candidate - min;
                let k = d / sti;
                lemma_fundamental_div_mod(d, sti);
                lemma_mod_bound(d, sti);
                lemma_div_pos_is_pos(d, sti);
                lemma_mul_nonnegative(k, sti);
                lemma_mod_multiples_basic(k, sti);
                lemma_mul_is_commutative(k, sti);
                let v = min + k * sti;
                assert(v == candidate - d % sti);
                assert((v - min) % sti == 0);
                if v > max {
                    let span = max - min;
                    let k2 = span / sti;
                    lemma_fundamental_div_mod(span, sti);
                    lemma_mod_bound(span, sti);
                    lemma_div_pos_is_pos(span, sti);
                    lemma_mul_nonnegative(k2, sti);
                    lemma_mod_multiples_basic(k2, sti);
                    lemma_mul_is_commutative(k2, sti);
                    assert(min + k2 * sti == max - span % sti);
                }
            }
        },
    }
}

/// With a step set, quantization never overshoots: whenever the candidate is
/// at least `min`, the result is at most the candidate.
pub proof fn lemma_quantize_never_overshoots(min: int, max: int, st: i64, candidate: int)
    requires
        min <= max,
        st > 0,
        candidate >= min,
    ensures
        spec_quantize(min, max, Some(st), candidate) <= candidate,
{
    let sti = st as int;
    if candidate <= min {
    } else {
        let d = candidate - min;
        let k = d / sti;
        lemma_fundamental_div_mod(d, sti);
        lemma_mod_bound(d, sti);
        lemma_mul_is_commutative(k, sti);
        assert(min + k * sti == candidate - d % sti);
        if min + k * sti > max {
            let span = max - min;
            let k2 = span / sti;
            lemma_fundamental_div_mod(span, sti);
            lemma_mod_bound(span, sti);
            lemma_mul_is_commutative(k2, sti);
            assert(min + k2 * sti == max - span % sti);
        }
    }
}

/// Quantization snaps *down*: any value on the step grid that lies in the
/// range and does not exceed the candidate is at most the result — the
/// result is the greatest such grid value (and `min` when the candidate is
/// below the whole range).
pub proof fn lemma_quantize_is_greatest_grid_value(
    min: int,
    max: int,
    st: i64,
    candidate: int,
    w: int,
)
    requires
        min <= max,
        st > 0,
        min <= w <= max,
        (w - min) % (st as int) == 0,
        w <= candidate,
    ensures
        w <= spec_quantize(min, max, Some(st), candidate),
{
    let sti = st as int;
    if candidate <= min {
        assert(w == min);
    } else {
        let d = candidate - min;
        let k = d / sti;
        let e = w - min;
        let j = e / sti;
        lemma_fundamental_div_mod(e, sti);
        assert(e == sti * j);
        lemma_mul_is_commutative(j, sti);
        let v = min + k * sti;
        if v > max {
            let span = max - min;
            let k2 = span / sti;
            lemma_div_is_ordered(e, span, sti);
            lemma_mul_inequality(j, k2, sti);
            lemma_mul_is_commutative(k2, sti);
        } else {
            lemma_div_is_ordered(e, d, sti);
            lemma_mul_inequality(j, k, sti);
            lemma_mul_is_commutative(k, sti);
        }
    }
}

/// A track click's raw value always lands inside the range.
pub proof fn lemma_track_value_in_range(min: int, max: int, start: int, len: int, pos: int)
    requires
        min <= max,
        len > 0,
    ensures
        min <= spec_track_value(min, max, start, len, pos) <= max,
{
    if pos <= start {
    } else if pos - start >= len {
    } else {
        let d = pos - start;
        let span = max - min;
        lemma_mul_nonnegative(d, span);
        lemma_div_pos_is_pos(d * span, len);
        lemma_mul_inequality(d, len, span);
        lemma_div_is_ordered(d * span, len * span, len);
        lemma_div_multiples_vanish(span, len);
    }
}

fn clamp_candidate(candidate: i128, lo: i64, hi: i64) -> (r: i64)
    requires
        lo <= hi,
    ensures
        r as int == spec_clamp(candidate as int, lo as int, hi as int),
{
    if candidate < lo as i128 {
        lo
    } else if candidate > hi as i128 {
        hi
    } else {
        candidate as i64
    }
}

fn quantize(min: i64, max: i64, step: Option<i64>, candidate: i128) -> (r: i64)
    requires
        min <= max,
        step matches Some(st) ==> st > 0,
        -0x40000000000000000000000000 <= candidate <= 0x40000000000000000000000000,
    ensures
        r as int == spec_quantize(min as int, max as int, step, candidate as int),
{
    match step {
        Option::None => clamp_candidate(candidate, min, max),
        Option::Some(st) => {
            if candidate <= min as i128 {
                min
            } else {
                let d: u128 = (candidate - min as i128) as u128;
                let stu: u128 = st as u128;
                let rem: u128 = d % stu;
                proof {
                    lemma_fundamental_div_mod(d as int, st as int);
                    lemma_mod_bound(d as int, st as int);
                    lemma_div_pos_is_pos(d as int, st as int);
                    lemma_mul_nonnegative(d as int / st as int, st as int);
                    lemma_mul_is_commutative(d as int / st as int, st as int);
                }
                let v: i128 = candidate - rem as i128;
                if v > max as i128 {
                    let span: u128 = ((max as i128) - (min as i128)) as u128;
                    let rem2: u128 = span % stu;
                    proof {
                        lemma_fundamental_div_mod(span as int, st as int);
                        lemma_mod_bound(span as int, st as int);
                        lemma_div_pos_is_pos(span as int, st as int);
                        lemma_mul_nonnegative(span as int / st as int, st as int);
                        lemma_mul_is_commutative(span as int / st as int, st as int);
                    }
                    max - rem2 as i64
                } else {
                    v as i64
                }
            }
        },
    }
}

fn track_value(min: i64, max: i64, start: i32, len: i32, pos: i32) -> (r: i64)
    requires
        min <= max,
        len > 0,
    ensures
        r as int == spec_track_value(min as int, max as int, start as int, len as int, pos as int),
        min <= r <= max,
{
    proof {
        lemma_track_value_in_range(min as int, max as int, start as int, len as int, pos as int);
    }
    if pos <= start {
        min
    } else {
        let d64: i64 = pos as i64 - start as i64;
        if d64 >= len as i64 {
            max
        } else {
            let d: u128 = d64 as u128;
            let span: u128 = ((max as i128) - (min as i128)) as u128;
            proof {
                lemma_mul_upper_bound(d as int, 0x80000000, span as int, 0x20000000000000000);
                lemma_mul_nonnegative(d as int, span as int);
                lemma_mul_inequality(d as int, len as int, span as int);
                lemma_div_is_ordered(d as int * span as int, len as int * span as int, len as int);
                lemma_div_multiples_vanish(span as int, len as int);
                lemma_div_pos_is_pos(d as int * span as int, len as int);
            }
            let num: u128 = d * span;
            let off: u128 = num / (len as u128);
            let r128: i128 = (min as i128) + (off as i128);
            r128 as i64
        }
    }
}

fn drag_candidate(origin_value: i64, origin_pos: i32, pos: i32, min: i64, max: i64, len: i32) -> (c:
    i128)
    requires
        min <= max,
        len > 0,
    ensures
        c as int == spec_drag_candidate(
            origin_value as int,
            origin_pos as int,
            pos as int,
            min as int,
            max as int,
            len as int,
        ),
        -0x40000000000000000000000000 <= c <= 0x40000000000000000000000000,
{
    let dp: i64 = pos as i64 - origin_pos as i64;
    let span: u128 = ((max as i128) - (min as i128)) as u128;
    let lenu: u128 = len as u128;
    if dp >= 0 {
        proof {
            lemma_mul_upper_bound(dp as int, 0x100000000, span as int, 0x20000000000000000);
            lemma_mul_nonnegative(dp as int, span as int);
            lemma_div_pos_is_pos(dp as int * span as int, len as int);
            lemma_div_nonincreasing(dp as int * span as int, len as int);
        }
        let num: u128 = (dp as u128) * span;
        let mag: u128 = num / lenu;
        (origin_value as i128) + (mag as i128)
    } else {
        let dpn: i64 = -dp;
        proof {
            lemma_mul_upper_bound(dpn as int, 0x100000000, span as int, 0x20000000000000000);
            lemma_mul_nonnegative(dpn as int, span as int);
            lemma_div_pos_is_pos(dpn as int * span as int, len as int);
            lemma_div_nonincreasing(dpn as int * span as int, len as int);
        }
        let num: u128 = (dpn as u128) * span;
        let mag: u128 = num / lenu;
        (origin_value as i128) - (mag as i128)
    }
}

/// The range a slider construction or reconfiguration adopts: a reversed
/// pair is swapped.
pub open spec fn normalize_range(min: i64, max: i64) -> SliderRange {
    if min <= max {
        SliderRange { min, max }
    } else {
        SliderRange { min: max, max: min }
    }
}

/// The step a slider construction or reconfiguration adopts: a step that is
/// not positive means "no stepping".
pub open spec fn normalize_step(step: Option<i64>) -> Option<i64> {
    match step {
        Option::Some(st) => if st > 0 {
            Option::Some(st)
        } else {
            Option::None
        },
        Option::None => Option::None,
    }
}

/// The value a click at `pos` jumps to: the proportional track value,
/// quantized.
pub open spec fn spec_click_value(s: CoreSlider, pos: i32) -> int {
    spec_quantize(
        s.range.min as int,
        s.range.max as int,
        s.step,
        spec_track_value(
            s.range.min as int,
            s.range.max as int,
            s.track_start as int,
            s.track_len as int,
            pos as int,
        ),
    )
}

/// The value a drag move to `pos` computes: the displacement candidate from
/// the drag origin, quantized.
pub open spec fn spec_move_value(
    s: CoreSlider,
    origin_value: i64,
    origin_pos: i32,
    pos: i32,
) -> int {
    spec_quantize(
        s.range.min as int,
        s.range.max as int,
        s.step,
        spec_drag_candidate(
            origin_value as int,
            origin_pos as int,
            pos as int,
            s.range.min as int,
            s.range.max as int,
            s.track_len as int,
        ),
    )
}

/// The slider state after one input event. A disabled slider ignores
/// everything. A thumb press starts a drag anchored at the host-reported
/// value; a track press jumps to the click value and starts a drag anchored
/// there; a move while dragging records the newly computed value; a release
/// ends the drag (and with it pointer capture). Moves without a drag in
/// progress and presses during a drag are delivery anomalies and are
/// ignored.
pub open spec fn slider_step_state(s: CoreSlider, host_value: i64, ev: SliderInput) -> CoreSlider {
    if s.disabled {
        s
    } else {
        match ev {
            SliderInput::ThumbDown { pos } => if s.drag is Idle {
                CoreSlider {
                    drag: CoreSliderDragState::Dragging {
                        origin_value: host_value,
                        origin_pos: pos,
                        last_value: host_value,
                    },
                    ..s
                }
            } else {
                s
            },
            SliderInput::TrackDown { pos } => if s.drag is Idle {
                CoreSlider {
                    drag: CoreSliderDragState::Dragging {
                        origin_value: spec_click_value(s, pos) as i64,
                        origin_pos: pos,
                        last_value: spec_click_value(s, pos) as i64,
                    },
                    ..s
                }
            } else {
                s
            },
            SliderInput::PointerMove { pos } => match s.drag {
                CoreSliderDragState::Idle => s,
                CoreSliderDragState::Dragging { origin_value, origin_pos, last_value: _ } => {
                    CoreSlider {
                        drag: CoreSliderDragState::Dragging {
                            origin_value,
                            origin_pos,
                            last_value: spec_move_value(s, origin_value, origin_pos, pos) as i64,
                        },
                        ..s
                    }
                },
            },
            SliderInput::PointerUp => CoreSlider { drag: CoreSliderDragState::Idle, ..s },
        }
    }
}

/// What one input event emits. Only a track click (the jumped-to value) and
/// a drag move whose computed value differs from the last one the host heard
/// emit anything; everything a disabled slider receives emits nothing.
pub open spec fn slider_step_emit(s: CoreSlider, host_value: i64, ev: SliderInput) -> Option<
    SetSliderValue,
> {
    if s.disabled {
        Option::None
    } else {
        match ev {
            SliderInput::TrackDown { pos } => if s.drag is Idle {
                Option::Some(SetSliderValue(spec_click_value(s, pos) as i64))
            } else {
                Option::None
            },
            SliderInput::PointerMove { pos } => match s.drag {
                CoreSliderDragState::Idle => Option::None,
                CoreSliderDragState::Dragging { origin_value, origin_pos, last_value } => {
                    let v = spec_move_value(s, origin_value, origin_pos, pos) as i64;
                    if v == last_value {
                        Option::None
                    } else {
                        Option::Some(SetSliderValue(v))
                    }
                },
            },
            _ => Option::None,
        }
    }
}

/// The state after the host sets the disabled flag: disabling force-ends an
/// in-progress drag (releasing pointer capture) without emitting anything.
pub open spec fn slider_set_disabled(s: CoreSlider, disabled: bool) -> CoreSlider {
    CoreSlider {
        disabled,
        drag: if disabled {
            CoreSliderDragState::Idle
        } else {
            s.drag
        },
        ..s
    }
}

impl CoreSlider {
    /// The slider's invariant: an ordered range, a positive step when one is
    /// set, a positive track length, and no drag (hence no pointer capture)
    /// while disabled.
    pub open spec fn wf(self) -> bool {
        &&& self.range.min <= self.range.max
        &&& (self.step matches Some(st) ==> st > 0)
        &&& self.track_len > 0
        &&& (self.disabled ==> self.drag is Idle)
    }

    /// A fresh, enabled, idle slider. A reversed range is swapped and a step
    /// that is not positive becomes "no stepping".
    pub fn new(min: i64, max: i64, step: Option<i64>, track_start: i32, track_len: i32) -> (s:
        CoreSlider)
        requires
            track_len > 0,
        ensures
            s == (CoreSlider {
                range: normalize_range(min, max),
                step: normalize_step(step),
                track_start,
                track_len,
                disabled: false,
                drag: CoreSliderDragState::Idle,
            }),
            s.wf(),
    {
        let range = if min <= max {
            SliderRange { min, max }
        } else {
            SliderRange { min: max, max: min }
        };
        let step = match step {
            Option::Some(st) => if st > 0 {
                Option::Some(st)
            } else {
                Option::None
            },
            Option::None => Option::None,
        };
        CoreSlider {
            range,
            step,
            track_start,
            track_len,
            disabled: false,
            drag: CoreSliderDragState::Idle,
        }
    }

    /// Reconfigures the range (swapping a reversed pair). A host value that
    /// now falls outside the range is not touched: the engine only clamps
    /// values it computes for new interactions.
    pub fn set_range(&mut self, min: i64, max: i64)
        ensures
            *final(self) == (CoreSlider { range: normalize_range(min, max), ..*old(self) }),
            old(self).wf() ==> final(self).wf(),
    {
        self.range = if min <= max {
            SliderRange { min, max }
        } else {
            SliderRange { min: max, max: min }
        };
    }

    /// Reconfigures the step; a step that is not positive means "no
    /// stepping".
    pub fn set_step(&mut self, step: Option<i64>)
        ensures
            *final(self) == (CoreSlider { step: normalize_step(step), ..*old(self) }),
            old(self).wf() ==> final(self).wf(),
    {
        self.step = match step {
            Option::Some(st) => if st > 0 {
                Option::Some(st)
            } else {
                Option::None
            },
            Option::None => Option::None,
        };
    }

    /// Sets the disabled flag; disabling mid-drag force-ends the drag (and
    /// releases pointer capture) without emitting a further value change.
    pub fn set_disabled(&mut self, disabled: bool)
        ensures
            *final(self) == slider_set_disabled(*old(self), disabled),
            old(self).wf() ==> final(self).wf(),
    {
        if disabled {
            self.drag = CoreSliderDragState::Idle;
        }
        self.disabled = disabled;
    }

    /// Feeds one input event to the slider. `host_value` is the
    /// host-reported authoritative value at delivery time; it anchors a
    /// thumb drag and is never cached between events.
    pub fn handle(&mut self, host_value: i64, ev: SliderInput) -> (out: Option<SetSliderValue>)
        requires
            old(self).wf(),
        ensures
            *final(self) == slider_step_state(*old(self), host_value, ev),
            out == slider_step_emit(*old(self), host_value, ev),
            final(self).wf(),
    {
        if self.disabled {
            return None;
        }
        match ev {
            SliderInput::ThumbDown { pos } => {
                match self.drag {
                    CoreSliderDragState::Idle => {
                        self.drag = CoreSliderDragState::Dragging {
                            origin_value: host_value,
                            origin_pos: pos,
                            last_value: host_value,
                        };
                        None
                    },
                    CoreSliderDragState::Dragging { .. } => None,
                }
            },
            SliderInput::TrackDown { pos } => {
                match self.drag {
                    CoreSliderDragState::Idle => {
                        let raw = track_value(
                            self.range.min,
                            self.range.max,
                            self.track_start,
                            self.track_len,
                            pos,
                        );
                        let v = quantize(self.range.min, self.range.max, self.step, raw as i128);
                        proof {
                            lemma_quantize_in_range(
                                self.range.min as int,
                                self.range.max as int,
                                self.step,
                                raw as int,
                            );
                        }
                        self.drag = CoreSliderDragState::Dragging {
                            origin_value: v,
                            origin_pos: pos,
                            last_value: v,
                        };
                        Some(SetSliderValue(v))
                    },
                    CoreSliderDragState::Dragging { .. } => None,
                }
            },
            SliderInput::PointerMove { pos } => {
                match self.drag {
                    CoreSliderDragState::Idle => None,
                    CoreSliderDragState::Dragging { origin_value, origin_pos, last_value } => {
                        let candidate = drag_candidate(
                            origin_value,
                            origin_pos,
                            pos,
                            self.range.min,
                            self.range.max,
                            self.track_len,
                        );
                        let v = quantize(self.range.min, self.range.max, self.step, candidate);
                        proof {
                            lemma_quantize_in_range(
                                self.range.min as int,
                                self.range.max as int,
                                self.step,
                                candidate as int,
                            );
                        }
                        self.drag = CoreSliderDragState::Dragging {
                            origin_value,
                            origin_pos,
                            last_value: v,
                        };
                        if v != last_value {
                            Some(SetSliderValue(v))
                        } else {
                            None
                        }
                    },
                }
            },
            SliderInput::PointerUp => {
                self.drag = CoreSliderDragState::Idle;
                None
            },
        }
    }
}

/// Every emitted `SetSliderValue` is clamped into the range, and lands on
/// the step grid when a step is set.
pub proof fn lemma_emitted_value_in_range(s: CoreSlider, host_value: i64, ev: SliderInput)
    requires
        s.wf(),
    ensures
        slider_step_emit(s, host_value, ev) matches Some(sv) ==> ({
            &&& s.range.min <= sv.0 <= s.range.max
            &&& (s.step matches Some(st) ==> (sv.0 - s.range.min) % (st as int) == 0)
        }),
{
    let min = s.range.min as int;
    let max = s.range.max as int;
    if !s.disabled {
        match ev {
            SliderInput::TrackDown { pos } => {
                if s.drag is Idle {
                    lemma_quantize_in_range(
                        min,
                        max,
                        s.step,
                        spec_track_value(
                            min,
                            max,
                            s.track_start as int,
                            s.track_len as int,
                            pos as int,
                        ),
                    );
                }
            },
            SliderInput::PointerMove { pos } => {
                match s.drag {
                    CoreSliderDragState::Idle => {},
                    CoreSliderDragState::Dragging { origin_value, origin_pos, last_value: _ } => {
                        lemma_quantize_in_range(
                            min,
                            max,
                            s.step,
                            spec_drag_candidate(
                                origin_value as int,
                                origin_pos as int,
                                pos as int,
                                min,
                                max,
                                s.track_len as int,
                            ),
                        );
                    },
                }
            },
            _ => {},
        }
    }
}

/// Drag-move quantization is idempotent: delivering the same pointer
/// position again right after a move emits nothing, whatever the first move
/// emitted.
pub proof fn lemma_move_idempotent(s: CoreSlider, host_value: i64, pos: i32)
    requires
        s.wf(),
    ensures
        slider_step_emit(
            slider_step_state(s, host_value, SliderInput::PointerMove { pos }),
            host_value,
            SliderInput::PointerMove { pos },
        ) is None,
{
    let ev = SliderInput::PointerMove { pos };
    let s1 = slider_step_state(s, host_value, ev);
    if !s.disabled {
        match s.drag {
            CoreSliderDragState::Idle => {
                assert(s1 == s);
            },
            CoreSliderDragState::Dragging { origin_value, origin_pos, last_value: _ } => {
                assert(spec_move_value(s1, origin_value, origin_pos, pos) == spec_move_value(
                    s,
                    origin_value,
                    origin_pos,
                    pos,
                ));
            },
        }
    }
}

/// Input events never reconfigure a slider: one step preserves the range,
/// the step, the track geometry, the disabled flag, and the invariant. Only
/// the host's explicit reconfiguration calls change those.
pub proof fn lemma_step_preserves_config(s: CoreSlider, host_value: i64, ev: SliderInput)
    requires
        s.wf(),
    ensures
        slider_step_state(s, host_value, ev).wf(),
        slider_step_state(s, host_value, ev).range == s.range,
        slider_step_state(s, host_value, ev).step == s.step,
        slider_step_state(s, host_value, ev).track_start == s.track_start,
        slider_step_state(s, host_value, ev).track_len == s.track_len,
        slider_step_state(s, host_value, ev).disabled == s.disabled,
{
}

/// The slider state after a whole sequence of events, each delivered with
/// the host value current at that moment, first event first.
pub open spec fn slider_run(s: CoreSlider, evs: Seq<(i64, SliderInput)>) -> CoreSlider
    decreases evs.len(),
{
    if evs.len() == 0 {
        s
    } else {
        slider_run(slider_step_state(s, evs[0].0, evs[0].1), evs.drop_first())
    }
}

/// How many `SetSliderValue` events a whole sequence of input events emits.
pub open spec fn slider_emit_count(s: CoreSlider, evs: Seq<(i64, SliderInput)>) -> nat
    decreases evs.len(),
{
    if evs.len() == 0 {
        0
    } else {
        (if slider_step_emit(s, evs[0].0, evs[0].1) is Some {
            1nat
        } else {
            0nat
        }) + slider_emit_count(slider_step_state(s, evs[0].0, evs[0].1), evs.drop_first())
    }
}

/// Every `SetSliderValue` a whole sequence of input events emits, in order.
pub open spec fn slider_emit_seq(s: CoreSlider, evs: Seq<(i64, SliderInput)>) -> Seq<
    SetSliderValue,
>
    decreases evs.len(),
{
    if evs.len() == 0 {
        Seq::empty()
    } else {
        (match slider_step_emit(s, evs[0].0, evs[0].1) {
            Option::Some(sv) => seq![sv],
            Option::None => Seq::<SetSliderValue>::empty(),
        }) + slider_emit_seq(slider_step_state(s, evs[0].0, evs[0].1), evs.drop_first())
    }
}

/// For all sliders: every `SetSliderValue` emitted over any sequence of
/// input events is clamped into the range, and lands on the step grid when a
/// step is set.
pub proof fn lemma_all_emitted_values_in_range(s: CoreSlider, evs: Seq<(i64, SliderInput)>)
    requires
        s.wf(),
    ensures
        forall|i: int|
            0 <= i < slider_emit_seq(s, evs).len() ==> ({
                &&& s.range.min <= (#[trigger] slider_emit_seq(s, evs)[i]).0 <= s.range.max
                &&& (s.step matches Some(st) ==> (slider_emit_seq(s, evs)[i].0 - s.range.min) % (
                st as int) == 0)
            }),
    decreases evs.len(),
{
    if evs.len() > 0 {
        let s1 = slider_step_state(s, evs[0].0, evs[0].1);
        lemma_step_preserves_config(s, evs[0].0, evs[0].1);
        lemma_emitted_value_in_range(s, evs[0].0, evs[0].1);
        lemma_all_emitted_values_in_range(s1, evs.drop_first());
        let whole = slider_emit_seq(s, evs);
        let tail = slider_emit_seq(s1, evs.drop_first());
        let head_len = whole.len() - tail.len();
        assert forall|i: int| 0 <= i < whole.len() implies ({
            &&& s.range.min <= (#[trigger] whole[i]).0 <= s.range.max
            &&& (s.step matches Some(st) ==> (whole[i].0 - s.range.min) % (st as int) == 0)
        }) by {
            if i >= head_len {
                assert(whole[i] == tail[i - head_len]);
            }
        }
    }
}

/// A disabled slider is inert: any sequence of input events leaves its state
/// unchanged and emits nothing.
pub proof fn lemma_disabled_slider_ignores_input(s: CoreSlider, evs: Seq<(i64, SliderInput)>)
    requires
        s.disabled,
    ensures
        slider_run(s, evs) == s,
        slider_emit_count(s, evs) == 0,
    decreases evs.len(),
{
    if evs.len() > 0 {
        assert(slider_step_state(s, evs[0].0, evs[0].1) == s);
        lemma_disabled_slider_ignores_input(s, evs.drop_first());
    }
}

} // verus!
