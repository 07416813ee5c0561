//! Pointer input: where a mouse or touch event points, and the slider
//! position that it asks for.

use vstd::prelude::*;

use crate::fixed::{
    lemma_round_half_even_monotone, round_div, round_half_even, round_ratio, Fixed, SCALE,
};

verus! {

/// A place, in pixels from an origin.
#[derive(Clone, Copy, Debug, PartialEq, Eq, Structural)]
pub struct Point {
    pub x: Fixed,
    pub y: Fixed,
}

/// A pointer event, whichever device it came from.
#[derive(Clone, Copy, Debug, PartialEq, Eq, Structural)]
pub enum PointerEvent {
    /// A mouse event, at the given page coordinates.
    Mouse { page: Point },
    /// A touch event: the page coordinates of the event itself, the number
    /// of touch points that are active, and the page coordinates of the
    /// first of them.
    Touch { page: Point, active_touches: u32, first_touch: Option<Point> },
}

/// Where an event points, in page coordinates. A touch event with exactly
/// one active touch points where that touch is. With no active touch there
/// is no such point, and with more than one the gesture is not a drag of
/// one finger: in both cases the event's own coordinates are used.
pub open spec fn pointed_at(event: PointerEvent) -> Point {
    match event {
        PointerEvent::Mouse { page } => page,
        PointerEvent::Touch { page, active_touches, first_touch } => match first_touch {
            Some(touch) => if active_touches == 1 {
                touch
            } else {
                page
            },
            None => page,
        },
    }
}

impl PointerEvent {
    /// Where the event points, in page coordinates.
    pub fn coordinates(&self) -> (point: Point)
        ensures
            point == pointed_at(*self),
    {
        match *self {
            PointerEvent::Mouse { page } => page,
            PointerEvent::Touch { page, active_touches, first_touch } => match first_touch {
                Some(touch) => if active_touches == 1 {
                    touch
                } else {
                    page
                },
                None => page,
            },
        }
    }
}

/// The coordinate of a point along the active axis.
pub open spec fn along(point: Point, horizontal: bool) -> Fixed {
    if horizontal {
        point.x
    } else {
        point.y
    }
}

/// `x` held between `low` and `high`.
pub open spec fn held(x: int, low: int, high: int) -> int
    recommends
        low <= high,
{
    if x < low {
        low
    } else if x > high {
        high
    } else {
        x
    }
}

/// Twice the offset of the pointer from the container's leading edge, in
/// raw units, clamped so that the slider line stays inside the container:
/// the offset is held between half the line's width and the extent less
/// half the line's width. Both bounds are held inside the container, so
/// the offset never leaves it. Where the line is too wide for both bounds
/// to be met, the offset is the upper bound.
pub open spec fn clamped_offset(
    pointer: Fixed,
    scroll: Fixed,
    origin: Fixed,
    extent: Fixed,
    slider_line_width: Fixed,
) -> int {
    let whole = 2 * extent.raw;
    let doubled = 2 * (pointer.raw - scroll.raw - origin.raw);
    let low = held(slider_line_width.raw as int, 0, whole);
    let high = held(whole - slider_line_width.raw, 0, whole);
    let raised = if doubled < low {
        low
    } else {
        doubled
    };
    if raised > high {
        high
    } else {
        raised
    }
}

/// The slider position that a pointer asks for: its clamped offset from the
/// container's leading edge as a fraction of the container's extent,
/// rounded to the nearest millionth. A container without extent gives no
/// position.
pub open spec fn normalized(
    pointer: Point,
    scroll: Point,
    origin: Point,
    extent: Fixed,
    horizontal: bool,
    slider_line_width: Fixed,
) -> Option<int> {
    if extent.raw <= 0 {
        None
    } else {
        Some(
            round_ratio(
                clamped_offset(
                    along(pointer, horizontal),
                    along(scroll, horizontal),
                    along(origin, horizontal),
                    extent,
                    slider_line_width,
                ) * SCALE,
                2 * extent.raw,
            ),
        )
    }
}

/// A fraction of at most one, in millionths, rounds to at most a million.
proof fn lemma_fraction_within_unit(part: nat, whole: nat)
    requires
        whole > 0,
        part <= whole,
    ensures
        round_half_even(part * (SCALE as nat), whole) <= SCALE,
{
    let n = part * (SCALE as nat);
    let top = whole * (SCALE as nat);
    assert(n <= top) by (nonlinear_arith)
        requires
            part <= whole,
            n == part * (SCALE as nat),
            top == whole * (SCALE as nat),
    ;
    lemma_round_half_even_monotone(n, top, whole);
    assert(round_half_even(top, whole) == SCALE) by {
        vstd::arithmetic::div_mod::lemma_div_multiples_vanish(SCALE as int, whole as int);
        vstd::arithmetic::div_mod::lemma_mod_multiples_basic(SCALE as int, whole as int);
        assert(whole * (SCALE as nat) == SCALE * whole) by (nonlinear_arith);
    }
}

/// The clamp law: whatever the pointer's coordinates, the scroll offset,
/// the container's place and extent and the slider line's width, the
/// position that they give lies between 0 and 1.
pub proof fn lemma_normalized_in_unit_range(
    pointer: Point,
    scroll: Point,
    origin: Point,
    extent: Fixed,
    horizontal: bool,
    slider_line_width: Fixed,
)
    ensures
        normalized(pointer, scroll, origin, extent, horizontal, slider_line_width) matches Some(p)
            ==> 0 <= p <= SCALE,
{
    if extent.raw > 0 {
        let c = clamped_offset(
            along(pointer, horizontal),
            along(scroll, horizontal),
            along(origin, horizontal),
            extent,
            slider_line_width,
        );
        assert(0 <= c <= 2 * extent.raw);
        assert(c * SCALE >= 0) by (nonlinear_arith)
            requires
                c >= 0,
                SCALE == 1_000_000,
        ;
        lemma_fraction_within_unit(c as nat, (2 * extent.raw) as nat);
    }
}

/// The slider position that a pointer asks for, between 0 and 1. `pointer`
/// is given in page coordinates, `scroll` is the page's scroll offset,
/// `origin` is the leading corner of the container's bounding rectangle in
/// the viewport and `extent` is the container's size along the active
/// axis. Returns `None` where the container has no extent, so that the
/// position can be kept as it is.
pub fn normalized_position(
    pointer: Point,
    scroll: Point,
    origin: Point,
    extent: Fixed,
    horizontal: bool,
    slider_line_width: Fixed,
) -> (position: Option<Fixed>)
    ensures
        position is Some <==> extent.raw > 0,
        match position {
            Some(p) => Some(p.raw as int),
            None => None,
        } == normalized(pointer, scroll, origin, extent, horizontal, slider_line_width),
        position matches Some(p) ==> 0 <= p.raw <= SCALE,
{
    if extent.raw <= 0 {
        return None;
    }
    let at: i128 = if horizontal {
        pointer.x.raw as i128
    } else {
        pointer.y.raw as i128
    };
    let scrolled: i128 = if horizontal {
        scroll.x.raw as i128
    } else {
        scroll.y.raw as i128
    };
    let from: i128 = if horizontal {
        origin.x.raw as i128
    } else {
        origin.y.raw as i128
    };
    let whole: i128 = 2 * (extent.raw as i128);
    let width: i128 = slider_line_width.raw as i128;
    let doubled: i128 = 2 * (at - scrolled - from);
    let low: i128 = hold(width, whole);
    let high: i128 = hold(whole - width, whole);
    let raised: i128 = if doubled < low {
        low
    } else {
        doubled
    };
    let clamped: i128 = if raised > high {
        high
    } else {
        raised
    };
    proof {
        lemma_normalized_in_unit_range(
            pointer,
            scroll,
            origin,
            extent,
            horizontal,
            slider_line_width,
        );
        assert(0 <= clamped * 1_000_000 <= whole * 1_000_000) by (nonlinear_arith)
            requires
                0 <= clamped <= whole,
        ;
    }
    let n: u128 = (clamped * 1_000_000) as u128;
    let q: u128 = round_div(n, whole as u128);
    Some(Fixed { raw: q as i64 })
}

/// `x` held between zero and `whole`.
fn hold(x: i128, whole: i128) -> (r: i128)
    requires
        whole >= 0,
    ensures
        r == held(x as int, 0, whole as int),
{
    if x < 0 {
        0
    } else if x > whole {
        whole
    } else {
        x
    }
}

} // verus!
