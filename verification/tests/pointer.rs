use compare_image::fixed::Fixed;
use compare_image::pointer::{normalized_position, Point, PointerEvent};

fn px(pixels: i32) -> Fixed {
    Fixed::from_int(pixels)
}

fn at(x: i32, y: i32) -> Point {
    Point { x: px(x), y: px(y) }
}

fn raw(position: Option<Fixed>) -> Option<i64> {
    position.map(|p| p.raw())
}

#[test]
fn position_is_the_offset_over_the_extent() {
    let position = normalized_position(at(150, 999), at(0, 0), at(100, 0), px(200), true, px(2));
    assert_eq!(raw(position), Some(250_000));
    let position = normalized_position(at(999, 150), at(0, 0), at(0, 100), px(200), false, px(2));
    assert_eq!(raw(position), Some(250_000));
}

#[test]
fn scroll_offset_and_origin_are_both_subtracted() {
    let position = normalized_position(at(500, 0), at(300, 0), at(100, 0), px(400), true, px(0));
    assert_eq!(raw(position), Some(250_000));
}

#[test]
fn position_never_leaves_the_unit_range() {
    let far_right = normalized_position(at(1_000_000, 0), at(0, 0), at(100, 0), px(200), true, px(2));
    assert_eq!(raw(far_right), Some(995_000));
    let far_left = normalized_position(at(-1_000_000, 0), at(0, 0), at(100, 0), px(200), true, px(2));
    assert_eq!(raw(far_left), Some(5_000));
    let extreme = Point { x: Fixed::from_raw(i64::MAX), y: Fixed::from_raw(i64::MIN) };
    let scroll = Point { x: Fixed::from_raw(i64::MIN), y: Fixed::from_raw(i64::MAX) };
    let across = normalized_position(extreme, scroll, scroll, px(200), true, px(0));
    assert_eq!(raw(across), Some(1_000_000));
    let down = normalized_position(extreme, scroll, scroll, px(200), false, px(0));
    assert_eq!(raw(down), Some(0));
}

#[test]
fn a_line_without_width_reaches_both_ends() {
    let start = normalized_position(at(100, 0), at(0, 0), at(100, 0), px(200), true, px(0));
    assert_eq!(raw(start), Some(0));
    let end = normalized_position(at(300, 0), at(0, 0), at(100, 0), px(200), true, px(0));
    assert_eq!(raw(end), Some(1_000_000));
}

#[test]
fn a_container_without_extent_gives_no_position() {
    assert_eq!(normalized_position(at(150, 0), at(0, 0), at(100, 0), px(0), true, px(2)), None);
    assert_eq!(normalized_position(at(150, 0), at(0, 0), at(100, 0), px(-5), true, px(2)), None);
}

#[test]
fn a_line_as_wide_as_twice_the_extent_pins_the_position() {
    let position = normalized_position(at(150, 0), at(0, 0), at(100, 0), px(10), true, px(20));
    assert_eq!(raw(position), Some(0));
    let position = normalized_position(at(150, 0), at(0, 0), at(100, 0), px(10), true, px(10));
    assert_eq!(raw(position), Some(500_000));
}

#[test]
fn a_line_wider_than_the_container_keeps_the_position_in_range() {
    for pointer in [-1_000_000, -50, 0, 1, 50, 1_000_000] {
        let position = normalized_position(at(pointer, 0), at(0, 0), at(0, 0), px(1), true, px(4));
        assert_eq!(raw(position), Some(0));
        let position = normalized_position(at(pointer, 0), at(0, 0), at(0, 0), px(4), true, px(6));
        assert_eq!(raw(position), Some(250_000));
    }
    let half_a_pixel = Fixed::from_raw(500_000);
    let position = normalized_position(at(3, 0), at(0, 0), at(0, 0), half_a_pixel, true, px(2));
    assert_eq!(raw(position), Some(0));
}

#[test]
fn a_negative_line_width_counts_as_none() {
    let start = normalized_position(at(-500, 0), at(0, 0), at(0, 0), px(200), true, px(-8));
    assert_eq!(raw(start), Some(0));
    let end = normalized_position(at(500, 0), at(0, 0), at(0, 0), px(200), true, px(-8));
    assert_eq!(raw(end), Some(1_000_000));
}

#[test]
fn position_is_rounded_to_the_nearest_millionth() {
    let position = normalized_position(at(1, 0), at(0, 0), at(0, 0), px(3), true, px(0));
    assert_eq!(raw(position), Some(333_333));
    let position = normalized_position(at(2, 0), at(0, 0), at(0, 0), px(3), true, px(0));
    assert_eq!(raw(position), Some(666_667));
}

#[test]
fn the_largest_operands_keep_the_position_in_range() {
    let tiny = Fixed::from_raw(1);
    let line = Fixed::from_raw(i64::MAX);
    let position = normalized_position(at(0, 0), at(0, 0), at(0, 0), tiny, true, line);
    assert_eq!(raw(position), Some(0));
    let huge = Fixed::from_raw(i64::MAX);
    let far = Point { x: Fixed::from_raw(i64::MAX), y: Fixed::from_raw(0) };
    let back = Point { x: Fixed::from_raw(i64::MIN), y: Fixed::from_raw(0) };
    let position = normalized_position(far, back, back, huge, true, Fixed::from_raw(i64::MIN));
    assert_eq!(raw(position), Some(1_000_000));
    let position = normalized_position(back, far, far, huge, true, Fixed::from_raw(0));
    assert_eq!(raw(position), Some(0));
}

#[test]
fn a_mouse_event_points_at_its_page_coordinates() {
    let event = PointerEvent::Mouse { page: at(3, 4) };
    assert_eq!(event.coordinates(), at(3, 4));
}

#[test]
fn a_single_touch_points_at_the_touch() {
    let event = PointerEvent::Touch { page: at(1, 2), active_touches: 1, first_touch: Some(at(30, 40)) };
    assert_eq!(event.coordinates(), at(30, 40));
}

#[test]
fn a_touch_event_without_touches_points_at_its_own_coordinates() {
    let event = PointerEvent::Touch { page: at(1, 2), active_touches: 0, first_touch: None };
    assert_eq!(event.coordinates(), at(1, 2));
    let event = PointerEvent::Touch { page: at(1, 2), active_touches: 1, first_touch: None };
    assert_eq!(event.coordinates(), at(1, 2));
}

#[test]
fn several_touches_point_at_the_event_coordinates() {
    let event = PointerEvent::Touch { page: at(1, 2), active_touches: 2, first_touch: Some(at(30, 40)) };
    assert_eq!(event.coordinates(), at(1, 2));
}
