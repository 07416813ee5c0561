use compare_image::fixed::Fixed;
use compare_image::regions;
use compare_image::regions::{
    container, handle_custon, handle_default, left_arrow, left_image, left_label,
    left_label_container, right_arrow, right_image, right_label, right_label_container, slider,
};
use compare_image::style::{create_styles, Value};

const SHADOW: &str = "0px 3px 1px -2px rgba(0, 0, 0, 0.2), 0px 2px 2px 0px rgba(0, 0, 0, 0.14), 0px 1px 5px 0px rgba(0, 0, 0, 0.12)";

fn px(pixels: i32) -> Fixed {
    Fixed::from_int(pixels)
}

fn half() -> Fixed {
    Fixed::from_raw(500_000)
}

fn text_of(value: Option<&Option<Value>>) -> String {
    match value {
        Some(Some(Value::Text(text))) => text.clone(),
        other => panic!("not a text value: {:?}", other),
    }
}

#[test]
fn container_has_the_resolved_height() {
    assert_eq!(
        container(Fixed::from_raw(300_400_000)).as_css(),
        "box-sizing: border-box; height: 300px; overflow: hidden; position: relative; width: 100%;"
    );
    assert_eq!(text_of(container(px(0)).get("height")), "0px");
}

#[test]
fn pixel_values_round_to_even_on_a_tie() {
    assert_eq!(text_of(container(Fixed::from_raw(500_000)).get("height")), "0px");
    assert_eq!(text_of(container(Fixed::from_raw(1_500_000)).get("height")), "2px");
    assert_eq!(text_of(container(Fixed::from_raw(2_500_000)).get("height")), "2px");
    assert_eq!(text_of(container(Fixed::from_raw(2_500_001)).get("height")), "3px");
    assert_eq!(text_of(container(Fixed::from_raw(2_499_999)).get("height")), "2px");
    assert_eq!(text_of(container(Fixed::from_raw(-400_000)).get("height")), "-0px");
    assert_eq!(text_of(container(Fixed::from_raw(-1_500_000)).get("height")), "-2px");
}

#[test]
fn horizontal_clips_meet_at_the_cut() {
    let left = left_image(true, px(400), Fixed::from_raw(300_000), px(300), None);
    let right = right_image(true, px(400), Fixed::from_raw(300_000), px(300), None);
    assert_eq!(text_of(left.get("clip")), "rect(auto, 120px, auto, auto)");
    assert_eq!(text_of(right.get("clip")), "rect(auto, auto, auto, 120px)");
}

#[test]
fn vertical_clips_meet_at_the_cut() {
    let left = left_image(false, px(400), Fixed::from_raw(300_000), px(300), None);
    let right = right_image(false, px(400), Fixed::from_raw(300_000), px(300), None);
    assert_eq!(text_of(left.get("clip")), "rect(auto, auto, 90px, auto)");
    assert_eq!(text_of(right.get("clip")), "rect(90px, auto, auto, auto)");
}

#[test]
fn clips_meet_at_every_position() {
    for step in 0..=1000 {
        let position = Fixed::from_raw(step * 1_000);
        let width = Fixed::from_raw(777_777_777);
        let left = text_of(left_image(true, width, position, px(300), None).get("clip"));
        let right = text_of(right_image(true, width, position, px(300), None).get("clip"));
        let bound = left
            .strip_prefix("rect(auto, ")
            .and_then(|rest| rest.strip_suffix(", auto, auto)"))
            .unwrap()
            .to_string();
        assert_eq!(right, format!("rect(auto, auto, auto, {})", bound));
        let exact = 777_777_777u128 * (step as u128) * 1_000;
        let floor = exact / 1_000_000_000_000;
        let rest = exact % 1_000_000_000_000;
        let rounded = if rest * 2 > 1_000_000_000_000 || (rest * 2 == 1_000_000_000_000 && floor % 2 == 1) {
            floor + 1
        } else {
            floor
        };
        assert_eq!(bound, format!("{}px", rounded));
    }
}

#[test]
fn the_cut_is_the_exact_product_rounded_once() {
    let clip = text_of(
        left_image(true, Fixed::from_raw(3_000_000), Fixed::from_raw(500_000), px(1), None).get("clip"),
    );
    assert_eq!(clip, "rect(auto, 2px, auto, auto)");
    let clip = text_of(
        left_image(true, Fixed::from_raw(5_000_000), Fixed::from_raw(500_000), px(1), None).get("clip"),
    );
    assert_eq!(clip, "rect(auto, 2px, auto, auto)");
    let clip = text_of(
        left_image(true, Fixed::from_raw(5_000_001), Fixed::from_raw(500_000), px(1), None).get("clip"),
    );
    assert_eq!(clip, "rect(auto, 3px, auto, auto)");
    let clip = text_of(
        left_image(true, px(400), Fixed::from_raw(-250_000), px(1), None).get("clip"),
    );
    assert_eq!(clip, "rect(auto, -100px, auto, auto)");
}

#[test]
fn label_containers_are_clipped_as_their_images() {
    assert_eq!(
        left_label_container(true, px(400), half(), px(300)).as_css(),
        "clip: rect(auto, 200px, auto, auto); height: 100%; position: absolute; width: 100%;"
    );
    assert_eq!(
        right_label_container(true, px(400), half(), px(300)).as_css(),
        "clip: rect(auto, auto, auto, 200px); height: 100%; position: absolute; width: 100%;"
    );
    assert_eq!(
        left_label_container(false, px(400), half(), px(300)).as_css(),
        "clip: rect(auto, auto, 150px, auto); height: 100%; position: absolute; width: 100%;"
    );
    assert_eq!(
        right_label_container(false, px(400), half(), px(300)).as_css(),
        "clip: rect(150px, auto, auto, auto); height: 100%; position: absolute; width: 100%;"
    );
}

#[test]
fn slider_is_centred_on_the_cut() {
    assert_eq!(
        slider(true, false, px(400), half(), 40, px(300)).as_css(),
        "align-items: center; cursor: ew-resize; display: flex; flex-direction: column; height: 100%; justify-content: center; left: 180px; position: absolute; top: 0; width: 40px;"
    );
    assert_eq!(
        slider(false, false, px(400), half(), 40, px(300)).as_css(),
        "align-items: center; cursor: ns-resize; display: flex; flex-direction: row; height: 40px; justify-content: center; left: 0; position: absolute; top: 130px; width: 100%;"
    );
}

#[test]
fn slider_declares_no_cursor_when_it_follows_the_pointer() {
    let style = slider(true, true, px(400), half(), 40, px(300));
    assert!(style.get("cursor").is_none());
    assert_eq!(style.len(), 9);
    assert_eq!(
        style.as_css(),
        "align-items: center; display: flex; flex-direction: column; height: 100%; justify-content: center; left: 180px; position: absolute; top: 0; width: 40px;"
    );
    let style = slider(false, true, px(400), half(), 40, px(300));
    assert!(style.get("cursor").is_none());
    assert!(!style.as_css().contains("cursor"));
    assert_eq!(slider(true, false, px(400), half(), 40, px(300)).len(), 10);
}

#[test]
fn slider_edge_may_be_negative() {
    assert_eq!(text_of(slider(true, false, px(0), half(), 40, px(0)).get("left")), "-20px");
    assert_eq!(text_of(slider(true, false, px(39), half(), 40, px(0)).get("left")), "-0px");
    assert_eq!(text_of(slider(true, false, px(40), half(), 40, px(0)).get("left")), "0px");
    assert_eq!(text_of(slider(true, false, px(41), half(), 41, px(0)).get("left")), "0px");
    assert_eq!(text_of(slider(false, false, px(0), half(), 5, px(10)).get("top")), "2px");
    assert_eq!(text_of(slider(false, false, px(0), half(), 7, px(10)).get("top")), "2px");
    assert_eq!(
        text_of(slider(true, false, px(400), half(), u32::MAX, px(0)).get("left")),
        "-2147483448px"
    );
}

#[test]
fn line_is_as_thick_as_the_slider_line() {
    assert_eq!(
        regions::line("#ffffff", true, px(2)).as_css(),
        format!("background: #ffffff; box-shadow: {}; flex: 0 1 auto; height: 100%; width: 2px;", SHADOW)
    );
    assert_eq!(
        regions::line("red", false, Fixed::from_raw(3_500_000)).as_css(),
        format!("background: red; box-shadow: {}; flex: 0 1 auto; height: 4px; width: 100%;", SHADOW)
    );
}

#[test]
fn default_handle_is_a_bordered_circle() {
    assert_eq!(
        handle_default(true, px(2), "#ffffff", 40).as_css(),
        format!(
            "align-items: center; border: 2px solid #ffffff; border-radius: 100%; box-shadow: {}; box-sizing: border-box; display: flex; flex: 1 0 auto; height: 40px; justify-content: center; transform: none; width: 40px;",
            SHADOW
        )
    );
    let upright = handle_default(false, px(2), "#ffffff", 40);
    assert_eq!(text_of(upright.get("transform")), "rotate(90deg)");
    assert_eq!(text_of(handle_default(true, px(2), "#000", u32::MAX).get("width")), "4294967295px");
}

#[test]
fn custom_handle_is_as_large_as_its_content() {
    assert_eq!(
        handle_custon().as_css(),
        "align-items: center; box-sizing: border-box; display: flex; flex: 1 0 auto; height: auto; justify-content: center; width: auto;"
    );
}

#[test]
fn arrows_are_sized_by_the_handle() {
    assert_eq!(
        left_arrow(40, "#ffffff").as_css(),
        "border: inset 6px rgba(0,0,0,0); border-right: 6px solid #ffffff; height: 0px; margin-left: -10px; margin-right: 10px; width: 0px;"
    );
    assert_eq!(
        right_arrow(40, "#ffffff").as_css(),
        "border: inset 6px rgba(0,0,0,0); border-left: 6px solid #ffffff; height: 0px; margin-right: -10px; width: 0px;"
    );
}

#[test]
fn arrow_sizes_round_to_even_on_a_tie() {
    assert_eq!(text_of(left_arrow(10, "c").get("border-right")), "2px solid c");
    assert_eq!(text_of(left_arrow(30, "c").get("border-right")), "4px solid c");
    assert_eq!(text_of(left_arrow(2, "c").get("margin-right")), "0px");
    assert_eq!(text_of(left_arrow(6, "c").get("margin-right")), "2px");
    assert_eq!(text_of(left_arrow(6, "c").get("margin-left")), "-2px");
    assert_eq!(text_of(right_arrow(0, "c").get("margin-right")), "-0px");
    assert_eq!(text_of(right_arrow(u32::MAX, "c").get("border")), "inset 644245094px rgba(0,0,0,0)");
}

#[test]
fn left_label_is_anchored_by_orientation() {
    assert_eq!(
        left_label(true, false).as_css(),
        "background: rgba(0, 0, 0, 0.5); color: white; left: 5%; opacity: 1; padding: 10px 20px; position: absolute; top: 50%; transform: translate(0, -50%); transition: opacity 0.1s ease-out;"
    );
    assert_eq!(
        left_label(false, true).as_css(),
        "background: rgba(0, 0, 0, 0.5); color: white; left: 50%; opacity: 0; padding: 10px 20px; position: absolute; top: 3%; transform: translate(-50%, 0); transition: opacity 0.1s ease-out;"
    );
}

#[test]
fn right_label_names_the_sides_it_is_not_anchored_to() {
    let flat = right_label(true, true);
    assert!(matches!(flat.get("left"), Some(None)));
    assert!(matches!(flat.get("bottom"), Some(None)));
    assert_eq!(
        flat.as_css(),
        "background: rgba(0, 0, 0, 0.5);  color: white;  opacity: 0; padding: 10px 20px; position: absolute; right: 5%; top: 50%; transform: translate(0, -50%); transition: opacity 0.1s ease-out;"
    );
    let upright = right_label(false, false);
    assert!(matches!(upright.get("right"), Some(None)));
    assert!(matches!(upright.get("top"), Some(None)));
    assert_eq!(
        upright.as_css(),
        "background: rgba(0, 0, 0, 0.5); bottom: 3%; color: white; left: 50%; opacity: 1; padding: 10px 20px; position: absolute;   transform: translate(-50%, 0); transition: opacity 0.1s ease-out;"
    );
}

#[test]
fn labels_are_hidden_exactly_while_sliding() {
    for horizontal in [true, false] {
        assert_eq!(text_of(left_label(horizontal, true).get("opacity")), "0");
        assert_eq!(text_of(right_label(horizontal, true).get("opacity")), "0");
        assert_eq!(text_of(left_label(horizontal, false).get("opacity")), "1");
        assert_eq!(text_of(right_label(horizontal, false).get("opacity")), "1");
    }
}

#[test]
fn orientation_exchanges_width_and_height() {
    let flat = regions::line("#fff", true, px(2));
    let upright = regions::line("#fff", false, px(2));
    assert_eq!(text_of(flat.get("width")), text_of(upright.get("height")));
    assert_eq!(text_of(flat.get("height")), text_of(upright.get("width")));
    assert_eq!(text_of(flat.get("height")), "100%");
    let flat = slider(true, false, px(640), Fixed::from_raw(125_000), 40, px(480));
    let upright = slider(false, false, px(480), Fixed::from_raw(125_000), 40, px(640));
    assert_eq!(text_of(flat.get("left")), "60px");
    assert_eq!(text_of(flat.get("left")), text_of(upright.get("top")));
    assert_eq!(text_of(flat.get("top")), text_of(upright.get("left")));
    assert_eq!(text_of(flat.get("width")), text_of(upright.get("height")));
    assert_eq!(text_of(flat.get("height")), text_of(upright.get("width")));
}

#[test]
fn the_sheet_holds_every_region() {
    let styles = create_styles(40, px(300), px(400), half(), px(2), "#ffffff", false, true, false, None, None);
    assert_eq!(styles.container.as_css(), container(px(300)).as_css());
    assert_eq!(styles.right_image.as_css(), right_image(true, px(400), half(), px(300), None).as_css());
    assert_eq!(styles.left_image.as_css(), left_image(true, px(400), half(), px(300), None).as_css());
    assert_eq!(styles.slider.as_css(), slider(true, false, px(400), half(), 40, px(300)).as_css());
    assert_eq!(styles.line.as_css(), regions::line("#ffffff", true, px(2)).as_css());
    assert_eq!(styles.handle_custom.as_css(), handle_custon().as_css());
    assert_eq!(styles.handle_default.as_css(), handle_default(true, px(2), "#ffffff", 40).as_css());
    assert_eq!(styles.left_arrow.as_css(), left_arrow(40, "#ffffff").as_css());
    assert_eq!(styles.right_arrow.as_css(), right_arrow(40, "#ffffff").as_css());
    assert_eq!(styles.left_label.as_css(), left_label(true, false).as_css());
    assert_eq!(styles.right_label.as_css(), right_label(true, false).as_css());
    assert_eq!(
        styles.left_label_container.as_css(),
        left_label_container(true, px(400), half(), px(300)).as_css()
    );
    assert_eq!(
        styles.right_label_container.as_css(),
        right_label_container(true, px(400), half(), px(300)).as_css()
    );
}

#[test]
fn regions_are_found_by_name() {
    let styles = create_styles(40, px(300), px(400), half(), px(2), "#ffffff", true, false, true, None, None);
    let names = [
        "container",
        "right_image",
        "left_image",
        "slider",
        "line",
        "handle_custom",
        "handle_default",
        "left_arrow",
        "right_arrow",
        "left_label",
        "right_label",
        "left_label_container",
        "right_label_container",
    ];
    let expected = [
        styles.container.as_css(),
        styles.right_image.as_css(),
        styles.left_image.as_css(),
        styles.slider.as_css(),
        styles.line.as_css(),
        styles.handle_custom.as_css(),
        styles.handle_default.as_css(),
        styles.left_arrow.as_css(),
        styles.right_arrow.as_css(),
        styles.left_label.as_css(),
        styles.right_label.as_css(),
        styles.left_label_container.as_css(),
        styles.right_label_container.as_css(),
    ];
    for (name, css) in names.iter().zip(expected.iter()) {
        assert_eq!(&styles.get(name).unwrap().as_css(), css);
    }
    assert!(styles.get("handle").is_none());
    assert!(styles.get("").is_none());
    assert!(styles.get("Container").is_none());
}

#[test]
fn computing_twice_gives_the_same_text() {
    let compute = || {
        create_styles(
            33,
            Fixed::from_raw(123_456_789),
            Fixed::from_raw(987_654_321),
            Fixed::from_raw(314_159),
            Fixed::from_raw(2_718_281),
            "rgb(1, 2, 3)",
            true,
            false,
            false,
            Some("opacity: 0.5; width: 1px"),
            Some("filter: blur(2px)"),
        )
    };
    let first = compute();
    let second = compute();
    for name in ["container", "right_image", "left_image", "slider", "line", "handle_default", "left_arrow", "right_label"] {
        assert_eq!(first.get(name).unwrap().as_css(), second.get(name).unwrap().as_css());
    }
    assert_eq!(
        first.left_image.as_css(),
        "clip: rect(auto, auto, 39px, auto); display: block; height: 100%; object-fit: cover; opacity: 0.5; position: absolute; width: 100%;"
    );
    assert_eq!(
        first.right_image.as_css(),
        "clip: rect(39px, auto, auto, auto); display: block; filter: blur(2px); height: 100%; object-fit: cover; position: absolute; width: 100%;"
    );
}

#[test]
fn the_overrides_of_each_image_are_read() {
    let styles = create_styles(
        40,
        px(300),
        px(400),
        half(),
        px(2),
        "#ffffff",
        false,
        true,
        false,
        Some("width: 50%; border-radius: 4px"),
        Some(" z-index : 2 ;clip:auto"),
    );
    assert_eq!(
        styles.left_image.as_css(),
        "border-radius: 4px; clip: rect(auto, 200px, auto, auto); display: block; height: 100%; object-fit: cover; position: absolute; width: 100%;"
    );
    assert_eq!(
        styles.right_image.as_css(),
        "clip: rect(auto, auto, auto, 200px); display: block; height: 100%; object-fit: cover; position: absolute; width: 100%; z-index: 2;"
    );
}

#[test]
fn an_empty_override_text_overrides_nothing() {
    let plain = create_styles(40, px(300), px(400), half(), px(2), "#ffffff", false, true, false, None, None);
    for css in ["", ";", " ; ", "no colon here"] {
        let styles = create_styles(40, px(300), px(400), half(), px(2), "#ffffff", false, true, false, Some(css), Some(css));
        assert_eq!(styles.left_image.as_css(), plain.left_image.as_css());
        assert_eq!(styles.right_image.as_css(), plain.right_image.as_css());
    }
}
