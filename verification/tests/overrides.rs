use compare_image::fixed::Fixed;
use compare_image::overrides::{apply_overrides, parse_declarations};
use compare_image::regions::{left_image, right_image};
use compare_image::style::{Style, Value};

fn pairs(list: &[(&str, &str)]) -> Vec<(String, String)> {
    list.iter().map(|(name, value)| (name.to_string(), value.to_string())).collect()
}

fn px(pixels: i32) -> Fixed {
    Fixed::from_int(pixels)
}

#[test]
fn parse_declarations_splits_and_trims() {
    assert_eq!(
        parse_declarations("color: red; border : 1px solid  black ;"),
        pairs(&[("color", "red"), ("border", "1px solid  black")])
    );
}

#[test]
fn parse_declarations_splits_at_the_first_colon() {
    assert_eq!(
        parse_declarations("background: url(http://x/y.png)"),
        pairs(&[("background", "url(http://x/y.png)")])
    );
}

#[test]
fn parse_declarations_drops_segments_without_colon() {
    assert_eq!(parse_declarations(""), pairs(&[]));
    assert_eq!(parse_declarations(";;"), pairs(&[]));
    assert_eq!(parse_declarations("color red; width: 1px; nonsense"), pairs(&[("width", "1px")]));
}

#[test]
fn parse_declarations_keeps_empty_names_and_values() {
    assert_eq!(parse_declarations(":"), pairs(&[("", "")]));
    assert_eq!(parse_declarations(" : x;y: "), pairs(&[("", "x"), ("y", "")]));
}

#[test]
fn parse_declarations_trims_unicode_white_space() {
    assert_eq!(
        parse_declarations("\u{a0}\tcolor\u{3000}:\n\u{2003}red\u{85}\r"),
        pairs(&[("color", "red")])
    );
    assert_eq!(parse_declarations("a\u{200b}: b"), pairs(&[("a\u{200b}", "b")]));
}

#[test]
fn parse_declarations_keeps_repeated_names_in_order() {
    assert_eq!(
        parse_declarations("a: 1; b: 2; a: 3"),
        pairs(&[("a", "1"), ("b", "2"), ("a", "3")])
    );
}

#[test]
fn apply_overrides_lets_the_last_declaration_win() {
    let mut style = Style::new();
    style.insert("width", Some(Value::Text("100%".to_string())));
    apply_overrides(&mut style, pairs(&[("a", "1"), ("b", "2"), ("a", "3")]));
    assert_eq!(style.as_css(), "a: 3; b: 2; width: 100%;");
}

#[test]
fn apply_overrides_drops_what_the_style_sets() {
    let mut style = Style::new();
    style.insert("width", Some(Value::Text("100%".to_string())));
    style.insert("left", None);
    apply_overrides(&mut style, pairs(&[("width", "50%"), ("left", "3px"), ("color", "red")]));
    assert_eq!(style.as_css(), "color: red;  width: 100%;");
}

#[test]
fn override_of_width_does_not_change_the_left_image() {
    let style = left_image(true, px(400), Fixed::from_raw(500_000), px(300), Some(pairs(&[("width", "50%")])));
    assert!(matches!(style.get("width"), Some(Some(Value::Text(value))) if value == "100%"));
    assert_eq!(
        style.as_css(),
        "clip: rect(auto, 200px, auto, auto); display: block; height: 100%; object-fit: cover; position: absolute; width: 100%;"
    );
}

#[test]
fn reserved_properties_cannot_be_overridden() {
    let overrides = pairs(&[
        ("display", "none"),
        ("height", "1px"),
        ("object-fit", "fill"),
        ("position", "static"),
        ("width", "1px"),
        ("clip", "auto"),
        ("opacity", "0.5"),
    ]);
    let left = left_image(false, px(400), Fixed::from_raw(250_000), px(300), Some(overrides.clone()));
    assert_eq!(
        left.as_css(),
        "clip: rect(auto, auto, 75px, auto); display: block; height: 100%; object-fit: cover; opacity: 0.5; position: absolute; width: 100%;"
    );
    let right = right_image(false, px(400), Fixed::from_raw(250_000), px(300), Some(overrides));
    assert_eq!(
        right.as_css(),
        "clip: rect(75px, auto, auto, auto); display: block; height: 100%; object-fit: cover; opacity: 0.5; position: absolute; width: 100%;"
    );
}

#[test]
fn empty_overrides_change_nothing() {
    let without = right_image(true, px(400), Fixed::from_raw(500_000), px(300), None);
    let with = right_image(true, px(400), Fixed::from_raw(500_000), px(300), Some(Vec::new()));
    assert_eq!(without.as_css(), with.as_css());
    assert_eq!(
        without.as_css(),
        "clip: rect(auto, auto, auto, 200px); display: block; height: 100%; object-fit: cover; position: absolute; width: 100%;"
    );
}
