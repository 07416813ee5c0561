use compare_image::style::{Style, Value};

fn text(value: &str) -> Option<Value> {
    Some(Value::Text(value.to_string()))
}

#[test]
fn as_css_prints_properties_in_name_order() {
    let mut style = Style::new();
    style.insert("width", text("100%"));
    style.insert("height", text("40px"));
    style.insert("display", text("block"));
    assert_eq!(style.as_css(), "display: block; height: 40px; width: 100%;");
}

#[test]
fn as_css_of_empty_style_is_empty() {
    assert_eq!(Style::new().as_css(), "");
    assert_eq!(Style::default().as_css(), "");
    assert_eq!(Style::new().len(), 0);
}

#[test]
fn as_css_leaves_a_space_for_a_property_without_value() {
    let mut style = Style::new();
    style.insert("left", None);
    style.insert("right", text("5%"));
    style.insert("top", None);
    assert_eq!(style.as_css(), " right: 5%; ");
}

#[test]
fn as_css_prints_flags_and_optional_values() {
    let mut style = Style::new();
    style.insert("a", Some(Value::Bool(false)));
    style.insert("b", Some(Value::Bool(true)));
    style.insert("c", Some(Value::Optional(None)));
    style.insert("d", Some(Value::Optional(Some("x".to_string()))));
    assert_eq!(style.as_css(), "a: false; b: true; c: null; d: x;");
}

#[test]
fn insert_replaces_the_value_of_a_set_property() {
    let mut style = Style::new();
    style.insert("width", text("50%"));
    style.insert("width", text("100%"));
    assert_eq!(style.len(), 1);
    assert_eq!(style.as_css(), "width: 100%;");
}

#[test]
fn insertion_order_does_not_matter() {
    let names = ["top", "left", "clip", "width", "border", "border-left", ""];
    let mut forward = Style::new();
    for name in names.iter() {
        forward.insert(name, text("v"));
    }
    let mut backward = Style::new();
    for name in names.iter().rev() {
        backward.insert(name, text("v"));
    }
    assert_eq!(forward.as_css(), backward.as_css());
    assert_eq!(
        forward.as_css(),
        ": v; border: v; border-left: v; clip: v; left: v; top: v; width: v;"
    );
    assert_eq!(forward.len(), 7);
}

#[test]
fn get_finds_what_insert_set() {
    let mut style = Style::new();
    style.insert("height", text("100%"));
    style.insert("left", None);
    assert!(matches!(style.get("height"), Some(Some(Value::Text(value))) if value == "100%"));
    assert!(matches!(style.get("left"), Some(None)));
    assert!(style.get("width").is_none());
    assert!(style.contains_key("left"));
    assert!(!style.contains_key("lef"));
    assert!(!style.contains_key("leftt"));
}

#[test]
fn clone_copies_every_property() {
    let mut style = Style::new();
    style.insert("b", text("2"));
    style.insert("a", Some(Value::Bool(true)));
    style.insert("c", Some(Value::Optional(Some("3".to_string()))));
    let copy = style.clone();
    style.insert("a", text("changed"));
    assert_eq!(copy.as_css(), "a: true; b: 2; c: 3;");
    assert_eq!(style.as_css(), "a: changed; b: 2; c: 3;");
}

#[test]
fn to_vec_lists_properties_in_name_order() {
    let mut style = Style::new();
    style.insert("top", None);
    style.insert("left", text("5%"));
    style.insert("cursor", Some(Value::Bool(false)));
    let list = style.to_vec();
    let names: Vec<&str> = list.iter().map(|(name, _)| name.as_str()).collect();
    assert_eq!(names, vec!["cursor", "left", "top"]);
    assert!(matches!(&list[0].1, Some(Value::Bool(false))));
    assert!(matches!(&list[1].1, Some(Value::Text(value)) if value == "5%"));
    assert!(list[2].1.is_none());
    assert!(Style::new().to_vec().is_empty());
}
