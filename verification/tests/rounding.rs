use compare_image::fixed::{round_div, Fixed, SCALE};
use compare_image::text::{collect_chars, precedes, push_decimal, push_rounded, same_text};

#[test]
fn round_div_rounds_to_nearest() {
    assert_eq!(round_div(7, 2), 4);
    assert_eq!(round_div(10, 4), 2);
    assert_eq!(round_div(11, 4), 3);
    assert_eq!(round_div(9, 4), 2);
    assert_eq!(round_div(0, 5), 0);
    assert_eq!(round_div(12, 1), 12);
}

#[test]
fn round_div_sends_ties_to_the_even_neighbour() {
    assert_eq!(round_div(1, 2), 0);
    assert_eq!(round_div(3, 2), 2);
    assert_eq!(round_div(5, 2), 2);
    assert_eq!(round_div(7, 2), 4);
    assert_eq!(round_div(25, 10), 2);
    assert_eq!(round_div(35, 10), 4);
}

#[test]
fn round_div_takes_the_largest_operands() {
    assert_eq!(round_div(u128::MAX, 1), u128::MAX);
    assert_eq!(round_div(u128::MAX, u128::MAX), 1);
    assert_eq!(round_div(u128::MAX - 1, u128::MAX), 1);
    assert_eq!(round_div(u128::MAX / 2, u128::MAX), 0);
}

#[test]
fn fixed_holds_millionths() {
    assert_eq!(SCALE, 1_000_000);
    assert_eq!(Fixed::from_int(3).raw(), 3_000_000);
    assert_eq!(Fixed::from_int(-2).raw, -2_000_000);
    assert_eq!(Fixed::from_raw(1_500_000).raw(), 1_500_000);
    assert_eq!(Fixed::from_int(i32::MIN).raw(), -2_147_483_648_000_000);
}

#[test]
fn push_decimal_writes_numerals() {
    let mut out = String::from("n=");
    push_decimal(&mut out, 0);
    push_decimal(&mut out, 7);
    push_decimal(&mut out, 120);
    assert_eq!(out, "n=07120");
    let mut large = String::new();
    push_decimal(&mut large, u128::MAX);
    assert_eq!(large, "340282366920938463463374607431768211455");
}

#[test]
fn push_rounded_keeps_the_sign_of_a_negative_quantity() {
    let mut out = String::new();
    push_rounded(&mut out, -400_000, 1_000_000);
    assert_eq!(out, "-0");
    let mut out = String::new();
    push_rounded(&mut out, -2_500_000, 1_000_000);
    assert_eq!(out, "-2");
    let mut out = String::new();
    push_rounded(&mut out, -3_500_000, 1_000_000);
    assert_eq!(out, "-4");
    let mut out = String::new();
    push_rounded(&mut out, 2_500_001, 1_000_000);
    assert_eq!(out, "3");
    let mut out = String::new();
    push_rounded(&mut out, i128::MIN, 1);
    assert_eq!(out, "-170141183460469231731687303715884105728");
}

#[test]
fn texts_are_ordered_by_code_point() {
    let order = |a: &str, b: &str| precedes(&collect_chars(a), &collect_chars(b));
    assert!(order("border", "border-radius"));
    assert!(order("box-shadow", "box-sizing"));
    assert!(order("", "a"));
    assert!(!order("a", ""));
    assert!(!order("width", "width"));
    assert!(order("Z", "a"));
    assert!(order("z", "\u{e9}"));
    assert!(!order("left", "height"));
}

#[test]
fn same_text_compares_characters() {
    assert!(same_text("clip", "clip"));
    assert!(!same_text("clip", "clips"));
    assert!(!same_text("clip", "clap"));
    assert!(same_text("", ""));
    assert_eq!(collect_chars("a\u{e9}z"), vec!['a', '\u{e9}', 'z']);
}
