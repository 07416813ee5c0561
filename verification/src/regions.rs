//! The style of each region of the slider, as a function of the geometry.
//!
//! Every pixel value is printed as a whole number, rounded to nearest with
//! ties to even; a negative value keeps its sign.

use vstd::prelude::*;
use vstd::string::*;

use crate::fixed::{Fixed, SCALE};
use crate::overrides::{
    apply_overrides, lemma_computed_properties_win, overridden, pairs_model, Pair,
};
use crate::style::{text_value, Style, StyleModel, Value, ValueModel};
use crate::text::{decimal, push_decimal, push_rounded, rounded_text};

verus! {

/// Raw units per whole unit of a product of two fixed-point numbers.
pub const SCALE_SQUARED: i128 = 1_000_000_000_000;

/// Raw units, at the scale of a product, of half a pixel.
pub const HALF_PIXEL: i128 = 500_000_000_000;

/// The shadow under the divider and the handle.
pub open spec fn shadow() -> Seq<char> {
    "0px 3px 1px -2px rgba(0, 0, 0, 0.2), 0px 2px 2px 0px rgba(0, 0, 0, 0.14), 0px 1px 5px 0px rgba(0, 0, 0, 0.12)"@
}

/// A pixel length, printed as a whole number of pixels.
pub open spec fn px_text(value: Fixed) -> Seq<char> {
    rounded_text(value.raw as int, SCALE as int) + "px"@
}

/// The place of the cut along an axis of the given extent, printed as a
/// whole number of pixels: `extent * position`.
pub open spec fn cut_text(extent: Fixed, position: Fixed) -> Seq<char> {
    rounded_text(extent.raw * position.raw, SCALE_SQUARED as int) + "px"@
}

/// The leading edge of the slider box along an axis: the cut less half the
/// handle, printed as a whole number of pixels.
pub open spec fn edge_text(extent: Fixed, position: Fixed, handle_size: u32) -> Seq<char> {
    rounded_text(extent.raw * position.raw - handle_size * HALF_PIXEL, SCALE_SQUARED as int)
        + "px"@
}

/// `percent` hundredths of the handle's size, printed as a whole number.
pub open spec fn share_text(handle_size: u32, percent: nat) -> Seq<char> {
    rounded_text(handle_size * percent, 100)
}

/// The handle's size in pixels.
pub open spec fn size_text(handle_size: u32) -> Seq<char> {
    decimal(handle_size as nat) + "px"@
}

/// A CSS clip rectangle.
pub open spec fn rect_text(
    top: Seq<char>,
    right: Seq<char>,
    bottom: Seq<char>,
    left: Seq<char>,
) -> Seq<char> {
    "rect("@ + top + ", "@ + right + ", "@ + bottom + ", "@ + left + ")"@
}

/// The clip that shows what lies before the cut: left of it, or above it.
pub open spec fn clip_before(
    horizontal: bool,
    container_width: Fixed,
    slider_position: Fixed,
    container_height: Fixed,
) -> Seq<char> {
    if horizontal {
        rect_text("auto"@, cut_text(container_width, slider_position), "auto"@, "auto"@)
    } else {
        rect_text("auto"@, "auto"@, cut_text(container_height, slider_position), "auto"@)
    }
}

/// The clip that shows what lies after the cut: right of it, or below it.
pub open spec fn clip_after(
    horizontal: bool,
    container_width: Fixed,
    slider_position: Fixed,
    container_height: Fixed,
) -> Seq<char> {
    if horizontal {
        rect_text("auto"@, "auto"@, "auto"@, cut_text(container_width, slider_position))
    } else {
        rect_text(cut_text(container_height, slider_position), "auto"@, "auto"@, "auto"@)
    }
}

/// A text value for a property.
fn text(s: &str) -> (value: Option<Value>)
    ensures
        crate::style::value_model(value) == text_value(s@),
{
    Some(Value::Text(String::from_str(s)))
}

/// A text value for a property, from an owned text.
fn owned(s: String) -> (value: Option<Value>)
    ensures
        crate::style::value_model(value) == text_value(s@),
{
    Some(Value::Text(s))
}

/// `value` as a whole number of pixels.
fn px(value: Fixed) -> (s: String)
    ensures
        s@ == px_text(value),
{
    let mut s = String::new();
    push_rounded(&mut s, value.raw as i128, 1_000_000u128);
    s.append("px");
    assert(s@ =~= px_text(value));
    s
}

/// The product of two raw values, which always fits.
fn raw_product(a: Fixed, b: Fixed) -> (p: i128)
    ensures
        p == a.raw * b.raw,
        -0x4000_0000_0000_0000_0000_0000_0000_0000 <= p <= 0x4000_0000_0000_0000_0000_0000_0000_0000,
{
    let x: i128 = a.raw as i128;
    let y: i128 = b.raw as i128;
    assert(-0x4000_0000_0000_0000_0000_0000_0000_0000 <= x * y
        <= 0x4000_0000_0000_0000_0000_0000_0000_0000) by (nonlinear_arith)
        requires
            -0x8000_0000_0000_0000 <= x <= 0x7fff_ffff_ffff_ffff,
            -0x8000_0000_0000_0000 <= y <= 0x7fff_ffff_ffff_ffff,
    ;
    x * y
}

/// The cut along an axis, as a whole number of pixels.
fn cut(extent: Fixed, position: Fixed) -> (s: String)
    ensures
        s@ == cut_text(extent, position),
{
    let mut s = String::new();
    push_rounded(&mut s, raw_product(extent, position), 1_000_000_000_000u128);
    s.append("px");
    assert(s@ =~= cut_text(extent, position));
    s
}

/// The leading edge of the slider box along an axis.
fn edge(extent: Fixed, position: Fixed, handle_size: u32) -> (s: String)
    ensures
        s@ == edge_text(extent, position, handle_size),
{
    let half: i128 = (handle_size as i128) * HALF_PIXEL;
    let mut s = String::new();
    push_rounded(&mut s, raw_product(extent, position) - half, 1_000_000_000_000u128);
    s.append("px");
    assert(s@ =~= edge_text(extent, position, handle_size));
    s
}

/// A clip rectangle from its four sides.
fn rect(top: &str, right: &str, bottom: &str, left: &str) -> (s: String)
    ensures
        s@ == rect_text(top@, right@, bottom@, left@),
{
    let mut s = String::new();
    s.append("rect(");
    s.append(top);
    s.append(", ");
    s.append(right);
    s.append(", ");
    s.append(bottom);
    s.append(", ");
    s.append(left);
    s.append(")");
    assert(s@ =~= rect_text(top@, right@, bottom@, left@));
    s
}

/// The clip of a region that shows what lies before the cut.
fn before_cut(
    horizontal: bool,
    container_width: Fixed,
    slider_position: Fixed,
    container_height: Fixed,
) -> (s: String)
    ensures
        s@ == clip_before(horizontal, container_width, slider_position, container_height),
{
    if horizontal {
        let at = cut(container_width, slider_position);
        rect("auto", at.as_str(), "auto", "auto")
    } else {
        let at = cut(container_height, slider_position);
        rect("auto", "auto", at.as_str(), "auto")
    }
}

/// The clip of a region that shows what lies after the cut.
fn after_cut(
    horizontal: bool,
    container_width: Fixed,
    slider_position: Fixed,
    container_height: Fixed,
) -> (s: String)
    ensures
        s@ == clip_after(horizontal, container_width, slider_position, container_height),
{
    if horizontal {
        let at = cut(container_width, slider_position);
        rect("auto", "auto", "auto", at.as_str())
    } else {
        let at = cut(container_height, slider_position);
        rect(at.as_str(), "auto", "auto", "auto")
    }
}

/// The container: a positioned box as wide as its parent and as high as
/// the resolved height, which hides what overflows it.
pub open spec fn container_model(container_height: Fixed) -> StyleModel {
    Map::<Seq<char>, Option<ValueModel>>::empty().insert(
        "box-sizing"@,
        text_value("border-box"@),
    ).insert("position"@, text_value("relative"@)).insert("width"@, text_value("100%"@)).insert(
        "height"@,
        text_value(px_text(container_height)),
    ).insert("overflow"@, text_value("hidden"@))
}

/// The style of the container.
pub fn container(container_height: Fixed) -> (style: Style)
    ensures
        style@ == container_model(container_height),
{
    let mut style = Style::new();
    style.insert("box-sizing", text("border-box"));
    style.insert("position", text("relative"));
    style.insert("width", text("100%"));
    style.insert("height", owned(px(container_height)));
    style.insert("overflow", text("hidden"));
    style
}


/// The style without properties.
pub open spec fn no_style() -> StyleModel {
    Map::<Seq<char>, Option<ValueModel>>::empty()
}

/// What both images share before their clip: absolute, full-bleed boxes.
pub open spec fn image_base() -> StyleModel {
    no_style().insert("display"@, text_value("block"@)).insert(
        "height"@,
        text_value("100%"@),
    ).insert("object-fit"@, text_value("cover"@)).insert(
        "position"@,
        text_value("absolute"@),
    ).insert("width"@, text_value("100%"@))
}

/// The computed style of the left image, which shows what lies before the
/// cut.
pub open spec fn left_image_computed(
    horizontal: bool,
    container_width: Fixed,
    slider_position: Fixed,
    container_height: Fixed,
) -> StyleModel {
    image_base().insert(
        "clip"@,
        text_value(clip_before(horizontal, container_width, slider_position, container_height)),
    )
}

/// The computed style of the right image, which shows what lies after the
/// cut.
pub open spec fn right_image_computed(
    horizontal: bool,
    container_width: Fixed,
    slider_position: Fixed,
    container_height: Fixed,
) -> StyleModel {
    image_base().insert(
        "clip"@,
        text_value(clip_after(horizontal, container_width, slider_position, container_height)),
    )
}

/// The style of the left image: the computed one, with the caller's
/// overrides of other properties merged in.
pub open spec fn left_image_model(
    horizontal: bool,
    container_width: Fixed,
    slider_position: Fixed,
    container_height: Fixed,
    overrides: Option<Seq<Pair>>,
) -> StyleModel {
    overridden(
        left_image_computed(horizontal, container_width, slider_position, container_height),
        overrides,
    )
}

/// The style of the right image: the computed one, with the caller's
/// overrides of other properties merged in.
pub open spec fn right_image_model(
    horizontal: bool,
    container_width: Fixed,
    slider_position: Fixed,
    container_height: Fixed,
    overrides: Option<Seq<Pair>>,
) -> StyleModel {
    overridden(
        right_image_computed(horizontal, container_width, slider_position, container_height),
        overrides,
    )
}

/// The overrides that an optional run of parsed declarations holds.
pub open spec fn overrides_model(css: Option<Vec<(String, String)>>) -> Option<Seq<Pair>> {
    match css {
        Some(pairs) => Some(pairs_model(pairs@)),
        None => None,
    }
}

/// The properties that both images share.
fn image_common() -> (style: Style)
    ensures
        style@ == image_base(),
{
    let mut style = Style::new();
    style.insert("display", text("block"));
    style.insert("height", text("100%"));
    style.insert("object-fit", text("cover"));
    style.insert("position", text("absolute"));
    style.insert("width", text("100%"));
    style
}

/// The style of the left image.
pub fn left_image(
    horizontal: bool,
    container_width: Fixed,
    slider_position: Fixed,
    container_height: Fixed,
    left_image_css: Option<Vec<(String, String)>>,
) -> (style: Style)
    ensures
        style@ == left_image_model(
            horizontal,
            container_width,
            slider_position,
            container_height,
            overrides_model(left_image_css),
        ),
{
    let mut style = image_common();
    style.insert(
        "clip",
        owned(before_cut(horizontal, container_width, slider_position, container_height)),
    );
    if let Some(pairs) = left_image_css {
        apply_overrides(&mut style, pairs);
    }
    style
}

/// The style of the right image.
pub fn right_image(
    horizontal: bool,
    container_width: Fixed,
    slider_position: Fixed,
    container_height: Fixed,
    right_image_css: Option<Vec<(String, String)>>,
) -> (style: Style)
    ensures
        style@ == right_image_model(
            horizontal,
            container_width,
            slider_position,
            container_height,
            overrides_model(right_image_css),
        ),
{
    let mut style = image_common();
    style.insert(
        "clip",
        owned(after_cut(horizontal, container_width, slider_position, container_height)),
    );
    if let Some(pairs) = right_image_css {
        apply_overrides(&mut style, pairs);
    }
    style
}

/// What both label containers share: absolute boxes as large as the
/// container.
pub open spec fn label_container_base() -> StyleModel {
    no_style().insert("height"@, text_value("100%"@)).insert(
        "position"@,
        text_value("absolute"@),
    ).insert("width"@, text_value("100%"@))
}

/// The container of the left label, clipped as the left image is.
pub open spec fn left_label_container_model(
    horizontal: bool,
    container_width: Fixed,
    slider_position: Fixed,
    container_height: Fixed,
) -> StyleModel {
    label_container_base().insert(
        "clip"@,
        text_value(clip_before(horizontal, container_width, slider_position, container_height)),
    )
}

/// The container of the right label, clipped as the right image is.
pub open spec fn right_label_container_model(
    horizontal: bool,
    container_width: Fixed,
    slider_position: Fixed,
    container_height: Fixed,
) -> StyleModel {
    label_container_base().insert(
        "clip"@,
        text_value(clip_after(horizontal, container_width, slider_position, container_height)),
    )
}

/// The properties that both label containers share.
fn label_container_common() -> (style: Style)
    ensures
        style@ == label_container_base(),
{
    let mut style = Style::new();
    style.insert("height", text("100%"));
    style.insert("position", text("absolute"));
    style.insert("width", text("100%"));
    style
}

/// The style of the left label's container.
pub fn left_label_container(
    horizontal: bool,
    container_width: Fixed,
    slider_position: Fixed,
    container_height: Fixed,
) -> (style: Style)
    ensures
        style@ == left_label_container_model(
            horizontal,
            container_width,
            slider_position,
            container_height,
        ),
{
    let mut style = label_container_common();
    style.insert(
        "clip",
        owned(before_cut(horizontal, container_width, slider_position, container_height)),
    );
    style
}

/// The style of the right label's container.
pub fn right_label_container(
    horizontal: bool,
    container_width: Fixed,
    slider_position: Fixed,
    container_height: Fixed,
) -> (style: Style)
    ensures
        style@ == right_label_container_model(
            horizontal,
            container_width,
            slider_position,
            container_height,
        ),
{
    let mut style = label_container_common();
    style.insert(
        "clip",
        owned(after_cut(horizontal, container_width, slider_position, container_height)),
    );
    style
}

/// The opacity of a label: hidden while the divider is being moved.
pub open spec fn label_opacity(is_sliding: bool) -> Seq<char> {
    if is_sliding {
        "0"@
    } else {
        "1"@
    }
}

/// How a label is shifted to centre it on its anchor.
pub open spec fn label_transform(horizontal: bool) -> Seq<char> {
    if horizontal {
        "translate(0, -50%)"@
    } else {
        "translate(-50%, 0)"@
    }
}

/// The left label: anchored at the left of the vertical centre, or at the
/// top of the horizontal centre.
pub open spec fn left_label_model(horizontal: bool, is_sliding: bool) -> StyleModel {
    no_style().insert("background"@, text_value("rgba(0, 0, 0, 0.5)"@)).insert(
        "color"@,
        text_value("white"@),
    ).insert("left"@, text_value(if horizontal { "5%"@ } else { "50%"@ })).insert(
        "padding"@,
        text_value("10px 20px"@),
    ).insert("position"@, text_value("absolute"@)).insert(
        "top"@,
        text_value(if horizontal { "50%"@ } else { "3%"@ }),
    ).insert("transform"@, text_value(label_transform(horizontal))).insert(
        "transition"@,
        text_value("opacity 0.1s ease-out"@),
    ).insert("opacity"@, text_value(label_opacity(is_sliding)))
}

/// The right label: anchored at the right of the vertical centre, or at the
/// bottom of the horizontal centre. The sides it is not anchored to are
/// named without a value.
pub open spec fn right_label_model(horizontal: bool, is_sliding: bool) -> StyleModel {
    no_style().insert("background"@, text_value("rgba(0, 0, 0, 0.5)"@)).insert(
        "color"@,
        text_value("white"@),
    ).insert("padding"@, text_value("10px 20px"@)).insert(
        "position"@,
        text_value("absolute"@),
    ).insert("transform"@, text_value(label_transform(horizontal))).insert(
        "transition"@,
        text_value("opacity 0.1s ease-out"@),
    ).insert("left"@, if horizontal { None } else { text_value("50%"@) }).insert(
        "right"@,
        if horizontal { text_value("5%"@) } else { None },
    ).insert("top"@, if horizontal { text_value("50%"@) } else { None }).insert(
        "bottom"@,
        if horizontal { None } else { text_value("3%"@) },
    ).insert("opacity"@, text_value(label_opacity(is_sliding)))
}

/// The style of the left label.
pub fn left_label(horizontal: bool, is_sliding: bool) -> (style: Style)
    ensures
        style@ == left_label_model(horizontal, is_sliding),
{
    let mut style = Style::new();
    style.insert("background", text("rgba(0, 0, 0, 0.5)"));
    style.insert("color", text("white"));
    style.insert("left", text(if horizontal { "5%" } else { "50%" }));
    style.insert("padding", text("10px 20px"));
    style.insert("position", text("absolute"));
    style.insert("top", text(if horizontal { "50%" } else { "3%" }));
    style.insert(
        "transform",
        text(if horizontal { "translate(0, -50%)" } else { "translate(-50%, 0)" }),
    );
    style.insert("transition", text("opacity 0.1s ease-out"));
    style.insert("opacity", text(if is_sliding { "0" } else { "1" }));
    style
}

/// The style of the right label.
pub fn right_label(horizontal: bool, is_sliding: bool) -> (style: Style)
    ensures
        style@ == right_label_model(horizontal, is_sliding),
{
    let mut style = Style::new();
    style.insert("background", text("rgba(0, 0, 0, 0.5)"));
    style.insert("color", text("white"));
    style.insert("padding", text("10px 20px"));
    style.insert("position", text("absolute"));
    style.insert(
        "transform",
        text(if horizontal { "translate(0, -50%)" } else { "translate(-50%, 0)" }),
    );
    style.insert("transition", text("opacity 0.1s ease-out"));
    style.insert("left", if horizontal { None } else { text("50%") });
    style.insert("right", if horizontal { text("5%") } else { None });
    style.insert("top", if horizontal { text("50%") } else { None });
    style.insert("bottom", if horizontal { None } else { text("3%") });
    style.insert("opacity", text(if is_sliding { "0" } else { "1" }));
    style
}

/// The border from which both arrows are cut: transparent, and 15% of the
/// handle's size wide.
pub open spec fn arrow_border(handle_size: u32) -> Seq<char> {
    "inset "@ + share_text(handle_size, 15) + "px rgba(0,0,0,0)"@
}

/// The coloured side of an arrow: 15% of the handle's size wide.
pub open spec fn arrow_side(handle_size: u32, slider_line_color: Seq<char>) -> Seq<char> {
    share_text(handle_size, 15) + "px solid "@ + slider_line_color
}

/// The arrow that points left: a triangle cut from borders.
pub open spec fn left_arrow_model(handle_size: u32, slider_line_color: Seq<char>) -> StyleModel {
    no_style().insert("border"@, text_value(arrow_border(handle_size))).insert(
        "border-right"@,
        text_value(arrow_side(handle_size, slider_line_color)),
    ).insert("height"@, text_value("0px"@)).insert(
        "margin-left"@,
        text_value("-"@ + share_text(handle_size, 25) + "px"@),
    ).insert("margin-right"@, text_value(share_text(handle_size, 25) + "px"@)).insert(
        "width"@,
        text_value("0px"@),
    )
}

/// The arrow that points right: a triangle cut from borders.
pub open spec fn right_arrow_model(handle_size: u32, slider_line_color: Seq<char>) -> StyleModel {
    no_style().insert("border"@, text_value(arrow_border(handle_size))).insert(
        "border-left"@,
        text_value(arrow_side(handle_size, slider_line_color)),
    ).insert("height"@, text_value("0px"@)).insert(
        "margin-right"@,
        text_value("-"@ + share_text(handle_size, 25) + "px"@),
    ).insert("width"@, text_value("0px"@))
}

/// Appends `percent` hundredths of the handle's size, as a whole number.
fn push_share(out: &mut String, handle_size: u32, percent: u8)
    requires
        percent <= 100,
    ensures
        final(out)@ == old(out)@ + share_text(handle_size, percent as nat),
{
    assert(0 <= handle_size * percent <= 0xffff_ffff * 100) by (nonlinear_arith)
        requires
            0 <= handle_size <= 0xffff_ffff,
            0 <= percent <= 100,
    ;
    let part: i128 = (handle_size as i128) * (percent as i128);
    push_rounded(out, part, 100u128);
}

/// The transparent border of an arrow.
fn border_of_arrow(handle_size: u32) -> (s: String)
    ensures
        s@ == arrow_border(handle_size),
{
    let mut s = String::new();
    s.append("inset ");
    push_share(&mut s, handle_size, 15);
    s.append("px rgba(0,0,0,0)");
    assert(s@ =~= arrow_border(handle_size));
    s
}

/// The coloured side of an arrow.
fn side_of_arrow(handle_size: u32, slider_line_color: &str) -> (s: String)
    ensures
        s@ == arrow_side(handle_size, slider_line_color@),
{
    let mut s = String::new();
    push_share(&mut s, handle_size, 15);
    s.append("px solid ");
    s.append(slider_line_color);
    assert(s@ =~= arrow_side(handle_size, slider_line_color@));
    s
}

/// A quarter of the handle's size in pixels, negated or not.
fn quarter(handle_size: u32, negated: bool) -> (s: String)
    ensures
        s@ == (if negated {
            "-"@ + share_text(handle_size, 25) + "px"@
        } else {
            share_text(handle_size, 25) + "px"@
        }),
{
    let mut s = String::new();
    if negated {
        s.append("-");
    }
    push_share(&mut s, handle_size, 25);
    s.append("px");
    assert(s@ =~= (if negated {
        "-"@ + share_text(handle_size, 25) + "px"@
    } else {
        share_text(handle_size, 25) + "px"@
    }));
    s
}

/// The style of the arrow that points left.
pub fn left_arrow(handle_size: u32, slider_line_color: &str) -> (style: Style)
    ensures
        style@ == left_arrow_model(handle_size, slider_line_color@),
{
    let mut style = Style::new();
    style.insert("border", owned(border_of_arrow(handle_size)));
    style.insert("border-right", owned(side_of_arrow(handle_size, slider_line_color)));
    style.insert("height", text("0px"));
    style.insert("margin-left", owned(quarter(handle_size, true)));
    style.insert("margin-right", owned(quarter(handle_size, false)));
    style.insert("width", text("0px"));
    style
}

/// The style of the arrow that points right.
pub fn right_arrow(handle_size: u32, slider_line_color: &str) -> (style: Style)
    ensures
        style@ == right_arrow_model(handle_size, slider_line_color@),
{
    let mut style = Style::new();
    style.insert("border", owned(border_of_arrow(handle_size)));
    style.insert("border-left", owned(side_of_arrow(handle_size, slider_line_color)));
    style.insert("height", text("0px"));
    style.insert("margin-right", owned(quarter(handle_size, true)));
    style.insert("width", text("0px"));
    style
}

/// The default handle: a bordered circle of the handle's size, turned by a
/// quarter when the slider is vertical.
pub open spec fn handle_default_model(
    horizontal: bool,
    slider_line_width: Fixed,
    slider_line_color: Seq<char>,
    handle_size: u32,
) -> StyleModel {
    no_style().insert("align-items"@, text_value("center"@)).insert(
        "border"@,
        text_value(px_text(slider_line_width) + " solid "@ + slider_line_color),
    ).insert("border-radius"@, text_value("100%"@)).insert(
        "box-shadow"@,
        text_value(shadow()),
    ).insert("box-sizing"@, text_value("border-box"@)).insert(
        "display"@,
        text_value("flex"@),
    ).insert("flex"@, text_value("1 0 auto"@)).insert(
        "height"@,
        text_value(size_text(handle_size)),
    ).insert("justify-content"@, text_value("center"@)).insert(
        "width"@,
        text_value(size_text(handle_size)),
    ).insert("transform"@, text_value(if horizontal { "none"@ } else { "rotate(90deg)"@ }))
}

/// The wrapper of a custom handle: a transparent box as large as its
/// content, never turned.
pub open spec fn handle_custom_model() -> StyleModel {
    no_style().insert("align-items"@, text_value("center"@)).insert(
        "box-sizing"@,
        text_value("border-box"@),
    ).insert("display"@, text_value("flex"@)).insert("flex"@, text_value("1 0 auto"@)).insert(
        "height"@,
        text_value("auto"@),
    ).insert("justify-content"@, text_value("center"@)).insert("width"@, text_value("auto"@))
}

/// The handle's size in pixels.
fn size(handle_size: u32) -> (s: String)
    ensures
        s@ == size_text(handle_size),
{
    let mut s = String::new();
    push_decimal(&mut s, handle_size as u128);
    s.append("px");
    assert(s@ =~= size_text(handle_size));
    s
}

/// The style of the default handle.
pub fn handle_default(
    horizontal: bool,
    slider_line_width: Fixed,
    slider_line_color: &str,
    handle_size: u32,
) -> (style: Style)
    ensures
        style@ == handle_default_model(
            horizontal,
            slider_line_width,
            slider_line_color@,
            handle_size,
        ),
{
    let mut border = px(slider_line_width);
    border.append(" solid ");
    border.append(slider_line_color);
    assert(border@ =~= px_text(slider_line_width) + " solid "@ + slider_line_color@);
    let mut style = Style::new();
    style.insert("align-items", text("center"));
    style.insert("border", owned(border));
    style.insert("border-radius", text("100%"));
    style.insert(
        "box-shadow",
        text(
            "0px 3px 1px -2px rgba(0, 0, 0, 0.2), 0px 2px 2px 0px rgba(0, 0, 0, 0.14), 0px 1px 5px 0px rgba(0, 0, 0, 0.12)",
        ),
    );
    style.insert("box-sizing", text("border-box"));
    style.insert("display", text("flex"));
    style.insert("flex", text("1 0 auto"));
    style.insert("height", owned(size(handle_size)));
    style.insert("justify-content", text("center"));
    style.insert("width", owned(size(handle_size)));
    style.insert("transform", text(if horizontal { "none" } else { "rotate(90deg)" }));
    style
}

/// The style of the wrapper of a custom handle.
pub fn handle_custon() -> (style: Style)
    ensures
        style@ == handle_custom_model(),
{
    let mut style = Style::new();
    style.insert("align-items", text("center"));
    style.insert("box-sizing", text("border-box"));
    style.insert("display", text("flex"));
    style.insert("flex", text("1 0 auto"));
    style.insert("height", text("auto"));
    style.insert("justify-content", text("center"));
    style.insert("width", text("auto"));
    style
}

/// One half of the divider: as long as the cross axis, as thick as the
/// slider line, in its colour.
pub open spec fn line_model(
    slider_line_color: Seq<char>,
    horizontal: bool,
    slider_line_width: Fixed,
) -> StyleModel {
    no_style().insert("background"@, text_value(slider_line_color)).insert(
        "box-shadow"@,
        text_value(shadow()),
    ).insert("flex"@, text_value("0 1 auto"@)).insert(
        "height"@,
        text_value(if horizontal { "100%"@ } else { px_text(slider_line_width) }),
    ).insert(
        "width"@,
        text_value(if horizontal { px_text(slider_line_width) } else { "100%"@ }),
    )
}

/// The style of one half of the divider.
pub fn line(slider_line_color: &str, horizontal: bool, slider_line_width: Fixed) -> (style: Style)
    ensures
        style@ == line_model(slider_line_color@, horizontal, slider_line_width),
{
    let mut style = Style::new();
    style.insert("background", text(slider_line_color));
    style.insert(
        "box-shadow",
        text(
            "0px 3px 1px -2px rgba(0, 0, 0, 0.2), 0px 2px 2px 0px rgba(0, 0, 0, 0.14), 0px 1px 5px 0px rgba(0, 0, 0, 0.12)",
        ),
    );
    style.insert("flex", text("0 1 auto"));
    style.insert("height", if horizontal { text("100%") } else { owned(px(slider_line_width)) });
    style.insert("width", if horizontal { owned(px(slider_line_width)) } else { text("100%") });
    style
}

/// The cursor over the slider where the divider is dragged: a resize
/// cursor along the active axis.
pub open spec fn slider_cursor(horizontal: bool) -> Seq<char> {
    if horizontal {
        "ew-resize"@
    } else {
        "ns-resize"@
    }
}

/// What the slider is in either mode: a box as thick as the handle and as
/// long as the cross axis, which lays its children out along the cross
/// axis.
pub open spec fn slider_box(horizontal: bool, handle_size: u32) -> StyleModel {
    no_style().insert("align-items"@, text_value("center"@)).insert(
        "display"@,
        text_value("flex"@),
    ).insert("justify-content"@, text_value("center"@)).insert(
        "position"@,
        text_value("absolute"@),
    ).insert("flex-direction"@, text_value(if horizontal { "column"@ } else { "row"@ })).insert(
        "height"@,
        text_value(if horizontal { "100%"@ } else { size_text(handle_size) }),
    ).insert("width"@, text_value(if horizontal { size_text(handle_size) } else { "100%"@ }))
}

/// The slider: its box, centred on the cut. Where the divider is dragged
/// it has a resize cursor; where the divider follows the pointer without a
/// press it has no cursor of its own.
pub open spec fn slider_model(
    horizontal: bool,
    hover: bool,
    container_width: Fixed,
    slider_position: Fixed,
    handle_size: u32,
    container_height: Fixed,
) -> StyleModel {
    let boxed = slider_box(horizontal, handle_size);
    let pointed = if hover {
        boxed
    } else {
        boxed.insert("cursor"@, text_value(slider_cursor(horizontal)))
    };
    pointed.insert(
        "left"@,
        text_value(
            if horizontal {
                edge_text(container_width, slider_position, handle_size)
            } else {
                "0"@
            },
        ),
    ).insert(
        "top"@,
        text_value(
            if horizontal {
                "0"@
            } else {
                edge_text(container_height, slider_position, handle_size)
            },
        ),
    )
}

/// The style of the slider.
pub fn slider(
    horizontal: bool,
    hover: bool,
    container_width: Fixed,
    slider_position: Fixed,
    handle_size: u32,
    container_height: Fixed,
) -> (style: Style)
    ensures
        style@ == slider_model(
            horizontal,
            hover,
            container_width,
            slider_position,
            handle_size,
            container_height,
        ),
{
    let mut style = Style::new();
    style.insert("align-items", text("center"));
    style.insert("display", text("flex"));
    style.insert("justify-content", text("center"));
    style.insert("position", text("absolute"));
    style.insert("flex-direction", text(if horizontal { "column" } else { "row" }));
    style.insert("height", if horizontal { text("100%") } else { owned(size(handle_size)) });
    style.insert("width", if horizontal { owned(size(handle_size)) } else { text("100%") });
    if !hover {
        style.insert("cursor", text(if horizontal { "ew-resize" } else { "ns-resize" }));
    }
    style.insert(
        "left",
        if horizontal {
            owned(edge(container_width, slider_position, handle_size))
        } else {
            text("0")
        },
    );
    style.insert(
        "top",
        if horizontal {
            text("0")
        } else {
            owned(edge(container_height, slider_position, handle_size))
        },
    );
    style
}


/// The names of the images' computed properties differ from one another.
proof fn lemma_image_names_differ()
    ensures
        "display"@.len() == 7,
        "height"@.len() == 6,
        "object-fit"@.len() == 10,
        "position"@.len() == 8,
        "width"@.len() == 5,
        "clip"@.len() == 4,
{
    reveal_strlit("display");
    reveal_strlit("height");
    reveal_strlit("object-fit");
    reveal_strlit("position");
    reveal_strlit("width");
    reveal_strlit("clip");
}

/// The computed properties of an image: how it is displayed, placed and
/// sized, and its clip.
pub open spec fn is_reserved(name: Seq<char>) -> bool {
    name == "display"@ || name == "height"@ || name == "object-fit"@ || name == "position"@
        || name == "width"@ || name == "clip"@
}

/// The computed style of either image sets exactly the reserved
/// properties, whatever the geometry.
pub proof fn lemma_images_set_reserved_properties(
    horizontal: bool,
    container_width: Fixed,
    slider_position: Fixed,
    container_height: Fixed,
    name: Seq<char>,
)
    ensures
        left_image_computed(
            horizontal,
            container_width,
            slider_position,
            container_height,
        ).contains_key(name) == is_reserved(name),
        right_image_computed(
            horizontal,
            container_width,
            slider_position,
            container_height,
        ).contains_key(name) == is_reserved(name),
{
}

/// Reserved properties take precedence: whatever the caller's overrides
/// declare, each image is displayed as a block, fills the container,
/// covers its box, is placed absolutely, and keeps its computed clip.
pub proof fn lemma_reserved_properties_take_precedence(
    horizontal: bool,
    container_width: Fixed,
    slider_position: Fixed,
    container_height: Fixed,
    overrides: Option<Seq<Pair>>,
)
    ensures
        ({
            let left = left_image_model(
                horizontal,
                container_width,
                slider_position,
                container_height,
                overrides,
            );
            let right = right_image_model(
                horizontal,
                container_width,
                slider_position,
                container_height,
                overrides,
            );
            &&& left.contains_key("width"@) && left["width"@] == text_value("100%"@)
            &&& left.contains_key("height"@) && left["height"@] == text_value("100%"@)
            &&& left.contains_key("display"@) && left["display"@] == text_value("block"@)
            &&& left.contains_key("position"@) && left["position"@] == text_value("absolute"@)
            &&& left.contains_key("object-fit"@) && left["object-fit"@] == text_value("cover"@)
            &&& left.contains_key("clip"@) && left["clip"@] == text_value(
                clip_before(horizontal, container_width, slider_position, container_height),
            )
            &&& right.contains_key("width"@) && right["width"@] == text_value("100%"@)
            &&& right.contains_key("height"@) && right["height"@] == text_value("100%"@)
            &&& right.contains_key("display"@) && right["display"@] == text_value("block"@)
            &&& right.contains_key("position"@) && right["position"@] == text_value("absolute"@)
            &&& right.contains_key("object-fit"@) && right["object-fit"@] == text_value("cover"@)
            &&& right.contains_key("clip"@) && right["clip"@] == text_value(
                clip_after(horizontal, container_width, slider_position, container_height),
            )
        }),
{
    lemma_image_names_differ();
    let l = left_image_computed(horizontal, container_width, slider_position, container_height);
    let r = right_image_computed(horizontal, container_width, slider_position, container_height);
    match overrides {
        Some(pairs) => {
            lemma_computed_properties_win(l, pairs, "width"@);
            lemma_computed_properties_win(l, pairs, "height"@);
            lemma_computed_properties_win(l, pairs, "display"@);
            lemma_computed_properties_win(l, pairs, "position"@);
            lemma_computed_properties_win(l, pairs, "object-fit"@);
            lemma_computed_properties_win(l, pairs, "clip"@);
            lemma_computed_properties_win(r, pairs, "width"@);
            lemma_computed_properties_win(r, pairs, "height"@);
            lemma_computed_properties_win(r, pairs, "display"@);
            lemma_computed_properties_win(r, pairs, "position"@);
            lemma_computed_properties_win(r, pairs, "object-fit"@);
            lemma_computed_properties_win(r, pairs, "clip"@);
        },
        None => {},
    }
}

/// The cut is continuous: where the left image ends, the right image
/// begins. In a horizontal slider the right bound of the left image's clip
/// and the left bound of the right image's clip are both the container's
/// width times the slider position; in a vertical one the bottom bound of
/// the first and the top bound of the second are both the container's
/// height times the slider position. The overrides do not matter.
pub proof fn lemma_cut_is_continuous(
    container_width: Fixed,
    slider_position: Fixed,
    container_height: Fixed,
    left_overrides: Option<Seq<Pair>>,
    right_overrides: Option<Seq<Pair>>,
)
    ensures
        left_image_model(
            true,
            container_width,
            slider_position,
            container_height,
            left_overrides,
        )["clip"@] == text_value(
            rect_text("auto"@, cut_text(container_width, slider_position), "auto"@, "auto"@),
        ),
        right_image_model(
            true,
            container_width,
            slider_position,
            container_height,
            right_overrides,
        )["clip"@] == text_value(
            rect_text("auto"@, "auto"@, "auto"@, cut_text(container_width, slider_position)),
        ),
        left_image_model(
            false,
            container_width,
            slider_position,
            container_height,
            left_overrides,
        )["clip"@] == text_value(
            rect_text("auto"@, "auto"@, cut_text(container_height, slider_position), "auto"@),
        ),
        right_image_model(
            false,
            container_width,
            slider_position,
            container_height,
            right_overrides,
        )["clip"@] == text_value(
            rect_text(cut_text(container_height, slider_position), "auto"@, "auto"@, "auto"@),
        ),
        cut_text(container_width, slider_position) == rounded_text(
            container_width.raw * slider_position.raw,
            SCALE * SCALE,
        ) + "px"@,
{
    lemma_reserved_properties_take_precedence(
        true,
        container_width,
        slider_position,
        container_height,
        left_overrides,
    );
    lemma_reserved_properties_take_precedence(
        true,
        container_width,
        slider_position,
        container_height,
        right_overrides,
    );
    lemma_reserved_properties_take_precedence(
        false,
        container_width,
        slider_position,
        container_height,
        left_overrides,
    );
    lemma_reserved_properties_take_precedence(
        false,
        container_width,
        slider_position,
        container_height,
        right_overrides,
    );
}

/// Labels are hidden exactly while the divider is being moved: the opacity
/// of both is 0 then, and 1 otherwise.
pub proof fn lemma_labels_hide_while_sliding(horizontal: bool, is_sliding: bool)
    ensures
        left_label_model(horizontal, is_sliding)["opacity"@] == text_value(
            if is_sliding {
                "0"@
            } else {
                "1"@
            },
        ),
        right_label_model(horizontal, is_sliding)["opacity"@] == text_value(
            if is_sliding {
                "0"@
            } else {
                "1"@
            },
        ),
        left_label_model(horizontal, is_sliding)["opacity"@] == text_value("0"@) <==> is_sliding,
        right_label_model(horizontal, is_sliding)["opacity"@] == text_value("0"@) <==> is_sliding,
{
    reveal_strlit("0");
    reveal_strlit("1");
    assert("0"@ != "1"@) by {
        assert("0"@[0] != "1"@[0]);
    }
}

/// Turning the slider exchanges the axes. With the container's width and
/// height exchanged as well, the divider's thickness passes from its width
/// to its height, the slider box's thickness and its offset pass from
/// width and left to height and top, and the cut passes from the right and
/// left bounds of the clips to their bottom and top bounds.
pub proof fn lemma_orientation_exchanges_axes(
    along: Fixed,
    across: Fixed,
    slider_position: Fixed,
    slider_line_width: Fixed,
    slider_line_color: Seq<char>,
    handle_size: u32,
    hover: bool,
)
    ensures
        ({
            let flat = line_model(slider_line_color, true, slider_line_width);
            let upright = line_model(slider_line_color, false, slider_line_width);
            &&& flat["width"@] == upright["height"@]
            &&& flat["width"@] == text_value(px_text(slider_line_width))
            &&& flat["height"@] == upright["width"@]
            &&& flat["height"@] == text_value("100%"@)
        }),
        ({
            let flat = slider_model(true, hover, along, slider_position, handle_size, across);
            let upright = slider_model(false, hover, across, slider_position, handle_size, along);
            &&& flat["width"@] == upright["height"@]
            &&& flat["height"@] == upright["width"@]
            &&& flat["left"@] == upright["top"@]
            &&& flat["left"@] == text_value(edge_text(along, slider_position, handle_size))
            &&& flat["top"@] == upright["left"@]
            &&& flat["flex-direction"@] == text_value("column"@)
            &&& upright["flex-direction"@] == text_value("row"@)
        }),
        clip_before(true, along, slider_position, across) == rect_text(
            "auto"@,
            cut_text(along, slider_position),
            "auto"@,
            "auto"@,
        ),
        clip_before(false, across, slider_position, along) == rect_text(
            "auto"@,
            "auto"@,
            cut_text(along, slider_position),
            "auto"@,
        ),
        clip_after(true, along, slider_position, across) == rect_text(
            "auto"@,
            "auto"@,
            "auto"@,
            cut_text(along, slider_position),
        ),
        clip_after(false, across, slider_position, along) == rect_text(
            cut_text(along, slider_position),
            "auto"@,
            "auto"@,
            "auto"@,
        ),
        left_label_container_model(true, along, slider_position, across)["clip"@] == text_value(
            clip_before(true, along, slider_position, across),
        ),
        left_label_container_model(false, across, slider_position, along)["clip"@] == text_value(
            clip_before(false, across, slider_position, along),
        ),
        right_label_container_model(true, along, slider_position, across)["clip"@] == text_value(
            clip_after(true, along, slider_position, across),
        ),
        right_label_container_model(false, across, slider_position, along)["clip"@]
            == text_value(clip_after(false, across, slider_position, along)),
{
    lemma_slider_names_differ();
}

/// The slider's cursor follows the mode: where the divider is dragged it
/// is the resize cursor of the active axis, and where the divider follows
/// the pointer without a press the slider declares no cursor.
pub proof fn lemma_cursor_follows_the_mode(
    horizontal: bool,
    hover: bool,
    container_width: Fixed,
    slider_position: Fixed,
    handle_size: u32,
    container_height: Fixed,
)
    ensures
        ({
            let style = slider_model(
                horizontal,
                hover,
                container_width,
                slider_position,
                handle_size,
                container_height,
            );
            &&& style.contains_key("cursor"@) == !hover
            &&& !hover && horizontal ==> style["cursor"@] == text_value("ew-resize"@)
            &&& !hover && !horizontal ==> style["cursor"@] == text_value("ns-resize"@)
        }),
{
    lemma_slider_names_differ();
    reveal_strlit("align-items");
    reveal_strlit("display");
    reveal_strlit("justify-content");
    reveal_strlit("position");
    assert("align-items"@.len() == 11 && "display"@.len() == 7 && "justify-content"@.len() == 15
        && "position"@.len() == 8);
}

/// The names of the properties by which the slider and the divider follow
/// the orientation differ from one another.
proof fn lemma_slider_names_differ()
    ensures
        "width"@.len() == 5,
        "height"@.len() == 6,
        "left"@.len() == 4,
        "top"@.len() == 3,
        "flex-direction"@.len() == 14,
        "cursor"@.len() == 6,
        "cursor"@[0] == 'c',
        "height"@[0] == 'h',
{
    reveal_strlit("width");
    reveal_strlit("height");
    reveal_strlit("left");
    reveal_strlit("top");
    reveal_strlit("cursor");
    reveal_strlit("flex-direction");
}

} // verus!
