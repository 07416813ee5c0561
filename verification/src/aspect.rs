//! The height of the container, from the natural proportions of the two
//! images and the width that the container was given.

use vstd::prelude::*;
use vstd::string::*;

use crate::fixed::{magnitude_of, round_div, round_ratio, saturate, saturated, Fixed};

verus! {

/// Which of the two images decides the container's proportions.
#[derive(Clone, Copy, Debug, PartialEq, Eq, Structural)]
pub enum AspectRatio {
    /// The image that is taller for its width.
    Taller,
    /// The image that is wider for its height.
    Wider,
}

impl Default for AspectRatio {
    fn default() -> (policy: AspectRatio)
        ensures
            policy == AspectRatio::Taller,
    {
        AspectRatio::Taller
    }
}

impl AspectRatio {
    /// The policy's name: `taller` or `wider`.
    pub fn name(&self) -> (name: String)
        ensures
            name@ == (match *self {
                AspectRatio::Taller => "taller"@,
                AspectRatio::Wider => "wider"@,
            }),
    {
        match self {
            AspectRatio::Taller => String::from_str("taller"),
            AspectRatio::Wider => String::from_str("wider"),
        }
    }
}

/// The proportions of an image: its natural height over its natural width.
#[derive(Clone, Copy, Debug, PartialEq, Eq, Structural)]
pub struct Ratio {
    pub height: u32,
    pub width: u32,
}

impl Ratio {
    /// Both natural dimensions are at least one pixel, so the ratio is
    /// defined and positive.
    pub open spec fn wf(self) -> bool {
        self.height >= 1 && self.width >= 1
    }

    /// The proportions of an image with the given natural dimensions, if it
    /// has any: an image that lacks a dimension has no ratio.
    pub fn new(natural_height: u32, natural_width: u32) -> (ratio: Option<Ratio>)
        ensures
            ratio is Some <==> natural_height >= 1 && natural_width >= 1,
            ratio matches Some(r) ==> r.wf() && r.height == natural_height && r.width
                == natural_width,
    {
        if natural_height >= 1 && natural_width >= 1 {
            Some(Ratio { height: natural_height, width: natural_width })
        } else {
            None
        }
    }

    /// Whether both natural dimensions are at least one pixel.
    pub fn is_wf(&self) -> (valid: bool)
        ensures
            valid == self.wf(),
    {
        self.height >= 1 && self.width >= 1
    }

    /// Whether this ratio is at least `other`.
    pub open spec fn at_least(self, other: Ratio) -> bool {
        self.height * other.width >= other.height * self.width
    }
}

/// The ratio that the policy picks: the larger one for `Taller`, the
/// smaller one for `Wider`. Of two equal ratios it picks the left one.
pub open spec fn chosen_ratio(left: Ratio, right: Ratio, policy: AspectRatio) -> Ratio {
    match policy {
        AspectRatio::Taller => if left.at_least(right) {
            left
        } else {
            right
        },
        AspectRatio::Wider => if right.at_least(left) {
            left
        } else {
            right
        },
    }
}

/// The container's height: its width times the chosen ratio, rounded to the
/// nearest millionth and held to the representable range.
pub open spec fn resolved_height(
    left: Ratio,
    right: Ratio,
    policy: AspectRatio,
    container_width: Fixed,
) -> int {
    let ratio = chosen_ratio(left, right, policy);
    saturated(round_ratio(container_width.raw * ratio.height, ratio.width as int))
}

/// Whether `a` is at least `b`.
fn ratio_at_least(a: Ratio, b: Ratio) -> (r: bool)
    ensures
        r == a.at_least(b),
{
    assert(a.height * b.width <= 0xffff_ffff * 0xffff_ffff) by (nonlinear_arith)
        requires
            0 <= a.height <= 0xffff_ffff,
            0 <= b.width <= 0xffff_ffff,
    ;
    assert(b.height * a.width <= 0xffff_ffff * 0xffff_ffff) by (nonlinear_arith)
        requires
            0 <= b.height <= 0xffff_ffff,
            0 <= a.width <= 0xffff_ffff,
    ;
    let x: u64 = (a.height as u64) * (b.width as u64);
    let y: u64 = (b.height as u64) * (a.width as u64);
    x >= y
}

/// The height that the container takes for its width: the width times the
/// ratio that the policy picks among the two images' proportions.
pub fn resolve_height(
    left: Ratio,
    right: Ratio,
    policy: AspectRatio,
    container_width: Fixed,
) -> (height: Fixed)
    requires
        left.wf(),
        right.wf(),
    ensures
        height.raw == resolved_height(left, right, policy, container_width),
{
    let ratio = match policy {
        AspectRatio::Taller => if ratio_at_least(left, right) {
            left
        } else {
            right
        },
        AspectRatio::Wider => if ratio_at_least(right, left) {
            left
        } else {
            right
        },
    };
    let w: i128 = container_width.raw as i128;
    let h: i128 = ratio.height as i128;
    assert(-0x8000_0000_0000_0000 * 0xffff_ffff <= w * h <= 0x8000_0000_0000_0000 * 0xffff_ffff)
        by (nonlinear_arith)
        requires
            -0x8000_0000_0000_0000 <= w <= 0x7fff_ffff_ffff_ffff,
            0 <= h <= 0xffff_ffff,
    ;
    let n: i128 = w * h;
    let q: u128 = round_div(magnitude_of(n), ratio.width as u128);
    Fixed { raw: saturate(n < 0, q) }
}

} // verus!
