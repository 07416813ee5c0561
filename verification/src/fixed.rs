//! Decimal fixed-point numbers and round-half-even division.
//!
//! Lengths, coordinates and the slider position are all held as a count of
//! millionths, so that every derived quantity is an exact rational and the
//! only rounding is the one each contract names.

use vstd::prelude::*;

verus! {

/// Raw units per whole unit: a `Fixed` has six decimal places.
pub const SCALE: i64 = 1_000_000;

/// A signed number with six decimal places, held as a count of millionths.
#[derive(Clone, Copy, Debug, PartialEq, Eq, Structural)]
pub struct Fixed {
    pub raw: i64,
}

/// The integer nearest to `n / d`; a tie goes to the even neighbour.
pub open spec fn round_half_even(n: nat, d: nat) -> nat
    recommends
        d > 0,
{
    let q = n / d;
    let r = n % d;
    if 2 * r < d {
        q
    } else if 2 * r > d {
        q + 1
    } else if q % 2 == 0 {
        q
    } else {
        q + 1
    }
}

/// The magnitude of an integer.
pub open spec fn magnitude(x: int) -> nat {
    if x < 0 {
        (-x) as nat
    } else {
        x as nat
    }
}

/// `n / d` rounded to the nearest integer, ties to even, for a signed
/// numerator: the rounding is symmetric about zero.
pub open spec fn round_ratio(n: int, d: int) -> int
    recommends
        d > 0,
{
    if n < 0 {
        -(round_half_even(magnitude(n), d as nat) as int)
    } else {
        round_half_even(n as nat, d as nat) as int
    }
}

/// `x` held to the range of `i64`.
pub open spec fn saturated(x: int) -> int {
    if x < i64::MIN {
        i64::MIN as int
    } else if x > i64::MAX {
        i64::MAX as int
    } else {
        x
    }
}

/// A rounded quotient is the quotient or one more, and never more than the
/// numerator.
pub proof fn lemma_round_half_even_bounds(n: nat, d: nat)
    requires
        d > 0,
    ensures
        round_half_even(n, d) <= n,
        n / d <= round_half_even(n, d) <= n / d + 1,
{
    let q = n / d;
    let r = n % d;
    assert(n == d * q + r && 0 <= r < d) by {
        vstd::arithmetic::div_mod::lemma_fundamental_div_mod(n as int, d as int);
    }
    if 2 * r >= d {
        if q >= 1 {
            assert(d * q >= q) by (nonlinear_arith)
                requires
                    d >= 1,
                    q >= 1,
            ;
            if d == 1 {
                assert(r == 0);
            } else {
                assert(d * q >= 2 * q) by (nonlinear_arith)
                    requires
                        d >= 2,
                        q >= 1,
                ;
            }
        } else {
            assert(d * q == 0) by (nonlinear_arith)
                requires
                    q == 0,
            ;
            assert(r >= 1);
        }
    } else {
        assert(d * q >= q) by (nonlinear_arith)
            requires
                d >= 1,
                q >= 0,
        ;
    }
}

/// Rounding is monotone in the numerator.
pub proof fn lemma_round_half_even_monotone(a: nat, b: nat, d: nat)
    requires
        d > 0,
        a <= b,
    ensures
        round_half_even(a, d) <= round_half_even(b, d),
{
    let qa = a / d;
    let ra = a % d;
    let qb = b / d;
    let rb = b % d;
    vstd::arithmetic::div_mod::lemma_fundamental_div_mod(a as int, d as int);
    vstd::arithmetic::div_mod::lemma_fundamental_div_mod(b as int, d as int);
    vstd::arithmetic::div_mod::lemma_div_is_ordered(a as int, b as int, d as int);
    if qa == qb {
        assert(d * qa == d * qb);
        assert(ra <= rb);
    } else {
        assert(qa + 1 <= qb);
    }
}

/// `n / d` rounded to the nearest integer, ties to even.
pub fn round_div(n: u128, d: u128) -> (q: u128)
    requires
        d > 0,
    ensures
        q == round_half_even(n as nat, d as nat),
{
    let q: u128 = n / d;
    let r: u128 = n % d;
    let rest: u128 = d - r;
    proof {
        lemma_round_half_even_bounds(n as nat, d as nat);
    }
    if r < rest {
        q
    } else if r > rest {
        q + 1
    } else if q % 2 == 0 {
        q
    } else {
        q + 1
    }
}

impl Fixed {
    /// The number with the given count of millionths.
    pub fn from_raw(raw: i64) -> (x: Fixed)
        ensures
            x.raw == raw,
    {
        Fixed { raw }
    }

    /// The whole number `units`.
    pub fn from_int(units: i32) -> (x: Fixed)
        ensures
            x.raw == units * SCALE,
    {
        let wide: i64 = units as i64;
        Fixed { raw: wide * SCALE }
    }

    /// The count of millionths.
    pub fn raw(&self) -> (raw: i64)
        ensures
            raw == self.raw,
    {
        self.raw
    }
}

/// The magnitude of `x` as an unsigned value.
pub fn magnitude_of(x: i128) -> (m: u128)
    ensures
        m == magnitude(x as int),
{
    if x < 0 {
        if x == i128::MIN {
            170141183460469231731687303715884105728u128
        } else {
            (-x) as u128
        }
    } else {
        x as u128
    }
}

/// `x` held to the range of `i64`.
pub fn saturate(negative: bool, m: u128) -> (r: i64)
    ensures
        r == saturated(if negative { -(m as int) } else { m as int }),
{
    if negative {
        if m >= 9223372036854775808u128 {
            i64::MIN
        } else {
            -(m as i64)
        }
    } else if m > 9223372036854775807u128 {
        i64::MAX
    } else {
        m as i64
    }
}

} // verus!
