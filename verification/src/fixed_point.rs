use vstd::prelude::*;

verus! {

/// The quotient `a / d` rounded toward negative infinity, for any `d` but zero.
pub open spec fn floor_div(a: int, d: int) -> int {
    if d > 0 {
        a / d
    } else {
        (-a) / (-d)
    }
}

/// The quotient `a / d` rounded toward positive infinity, for any `d` but zero.
pub open spec fn ceil_div(a: int, d: int) -> int {
    -floor_div(-a, d)
}

/// `x * y / denominator`, rounded down.
pub open spec fn mul_floor(x: int, y: int, denominator: int) -> int {
    floor_div(x * y, denominator)
}

/// `x * y / denominator`, rounded up.
pub open spec fn mul_ceil(x: int, y: int, denominator: int) -> int {
    ceil_div(x * y, denominator)
}

/// `SorobanFixedPoint::fixed_mul_floor` of `soroban_fixed_point_math` on
/// `i128`: the product is formed at full width (in 256 bits where 128 do not
/// hold it) and divided rounding down. The call aborts on a zero denominator
/// and on a quotient that `i128` cannot hold, so neither is admitted.
#[verifier::external_body]
pub(crate) fn fixed_mul_floor(e: &soroban_sdk::Env, x: i128, y: i128, denominator: i128) -> (r: i128)
    requires
        denominator != 0,
        i128::MIN <= mul_floor(x as int, y as int, denominator as int) <= i128::MAX,
    ensures
        r == mul_floor(x as int, y as int, denominator as int),
{
    soroban_fixed_point_math::SorobanFixedPoint::fixed_mul_floor(&x, e, &y, &denominator)
}

/// `SorobanFixedPoint::fixed_mul_ceil` of `soroban_fixed_point_math` on
/// `i128`: as `fixed_mul_floor`, rounding up.
#[verifier::external_body]
pub(crate) fn fixed_mul_ceil(e: &soroban_sdk::Env, x: i128, y: i128, denominator: i128) -> (r: i128)
    requires
        denominator != 0,
        i128::MIN <= mul_ceil(x as int, y as int, denominator as int) <= i128::MAX,
    ensures
        r == mul_ceil(x as int, y as int, denominator as int),
{
    soroban_fixed_point_math::SorobanFixedPoint::fixed_mul_ceil(&x, e, &y, &denominator)
}

/// `x * denominator / y`, rounded down.
pub open spec fn div_floor(x: int, y: int, denominator: int) -> int {
    floor_div(x * denominator, y)
}

/// `x * denominator / y`, rounded up.
pub open spec fn div_ceil(x: int, y: int, denominator: int) -> int {
    ceil_div(x * denominator, y)
}

/// `x * denominator / y`, rounded up or down as asked.
pub open spec fn div_round(x: int, y: int, denominator: int, round_up: bool) -> int {
    if round_up {
        div_ceil(x, y, denominator)
    } else {
        div_floor(x, y, denominator)
    }
}

/// `SorobanFixedPoint::fixed_div_floor` of `soroban_fixed_point_math` on
/// `i128`: `x` times the denominator, formed at full width, divided by `y`
/// rounding down. The call aborts on a zero `y` and on a quotient that `i128`
/// cannot hold, so neither is admitted.
#[verifier::external_body]
pub(crate) fn fixed_div_floor(e: &soroban_sdk::Env, x: i128, y: i128, denominator: i128) -> (r:
    i128)
    requires
        y != 0,
        i128::MIN <= div_floor(x as int, y as int, denominator as int) <= i128::MAX,
    ensures
        r == div_floor(x as int, y as int, denominator as int),
{
    soroban_fixed_point_math::SorobanFixedPoint::fixed_div_floor(&x, e, &y, &denominator)
}

/// `SorobanFixedPoint::fixed_div_ceil` of `soroban_fixed_point_math` on
/// `i128`: as `fixed_div_floor`, rounding up.
#[verifier::external_body]
pub(crate) fn fixed_div_ceil(e: &soroban_sdk::Env, x: i128, y: i128, denominator: i128) -> (r:
    i128)
    requires
        y != 0,
        i128::MIN <= div_ceil(x as int, y as int, denominator as int) <= i128::MAX,
    ensures
        r == div_ceil(x as int, y as int, denominator as int),
{
    soroban_fixed_point_math::SorobanFixedPoint::fixed_div_ceil(&x, e, &y, &denominator)
}

/// `x * y / denominator`, rounded up or down as asked.
pub open spec fn mul_round(x: int, y: int, denominator: int, round_up: bool) -> int {
    if round_up {
        mul_ceil(x, y, denominator)
    } else {
        mul_floor(x, y, denominator)
    }
}

/// A quotient of a number that lies between two multiples of the divisor lies
/// between the two factors, whichever way it is rounded.
pub proof fn lemma_div_between(a: int, d: int, lo: int, hi: int)
    requires
        d > 0,
        lo * d <= a <= hi * d,
    ensures
        lo <= floor_div(a, d) <= hi,
        lo <= ceil_div(a, d) <= hi,
{
    assert(lo <= a / d <= hi) by (nonlinear_arith)
        requires
            d > 0,
            lo * d <= a <= hi * d,
    ;
    assert((-hi) * d <= -a <= (-lo) * d) by (nonlinear_arith)
        requires
            lo * d <= a <= hi * d,
    ;
    assert(-hi <= (-a) / d <= -lo) by (nonlinear_arith)
        requires
            d > 0,
            (-hi) * d <= -a <= (-lo) * d,
    ;
}

/// Scaling by a ratio between zero and one never leaves the span between zero
/// and the number scaled, whichever way it is rounded.
pub proof fn lemma_mul_round_within(x: int, y: int, d: int, round_up: bool)
    requires
        d > 0,
        0 <= y <= d,
    ensures
        x >= 0 ==> 0 <= mul_round(x, y, d, round_up) <= x,
        x <= 0 ==> x <= mul_round(x, y, d, round_up) <= 0,
{
    if x >= 0 {
        assert(0 * d <= x * y <= x * d) by (nonlinear_arith)
            requires
                x >= 0,
                0 <= y <= d,
        ;
        lemma_div_between(x * y, d, 0, x);
    } else {
        assert(x * d <= x * y <= 0 * d) by (nonlinear_arith)
            requires
                x <= 0,
                0 <= y <= d,
        ;
        lemma_div_between(x * y, d, x, 0);
    }
}

/// Scaling by a ratio of exactly one changes nothing.
pub proof fn lemma_mul_round_whole(x: int, d: int, round_up: bool)
    requires
        d > 0,
    ensures
        mul_round(x, d, d, round_up) == x,
{
    assert(x * d <= x * d <= x * d);
    lemma_div_between(x * d, d, x, x);
}

/// Scaling by a ratio of zero gives zero.
pub proof fn lemma_mul_round_none(x: int, d: int, round_up: bool)
    requires
        d > 0,
    ensures
        mul_round(x, 0, d, round_up) == 0,
{
    assert(x * 0 == 0);
    assert(0 * d <= x * 0 <= 0 * d);
    lemma_div_between(x * 0, d, 0, 0);
}

} // verus!
