use vstd::prelude::*;
use crate::constants::SCALAR_12;
use crate::fixed_point::{
    div_round, fixed_div_ceil, fixed_div_floor, fixed_mul_ceil, fixed_mul_floor, floor_div,
    lemma_div_between, mul_round,
};
use crate::storage::ReserveData;

verus! {

/// What an amount of tokens is worth in the underlying asset, at a rate in
/// twelve decimals.
pub open spec fn to_underlying(tokens: int, rate: int, round_up: bool) -> int {
    mul_round(tokens, rate, SCALAR_12 as int, round_up)
}

/// The tokens that an amount of the underlying asset is worth, at a rate in
/// twelve decimals.
pub open spec fn from_underlying(amount: int, rate: int, round_up: bool) -> int {
    div_round(amount, rate, SCALAR_12 as int, round_up)
}

/// Whether a number is one that `i128` holds.
pub open spec fn fits_i128(x: int) -> bool {
    i128::MIN <= x <= i128::MAX
}

fn scale_up(e: &soroban_sdk::Env, tokens: i128, rate: i128, round_up: bool) -> (r: i128)
    requires
        fits_i128(to_underlying(tokens as int, rate as int, round_up)),
    ensures
        r == to_underlying(tokens as int, rate as int, round_up),
{
    if round_up {
        fixed_mul_ceil(e, tokens, rate, SCALAR_12)
    } else {
        fixed_mul_floor(e, tokens, rate, SCALAR_12)
    }
}

fn scale_down(e: &soroban_sdk::Env, amount: i128, rate: i128, round_up: bool) -> (r: i128)
    requires
        rate != 0,
        fits_i128(from_underlying(amount as int, rate as int, round_up)),
    ensures
        r == from_underlying(amount as int, rate as int, round_up),
{
    if round_up {
        fixed_div_ceil(e, amount, rate, SCALAR_12)
    } else {
        fixed_div_floor(e, amount, rate, SCALAR_12)
    }
}

impl ReserveData {
    /// The underlying worth of an amount of bTokens, rounded as the caller asks.
    pub fn to_underlying_b(&self, e: &soroban_sdk::Env, b_tokens: i128, round_up: bool) -> (r:
        i128)
        requires
            fits_i128(to_underlying(b_tokens as int, self.b_rate as int, round_up)),
        ensures
            r == to_underlying(b_tokens as int, self.b_rate as int, round_up),
    {
        scale_up(e, b_tokens, self.b_rate, round_up)
    }

    /// The bTokens that an amount of the underlying is worth, rounded as the
    /// caller asks.
    pub fn from_underlying_b(&self, e: &soroban_sdk::Env, amount: i128, round_up: bool) -> (r:
        i128)
        requires
            self.b_rate != 0,
            fits_i128(from_underlying(amount as int, self.b_rate as int, round_up)),
        ensures
            r == from_underlying(amount as int, self.b_rate as int, round_up),
    {
        scale_down(e, amount, self.b_rate, round_up)
    }

    /// The underlying worth of an amount of dTokens, rounded as the caller asks.
    pub fn to_underlying_d(&self, e: &soroban_sdk::Env, d_tokens: i128, round_up: bool) -> (r:
        i128)
        requires
            fits_i128(to_underlying(d_tokens as int, self.d_rate as int, round_up)),
        ensures
            r == to_underlying(d_tokens as int, self.d_rate as int, round_up),
    {
        scale_up(e, d_tokens, self.d_rate, round_up)
    }

    /// The dTokens that an amount of the underlying is worth, rounded as the
    /// caller asks.
    pub fn from_underlying_d(&self, e: &soroban_sdk::Env, amount: i128, round_up: bool) -> (r:
        i128)
        requires
            self.d_rate != 0,
            fits_i128(from_underlying(amount as int, self.d_rate as int, round_up)),
        ensures
            r == from_underlying(amount as int, self.d_rate as int, round_up),
    {
        scale_down(e, amount, self.d_rate, round_up)
    }
}

/// The remainder that turning `amount` of the underlying into tokens leaves
/// behind, in units of a twelve-decimal product.
pub open spec fn conversion_dust(amount: int, rate: int) -> int {
    (amount * SCALAR_12) % rate
}

/// An amount turned into tokens and back, rounding down both ways, never
/// comes back larger. It comes back at most one unit smaller exactly where the
/// first conversion leaves no more than one whole unit of dust; at a rate of
/// one or less that is everywhere.
pub proof fn lemma_underlying_round_trip(amount: int, rate: int)
    requires
        rate > 0,
    ensures
        to_underlying(from_underlying(amount, rate, false), rate, false) <= amount,
        conversion_dust(amount, rate) <= SCALAR_12 ==> amount - 1 <= to_underlying(
            from_underlying(amount, rate, false),
            rate,
            false,
        ),
        conversion_dust(amount, rate) > SCALAR_12 ==> to_underlying(
            from_underlying(amount, rate, false),
            rate,
            false,
        ) < amount - 1,
        rate <= SCALAR_12 ==> conversion_dust(amount, rate) <= SCALAR_12,
{
    let s = SCALAR_12 as int;
    let p = amount * s;
    let tokens = from_underlying(amount, rate, false);
    let m = p % rate;
    assert(tokens == p / rate);
    assert(p == rate * (p / rate) + p % rate && 0 <= p % rate < rate) by (nonlinear_arith)
        requires
            rate > 0,
    ;
    assert(tokens * rate == p - m) by (nonlinear_arith)
        requires
            p == rate * tokens + m,
    ;
    // from above: tokens * rate <= amount * s
    assert(tokens * rate <= amount * s);
    if m <= s {
        assert((amount - 1) * s == amount * s - s) by (nonlinear_arith);
        lemma_div_between(tokens * rate, s, amount - 1, amount);
    } else {
        let back = floor_div(tokens * rate, s);
        assert(back * s <= tokens * rate) by (nonlinear_arith)
            requires
                back == (tokens * rate) / s,
                s > 0,
        ;
        assert(back < amount - 1) by (nonlinear_arith)
            requires
                back * s <= tokens * rate,
                tokens * rate < amount * s - s,
                s > 0,
        ;
    }
}

/// Tokens turned into the underlying and back, rounding down both ways, never
/// come back as more, and come back at most one token short, at any rate of
/// one or more.
pub proof fn lemma_token_round_trip(tokens: int, rate: int)
    requires
        rate >= SCALAR_12,
    ensures
        tokens - 1 <= from_underlying(to_underlying(tokens, rate, false), rate, false) <= tokens,
{
    let s = SCALAR_12 as int;
    let p = tokens * rate;
    let amount = to_underlying(tokens, rate, false);
    let m = p % s;
    assert(amount == p / s);
    assert(p == s * (p / s) + p % s && 0 <= p % s < s) by (nonlinear_arith)
        requires
            s > 0,
    ;
    assert(amount * s == p - m) by (nonlinear_arith)
        requires
            p == s * amount + m,
    ;
    assert((tokens - 1) * rate == tokens * rate - rate) by (nonlinear_arith);
    lemma_div_between(amount * s, rate, tokens - 1, tokens);
}

} // verus!
