//! The bonding-curve price engine.
//!
//! A curve maps the share of the supply that has been sold to a spot price
//! between a base price and a maximum price. All quantities are fixed-point
//! integers; every division rounds down.

use crate::uint::{min_nat, pow2_256, pow2_512, U256, U512};
use vstd::arithmetic::div_mod::{
    lemma_div_is_ordered, lemma_div_multiples_vanish, lemma_div_multiples_vanish_quotient,
    lemma_div_nonincreasing,
};
use vstd::arithmetic::mul::{lemma_mul_inequality, lemma_mul_nonnegative, lemma_mul_upper_bound};
use vstd::prelude::*;

verus! {

/// The shape of a bonding curve.
#[derive(Clone, Copy, PartialEq, Eq, Structural, Debug)]
pub enum CurveType {
    Linear,
    Sigmoid,
    Steep,
}

impl CurveType {
    /// The shape that an identifier names: 0, 1 and 2 name the three shapes.
    pub open spec fn spec_from_u8(value: u8) -> Option<CurveType> {
        match value {
            0u8 => Some(CurveType::Linear),
            1u8 => Some(CurveType::Sigmoid),
            2u8 => Some(CurveType::Steep),
            _ => None,
        }
    }

    /// Decodes a stored shape identifier: 0, 1 and 2 name the three shapes.
    #[verifier::when_used_as_spec(spec_from_u8)]
    pub fn from_u8(value: u8) -> (shape: Option<CurveType>)
        ensures
            shape == CurveType::spec_from_u8(value),
    {
        match value {
            0 => Some(CurveType::Linear),
            1 => Some(CurveType::Sigmoid),
            2 => Some(CurveType::Steep),
            _ => None,
        }
    }

    /// The identifier under which the shape is stored.
    pub fn to_u8(self) -> (value: u8)
        ensures
            CurveType::spec_from_u8(value) == Some(self),
    {
        match self {
            CurveType::Linear => 0,
            CurveType::Sigmoid => 1,
            CurveType::Steep => 2,
        }
    }
}

/// The fixed-point unit: fractions, prices and token amounts carry 18 decimals.
pub const PRECISION: u128 = 1_000_000_000_000_000_000u128;

/// The fixed-point unit as a number.
pub open spec fn scale() -> nat {
    1_000_000_000_000_000_000nat
}

/// The share of the supply that is sold, as a fraction of `scale()`.
pub open spec fn progress(sold: nat, supply: nat) -> nat
    recommends
        supply > 0,
{
    sold * scale() / supply
}

/// The second factor of the smoothstep polynomial, `3 - 2x`, floored at zero.
pub open spec fn smoothstep_factor(p: nat) -> nat {
    if 3 * scale() > 2 * p {
        (3 * scale() - 2 * p) as nat
    } else {
        0
    }
}

/// The smoothstep polynomial `x^2 (3 - 2x)` on fractions of `scale()`: the
/// cubic is computed in full and rounded down once.
pub open spec fn smoothstep(p: nat) -> nat {
    p * p * smoothstep_factor(p) / (scale() * scale())
}

/// The share of the price range that is added to the base price at progress `p`.
pub open spec fn curve_fraction(shape: CurveType, p: nat) -> nat {
    match shape {
        CurveType::Linear => p,
        CurveType::Sigmoid => smoothstep(p),
        CurveType::Steep => p * p / scale(),
    }
}

/// The width of the price range; zero where the maximum is below the base.
pub open spec fn price_range(base: nat, max: nat) -> nat {
    if base <= max {
        (max - base) as nat
    } else {
        0
    }
}

/// The price that lies the given fraction of the way from base to maximum.
pub open spec fn interpolate(fraction: nat, base: nat, max: nat) -> nat {
    base + fraction * price_range(base, max) / scale()
}

/// Whether `interpolate` can be computed: the maximum price is not below the
/// base price and every step fits in 512 bits.
pub open spec fn interpolate_fits(fraction: nat, base: nat, max: nat) -> bool {
    &&& base <= max
    &&& fraction * price_range(base, max) < pow2_512()
    &&& interpolate(fraction, base, max) < pow2_512()
}

/// The spot price after `sold` of `supply` tokens are sold.
pub open spec fn price(shape: CurveType, sold: nat, supply: nat, base: nat, max: nat) -> nat {
    if supply == 0 {
        base
    } else {
        interpolate(curve_fraction(shape, progress(sold, supply)), base, max)
    }
}

/// Whether every step of `curve_fraction` fits in 512 bits.
pub open spec fn curve_fraction_fits(shape: CurveType, p: nat) -> bool {
    match shape {
        CurveType::Linear => true,
        CurveType::Sigmoid => p * p < pow2_512() && p * p * smoothstep_factor(p) < pow2_512(),
        CurveType::Steep => p * p < pow2_512(),
    }
}

/// Whether the spot price can be computed.
pub open spec fn price_fits(shape: CurveType, sold: nat, supply: nat, base: nat, max: nat) -> bool {
    supply == 0 || {
        let p = progress(sold, supply);
        curve_fraction_fits(shape, p) && interpolate_fits(curve_fraction(shape, p), base, max)
    }
}

/// Progress of a 256-bit amount stays far below 2^512.
pub proof fn lemma_progress_bound(sold: nat, supply: nat)
    requires
        sold < pow2_256(),
        supply > 0,
    ensures
        sold * scale() < pow2_256() * scale(),
        progress(sold, supply) <= sold * scale(),
        2 * progress(sold, supply) < pow2_512(),
{
    lemma_mul_upper_bound(sold as int, pow2_256() - 1, scale() as int, scale() as int);
    lemma_mul_nonnegative(sold as int, scale() as int);
    lemma_div_nonincreasing((sold * scale()) as int, supply as int);
    assert((pow2_256() - 1) * scale() < pow2_256() * scale()) by (nonlinear_arith);
    assert(2 * (pow2_256() * scale()) < pow2_512()) by (nonlinear_arith);
}

/// The fixed-point unit.
fn unit() -> (r: U512)
    ensures
        r@ == scale(),
{
    U512::from_u128(PRECISION)
}

/// The square of the fixed-point unit.
fn unit_squared() -> (r: U512)
    ensures
        r@ == scale() * scale(),
{
    assert(scale() * scale() == 1_000_000_000_000_000_000_000_000_000_000_000_000nat)
        by (nonlinear_arith);
    U512::from_u128(1_000_000_000_000_000_000_000_000_000_000_000_000u128)
}

/// The price of a linear curve at a given progress, where it can be computed.
fn calculate_linear_price(progress: U512, base_price: U512, max_price: U512) -> (r: Option<U512>)
    ensures
        r is Some <==> interpolate_fits(progress@, base_price@, max_price@),
        r is Some ==> r->Some_0@ == interpolate(progress@, base_price@, max_price@),
{
    let price_range = match max_price.checked_sub(base_price) {
        Some(v) => v,
        None => { return None; },
    };
    let scaled = match progress.checked_mul(price_range) {
        Some(v) => v,
        None => { return None; },
    };
    let added = match scaled.checked_div(unit()) {
        Some(v) => v,
        None => { return None; },
    };
    base_price.checked_add(added)
}

/// The smoothstep of a progress, where it can be computed.
fn smoothstep_progress(progress: U512) -> (r: Option<U512>)
    requires
        2 * progress@ < pow2_512(),
    ensures
        r is Some <==> curve_fraction_fits(CurveType::Sigmoid, progress@),
        r is Some ==> r->Some_0@ == smoothstep(progress@),
{
    let square = match progress.checked_mul(progress) {
        Some(v) => v,
        None => { return None; },
    };
    let three_scaled = match U512::from_u64(3).checked_mul(unit()) {
        Some(v) => v,
        None => { return None; },
    };
    let two_progress = match U512::from_u64(2).checked_mul(progress) {
        Some(v) => v,
        None => { return None; },
    };
    let factor = match three_scaled.checked_sub(two_progress) {
        Some(v) => v,
        None => U512::zero(),
    };
    let cubic = match square.checked_mul(factor) {
        Some(v) => v,
        None => { return None; },
    };
    cubic.checked_div(unit_squared())
}

/// The price of a sigmoid curve at a given progress, where it can be computed.
fn calculate_sigmoid_price(progress: U512, base_price: U512, max_price: U512) -> (r: Option<U512>)
    requires
        2 * progress@ < pow2_512(),
    ensures
        r is Some <==> curve_fraction_fits(CurveType::Sigmoid, progress@) && interpolate_fits(
            smoothstep(progress@),
            base_price@,
            max_price@,
        ),
        r is Some ==> r->Some_0@ == interpolate(smoothstep(progress@), base_price@, max_price@),
{
    match smoothstep_progress(progress) {
        Some(sigmoid_progress) => calculate_linear_price(sigmoid_progress, base_price, max_price),
        None => None,
    }
}

/// The price of a steep curve at a given progress, where it can be computed.
fn calculate_steep_price(progress: U512, base_price: U512, max_price: U512) -> (r: Option<U512>)
    ensures
        r is Some <==> curve_fraction_fits(CurveType::Steep, progress@) && interpolate_fits(
            progress@ * progress@ / scale(),
            base_price@,
            max_price@,
        ),
        r is Some ==> r->Some_0@ == interpolate(
            progress@ * progress@ / scale(),
            base_price@,
            max_price@,
        ),
{
    let square = match progress.checked_mul(progress) {
        Some(v) => v,
        None => { return None; },
    };
    match square.checked_div(unit()) {
        Some(steep_progress) => calculate_linear_price(steep_progress, base_price, max_price),
        None => None,
    }
}

/// The spot price, or `None` where `price_fits` fails. Where there is a
/// price, nothing sold is priced at the base price and everything sold at
/// the maximum price; a linear curve is priced at the mean of the two
/// halfway through an even supply.
pub fn checked_price(
    curve_type: CurveType,
    tokens_sold: U256,
    total_supply: U256,
    base_price: U512,
    max_price: U512,
) -> (r: Option<U512>)
    ensures
        r is Some <==> price_fits(
            curve_type,
            tokens_sold@,
            total_supply@,
            base_price@,
            max_price@,
        ),
        r is Some ==> r->Some_0@ == price(
            curve_type,
            tokens_sold@,
            total_supply@,
            base_price@,
            max_price@,
        ),
        r is Some && total_supply@ > 0 && tokens_sold@ == 0 ==> r->Some_0@ == base_price@,
        r is Some && total_supply@ > 0 && tokens_sold@ == total_supply@ ==> r->Some_0@
            == max_price@,
        r is Some && curve_type == CurveType::Linear && total_supply@ > 0 && total_supply@ % 2 == 0
            && tokens_sold@ == total_supply@ / 2 ==> r->Some_0@ == (base_price@ + max_price@) / 2,
{
    if total_supply.is_zero() {
        return Some(base_price);
    }
    proof {
        lemma_progress_bound(tokens_sold@, total_supply@);
        if base_price@ <= max_price@ {
            lemma_price_at_ends(curve_type, total_supply@, base_price@, max_price@);
            if total_supply@ % 2 == 0 {
                lemma_linear_price_at_half(total_supply@, base_price@, max_price@);
            }
        }
    }
    let scaled = match tokens_sold.to_u512().checked_mul(unit()) {
        Some(v) => v,
        None => { return None; },
    };
    let progress = match scaled.checked_div(total_supply.to_u512()) {
        Some(v) => v,
        None => { return None; },
    };
    match curve_type {
        CurveType::Linear => calculate_linear_price(progress, base_price, max_price),
        CurveType::Sigmoid => calculate_sigmoid_price(progress, base_price, max_price),
        CurveType::Steep => calculate_steep_price(progress, base_price, max_price),
    }
}

/// The spot price after `tokens_sold` of `total_supply` tokens are sold:
/// the base price while nothing is sold, the maximum price when everything
/// is, and on a linear curve the mean of the two halfway through an even
/// supply.
pub fn calculate_price(
    curve_type: CurveType,
    tokens_sold: U256,
    total_supply: U256,
    base_price: U512,
    max_price: U512,
) -> (r: U512)
    requires
        price_fits(curve_type, tokens_sold@, total_supply@, base_price@, max_price@),
    ensures
        r@ == price(curve_type, tokens_sold@, total_supply@, base_price@, max_price@),
        total_supply@ > 0 && tokens_sold@ == 0 ==> r@ == base_price@,
        total_supply@ > 0 && tokens_sold@ == total_supply@ ==> r@ == max_price@,
        curve_type == CurveType::Linear && total_supply@ > 0 && total_supply@ % 2 == 0
            && tokens_sold@ == total_supply@ / 2 ==> r@ == (base_price@ + max_price@) / 2,
{
    checked_price(curve_type, tokens_sold, total_supply, base_price, max_price).unwrap()
}

/// The tokens bought for `cspr` at the current spot price, capped at what is
/// left of the supply.
pub open spec fn tokens_for_cspr(
    shape: CurveType,
    cspr: nat,
    sold: nat,
    supply: nat,
    base: nat,
    max: nat,
) -> nat {
    if cspr == 0 || supply == 0 || price(shape, sold, supply, base, max) == 0 {
        0
    } else {
        min_nat(cspr * scale() / price(shape, sold, supply, base, max), (supply - sold) as nat)
    }
}

/// Whether `tokens_for_cspr` can be computed: the spot price can, the payment
/// scaled by the unit fits in 512 bits, and no more is sold than exists.
pub open spec fn tokens_for_cspr_fits(
    shape: CurveType,
    cspr: nat,
    sold: nat,
    supply: nat,
    base: nat,
    max: nat,
) -> bool {
    cspr == 0 || supply == 0 || (price_fits(shape, sold, supply, base, max) && (price(
        shape,
        sold,
        supply,
        base,
        max,
    ) == 0 || (cspr * scale() < pow2_512() && sold <= supply)))
}

/// The tokens bought for `cspr_amount`, or `None` where `tokens_for_cspr_fits` fails.
pub fn checked_tokens_for_cspr(
    curve_type: CurveType,
    cspr_amount: U512,
    current_sold: U256,
    total_supply: U256,
    base_price: U512,
    max_price: U512,
) -> (r: Option<U256>)
    ensures
        r is Some <==> tokens_for_cspr_fits(
            curve_type,
            cspr_amount@,
            current_sold@,
            total_supply@,
            base_price@,
            max_price@,
        ),
        r is Some ==> r->Some_0@ == tokens_for_cspr(
            curve_type,
            cspr_amount@,
            current_sold@,
            total_supply@,
            base_price@,
            max_price@,
        ),
{
    if cspr_amount.is_zero() || total_supply.is_zero() {
        return Some(U256::zero());
    }
    let current_price = match checked_price(
        curve_type,
        current_sold,
        total_supply,
        base_price,
        max_price,
    ) {
        Some(v) => v,
        None => { return None; },
    };
    if current_price.is_zero() {
        return Some(U256::zero());
    }
    let scaled = match cspr_amount.checked_mul(unit()) {
        Some(v) => v,
        None => { return None; },
    };
    let tokens_raw = match scaled.checked_div(current_price) {
        Some(v) => v,
        None => { return None; },
    };
    let remaining = match total_supply.checked_sub(current_sold) {
        Some(v) => v,
        None => { return None; },
    };
    if tokens_raw.lt(&remaining.to_u512()) {
        proof {
            crate::uint::lemma_u256_bound(remaining);
        }
        tokens_raw.to_u256()
    } else {
        Some(remaining)
    }
}

/// The tokens bought for `cspr_amount` at the current spot price.
pub fn calculate_tokens_for_cspr(
    curve_type: CurveType,
    cspr_amount: U512,
    current_sold: U256,
    total_supply: U256,
    base_price: U512,
    max_price: U512,
) -> (r: U256)
    requires
        tokens_for_cspr_fits(
            curve_type,
            cspr_amount@,
            current_sold@,
            total_supply@,
            base_price@,
            max_price@,
        ),
    ensures
        r@ == tokens_for_cspr(
            curve_type,
            cspr_amount@,
            current_sold@,
            total_supply@,
            base_price@,
            max_price@,
        ),
{
    checked_tokens_for_cspr(
        curve_type,
        cspr_amount,
        current_sold,
        total_supply,
        base_price,
        max_price,
    ).unwrap()
}

/// The point halfway between the sold amount before and after a sale of
/// `tokens`, at which the sale is priced.
pub open spec fn sale_midpoint(tokens: nat, sold: nat) -> nat {
    if sold > tokens {
        ((sold + (sold - tokens)) / 2) as nat
    } else {
        sold / 2
    }
}

/// The payment for selling `tokens` back, priced at the midpoint of the sale.
pub open spec fn cspr_for_tokens(
    shape: CurveType,
    tokens: nat,
    sold: nat,
    supply: nat,
    base: nat,
    max: nat,
) -> nat {
    if tokens == 0 || sold == 0 {
        0
    } else {
        tokens * price(shape, sale_midpoint(tokens, sold), supply, base, max) / scale()
    }
}

/// Whether `cspr_for_tokens` can be computed: the midpoint price can, and its
/// product with the amount fits in 512 bits.
pub open spec fn cspr_for_tokens_fits(
    shape: CurveType,
    tokens: nat,
    sold: nat,
    supply: nat,
    base: nat,
    max: nat,
) -> bool {
    tokens == 0 || sold == 0 || (price_fits(
        shape,
        sale_midpoint(tokens, sold),
        supply,
        base,
        max,
    ) && tokens * price(shape, sale_midpoint(tokens, sold), supply, base, max) < pow2_512())
}

/// Half the sum of two 256-bit amounts.
fn midpoint(a: U256, b: U256) -> (r: U256)
    ensures
        r@ == (a@ + b@) / 2,
{
    proof {
        crate::uint::lemma_u256_bound(a);
        crate::uint::lemma_u256_bound(b);
    }
    let sum = a.to_u512().checked_add(b.to_u512()).unwrap();
    let half = sum.checked_div(U512::from_u64(2)).unwrap();
    half.to_u256().unwrap()
}

/// The payment for selling `token_amount` back, or `None` where
/// `cspr_for_tokens_fits` fails.
pub fn checked_cspr_for_tokens(
    curve_type: CurveType,
    token_amount: U256,
    current_sold: U256,
    total_supply: U256,
    base_price: U512,
    max_price: U512,
) -> (r: Option<U512>)
    ensures
        r is Some <==> cspr_for_tokens_fits(
            curve_type,
            token_amount@,
            current_sold@,
            total_supply@,
            base_price@,
            max_price@,
        ),
        r is Some ==> r->Some_0@ == cspr_for_tokens(
            curve_type,
            token_amount@,
            current_sold@,
            total_supply@,
            base_price@,
            max_price@,
        ),
{
    if token_amount.is_zero() || current_sold.is_zero() {
        return Some(U512::zero());
    }
    let sell_from = match current_sold.checked_sub(token_amount) {
        Some(v) => v,
        None => U256::zero(),
    };
    let avg_sold = midpoint(current_sold, sell_from);
    let avg_price = match checked_price(curve_type, avg_sold, total_supply, base_price, max_price) {
        Some(v) => v,
        None => { return None; },
    };
    let product = match token_amount.to_u512().checked_mul(avg_price) {
        Some(v) => v,
        None => { return None; },
    };
    product.checked_div(unit())
}

/// The payment for selling `token_amount` back to the curve.
pub fn calculate_cspr_for_tokens(
    curve_type: CurveType,
    token_amount: U256,
    current_sold: U256,
    total_supply: U256,
    base_price: U512,
    max_price: U512,
) -> (r: U512)
    requires
        cspr_for_tokens_fits(
            curve_type,
            token_amount@,
            current_sold@,
            total_supply@,
            base_price@,
            max_price@,
        ),
    ensures
        r@ == cspr_for_tokens(
            curve_type,
            token_amount@,
            current_sold@,
            total_supply@,
            base_price@,
            max_price@,
        ),
{
    checked_cspr_for_tokens(
        curve_type,
        token_amount,
        current_sold,
        total_supply,
        base_price,
        max_price,
    ).unwrap()
}

/// The area under a linear price line between `from` and `to`, before the
/// fixed-point unit is divided out.
pub open spec fn linear_area(from: nat, to: nat, supply: nat, base: nat, max: nat) -> nat
    recommends
        from < to,
        supply > 0,
{
    base * ((to - from) as nat) + price_range(base, max) * ((to * to - from * from) as nat) / (2
        * supply)
}

/// The cost of the tokens between `from` and `to`: for a linear curve the
/// exact area under the price line, for the other shapes the midpoint rule.
pub open spec fn curve_integral(
    shape: CurveType,
    from: nat,
    to: nat,
    supply: nat,
    base: nat,
    max: nat,
) -> nat {
    if from >= to || supply == 0 {
        0
    } else if shape == CurveType::Linear {
        linear_area(from, to, supply, base, max) / scale()
    } else {
        price(shape, (from + to) / 2, supply, base, max) * ((to - from) as nat) / scale()
    }
}

/// Whether `curve_integral` can be computed: every step fits in 512 bits.
pub open spec fn curve_integral_fits(
    shape: CurveType,
    from: nat,
    to: nat,
    supply: nat,
    base: nat,
    max: nat,
) -> bool {
    from >= to || supply == 0 || if shape == CurveType::Linear {
        &&& base <= max
        &&& base * ((to - from) as nat) < pow2_512()
        &&& price_range(base, max) * ((to - from) as nat) < pow2_512()
        &&& price_range(base, max) * ((to * to - from * from) as nat) < pow2_512()
        &&& linear_area(from, to, supply, base, max) < pow2_512()
    } else {
        &&& price_fits(shape, (from + to) / 2, supply, base, max)
        &&& price(shape, (from + to) / 2, supply, base, max) * ((to - from) as nat) < pow2_512()
    }
}

/// A difference times a sum is the difference of the squares.
pub proof fn lemma_difference_of_squares(range: nat, from: nat, to: nat)
    requires
        from < to,
    ensures
        to * to - from * from > 0,
        range * ((to - from) as nat) * (from + to) == range * ((to * to - from * from) as nat),
{
    assert(to * to - from * from == (to - from) * (from + to)) by (nonlinear_arith);
    assert((to - from) * (from + to) > 0) by (nonlinear_arith)
        requires
            from < to,
            0 <= from,
    ;
    assert(range * (to - from) * (from + to) == range * ((to - from) * (from + to)))
        by (nonlinear_arith);
}

/// The cost of the tokens between `from_tokens` and `to_tokens`, or `None`
/// where `curve_integral_fits` fails.
pub fn checked_curve_integral(
    curve_type: CurveType,
    from_tokens: U256,
    to_tokens: U256,
    total_supply: U256,
    base_price: U512,
    max_price: U512,
) -> (r: Option<U512>)
    ensures
        r is Some <==> curve_integral_fits(
            curve_type,
            from_tokens@,
            to_tokens@,
            total_supply@,
            base_price@,
            max_price@,
        ),
        r is Some ==> r->Some_0@ == curve_integral(
            curve_type,
            from_tokens@,
            to_tokens@,
            total_supply@,
            base_price@,
            max_price@,
        ),
{
    if !from_tokens.lt(&to_tokens) || total_supply.is_zero() {
        return Some(U512::zero());
    }
    proof {
        crate::uint::lemma_u256_bound(from_tokens);
        crate::uint::lemma_u256_bound(to_tokens);
        crate::uint::lemma_u256_bound(total_supply);
        lemma_difference_of_squares(
            price_range(base_price@, max_price@),
            from_tokens@,
            to_tokens@,
        );
    }
    let from_u512 = from_tokens.to_u512();
    let to_u512 = to_tokens.to_u512();
    let token_diff = match to_u512.checked_sub(from_u512) {
        Some(v) => v,
        None => { return None; },
    };
    match curve_type {
        CurveType::Linear => {
            let price_range = match max_price.checked_sub(base_price) {
                Some(v) => v,
                None => { return None; },
            };
            let base_cost = match base_price.checked_mul(token_diff) {
                Some(v) => v,
                None => { return None; },
            };
            let sum_tokens = match from_u512.checked_add(to_u512) {
                Some(v) => v,
                None => { return None; },
            };
            let range_diff = match price_range.checked_mul(token_diff) {
                Some(v) => v,
                None => { return None; },
            };
            let range_area = match range_diff.checked_mul(sum_tokens) {
                Some(v) => v,
                None => { return None; },
            };
            let twice_supply = match U512::from_u64(2).checked_mul(total_supply.to_u512()) {
                Some(v) => v,
                None => { return None; },
            };
            let range_cost = match range_area.checked_div(twice_supply) {
                Some(v) => v,
                None => { return None; },
            };
            let total = match base_cost.checked_add(range_cost) {
                Some(v) => v,
                None => { return None; },
            };
            total.checked_div(unit())
        },
        _ => {
            let mid_tokens = midpoint(from_tokens, to_tokens);
            let mid_price = match checked_price(
                curve_type,
                mid_tokens,
                total_supply,
                base_price,
                max_price,
            ) {
                Some(v) => v,
                None => { return None; },
            };
            let product = match mid_price.checked_mul(token_diff) {
                Some(v) => v,
                None => { return None; },
            };
            product.checked_div(unit())
        },
    }
}

/// The cost of the tokens between `from_tokens` and `to_tokens`.
pub fn calculate_curve_integral(
    curve_type: CurveType,
    from_tokens: U256,
    to_tokens: U256,
    total_supply: U256,
    base_price: U512,
    max_price: U512,
) -> (r: U512)
    requires
        curve_integral_fits(
            curve_type,
            from_tokens@,
            to_tokens@,
            total_supply@,
            base_price@,
            max_price@,
        ),
    ensures
        r@ == curve_integral(
            curve_type,
            from_tokens@,
            to_tokens@,
            total_supply@,
            base_price@,
            max_price@,
        ),
{
    checked_curve_integral(
        curve_type,
        from_tokens,
        to_tokens,
        total_supply,
        base_price,
        max_price,
    ).unwrap()
}

/// Progress does not fall when more is sold.
pub proof fn lemma_progress_monotone(sold_before: nat, sold_after: nat, supply: nat)
    requires
        sold_before <= sold_after,
        supply > 0,
    ensures
        progress(sold_before, supply) <= progress(sold_after, supply),
{
    lemma_mul_inequality(sold_before as int, sold_after as int, scale() as int);
    lemma_div_is_ordered(
        (sold_before * scale()) as int,
        (sold_after * scale()) as int,
        supply as int,
    );
}

/// The interpolated price does not fall when the fraction grows.
pub proof fn lemma_interpolate_monotone(lower: nat, upper: nat, base: nat, max: nat)
    requires
        lower <= upper,
    ensures
        interpolate(lower, base, max) <= interpolate(upper, base, max),
{
    let range = price_range(base, max);
    lemma_mul_inequality(lower as int, upper as int, range as int);
    lemma_div_is_ordered((lower * range) as int, (upper * range) as int, scale() as int);
}

/// The square of a fraction does not fall when the fraction grows.
pub proof fn lemma_square_monotone(lower: nat, upper: nat)
    requires
        lower <= upper,
    ensures
        lower * lower / scale() <= upper * upper / scale(),
{
    lemma_mul_upper_bound(lower as int, upper as int, lower as int, upper as int);
    lemma_div_is_ordered((lower * lower) as int, (upper * upper) as int, scale() as int);
}

/// On every curve nothing sold is priced at the base price, and everything
/// sold at the maximum price, exactly.
pub proof fn lemma_price_at_ends(shape: CurveType, supply: nat, base: nat, max: nat)
    requires
        supply > 0,
        base <= max,
    ensures
        price(shape, 0, supply, base, max) == base,
        price(shape, supply, supply, base, max) == max,
{
    let range = price_range(base, max);
    assert(0 * scale() == 0);
    assert(progress(0, supply) == 0);
    assert(curve_fraction(shape, 0) == 0) by {
        assert(0nat * 0nat == 0) by (nonlinear_arith);
        assert(0nat * 0nat * smoothstep_factor(0) == 0) by (nonlinear_arith);
    }
    assert(0 * range == 0) by (nonlinear_arith);
    lemma_div_multiples_vanish(scale() as int, supply as int);
    assert(progress(supply, supply) == scale());
    assert(scale() * scale() / scale() == scale()) by (nonlinear_arith);
    assert(smoothstep_factor(scale()) == scale());
    assert(scale() * scale() * scale() == (scale() * scale()) * scale()) by (nonlinear_arith);
    lemma_div_multiples_vanish(scale() as int, (scale() * scale()) as int);
    assert(curve_fraction(shape, scale()) == scale());
    lemma_div_multiples_vanish(range as int, scale() as int);
}

/// The exact smoothstep cubic, `x^2 (3 - 2x)` times the cube of `scale()`,
/// does not fall between nothing and everything sold.
proof fn lemma_cubic_monotone(lower: nat, upper: nat)
    requires
        lower <= upper <= scale(),
    ensures
        lower * lower * smoothstep_factor(lower) <= upper * upper * smoothstep_factor(upper),
{
    let a = lower as int;
    let b = upper as int;
    let step = b - a;
    let below = a * a;
    let above = b * b;
    let factor_below = smoothstep_factor(lower) as int;
    let factor_above = smoothstep_factor(upper) as int;
    assert(factor_below - factor_above == 2 * step);
    assert(factor_above >= a);
    assert(above * factor_above - below * factor_below == (above - below) * factor_above - below
        * (factor_below - factor_above)) by (nonlinear_arith);
    assert(above - below == step * (b + a)) by (nonlinear_arith)
        requires
            above == b * b,
            below == a * a,
            step == b - a,
    ;
    let least = step * (2 * a);
    assert(step * (b + a) >= least && least >= 0) by (nonlinear_arith)
        requires
            least == step * (2 * a),
            step >= 0,
            b >= a,
            a >= 0,
    ;
    assert((above - below) * factor_above >= least * factor_above) by (nonlinear_arith)
        requires
            above - below >= least,
            factor_above >= 0,
    ;
    assert(least * factor_above >= least * a) by (nonlinear_arith)
        requires
            factor_above >= a,
            least >= 0,
    ;
    assert(least * a == below * (2 * step)) by (nonlinear_arith)
        requires
            least == step * (2 * a),
            below == a * a,
    ;
}

/// The smoothstep does not fall between nothing and everything sold.
pub proof fn lemma_smoothstep_monotone(lower: nat, upper: nat)
    requires
        lower <= upper <= scale(),
    ensures
        smoothstep(lower) <= smoothstep(upper),
{
    lemma_cubic_monotone(lower, upper);
    lemma_div_is_ordered(
        (lower * lower * smoothstep_factor(lower)) as int,
        (upper * upper * smoothstep_factor(upper)) as int,
        (scale() * scale()) as int,
    );
}

/// The spot price never falls as more is sold: on a linear and on a steep
/// curve for any two amounts in order, on a sigmoid curve for any two amounts
/// in order within the supply.
pub proof fn lemma_price_monotone(
    shape: CurveType,
    sold_before: nat,
    sold_after: nat,
    supply: nat,
    base: nat,
    max: nat,
)
    requires
        sold_before <= sold_after,
        shape == CurveType::Sigmoid ==> sold_after <= supply,
    ensures
        price(shape, sold_before, supply, base, max) <= price(
            shape,
            sold_after,
            supply,
            base,
            max,
        ),
{
    if supply > 0 {
        let before = progress(sold_before, supply);
        let after = progress(sold_after, supply);
        lemma_progress_monotone(sold_before, sold_after, supply);
        lemma_square_monotone(before, after);
        if shape == CurveType::Sigmoid {
            lemma_progress_monotone(sold_after, supply, supply);
            lemma_div_multiples_vanish(scale() as int, supply as int);
            assert(progress(supply, supply) == scale());
            lemma_smoothstep_monotone(before, after);
        }
        lemma_interpolate_monotone(
            curve_fraction(shape, before),
            curve_fraction(shape, after),
            base,
            max,
        );
    }
}

/// At half the supply, rounded down, a linear curve is priced at the mean of
/// the base and the maximum price exactly where the progress there takes
/// half the price range, rounded down.
pub proof fn lemma_linear_price_at_half_exactly(supply: nat, base: nat, max: nat)
    requires
        supply > 0,
        base <= max,
    ensures
        price(CurveType::Linear, supply / 2, supply, base, max) == (base + max) / 2
            <==> progress(supply / 2, supply) * price_range(base, max) / scale() == price_range(
            base,
            max,
        ) / 2,
{
}

/// Halfway through an even supply a linear curve is priced at the mean of the
/// base and the maximum price, exactly.
pub proof fn lemma_linear_price_at_half(supply: nat, base: nat, max: nat)
    requires
        supply > 0,
        supply % 2 == 0,
        base <= max,
    ensures
        price(CurveType::Linear, supply / 2, supply, base, max) == (base + max) / 2,
{
    let half_supply = supply / 2;
    let half_scale: nat = 500_000_000_000_000_000;
    let range = price_range(base, max);
    assert(half_supply * scale() == supply * half_scale) by (nonlinear_arith)
        requires
            supply == 2 * half_supply,
            scale() == 2 * half_scale,
    ;
    lemma_div_multiples_vanish(half_scale as int, supply as int);
    assert(progress(half_supply, supply) == half_scale);
    lemma_div_multiples_vanish_quotient(half_scale as int, range as int, 2);
    assert(half_scale * 2 == scale());
    assert(half_scale * range / scale() == range / 2);
}

/// The spot price can be computed for every amount within the supply, on
/// every curve whose maximum price is not below its base price and, times
/// the fixed-point unit, fits in 512 bits.
pub proof fn lemma_price_fits_within_supply(
    shape: CurveType,
    sold: nat,
    supply: nat,
    base: nat,
    max: nat,
)
    requires
        sold <= supply,
        base <= max,
        max * scale() < pow2_512(),
    ensures
        price_fits(shape, sold, supply, base, max),
        price(shape, sold, supply, base, max) <= (if supply == 0 {
            base
        } else {
            max
        }),
{
    if supply > 0 {
        let p = progress(sold, supply);
        let range = price_range(base, max);
        lemma_progress_monotone(sold, supply, supply);
        lemma_div_multiples_vanish(scale() as int, supply as int);
        assert(p <= scale());
        assert(p * p <= scale() * scale()) by (nonlinear_arith)
            requires
                p <= scale(),
        ;
        assert(p * p * smoothstep_factor(p) <= scale() * scale() * (3 * scale()))
            by (nonlinear_arith)
            requires
                p * p <= scale() * scale(),
                smoothstep_factor(p) <= 3 * scale(),
        ;
        assert(scale() * scale() * (3 * scale()) < pow2_512()) by (nonlinear_arith);
        let fraction = curve_fraction(shape, p);
        assert(fraction <= scale()) by {
            lemma_square_monotone(p, scale());
            lemma_smoothstep_monotone(p, scale());
            assert(scale() * scale() / scale() == scale()) by (nonlinear_arith);
            assert(scale() * scale() * scale() == (scale() * scale()) * scale())
                by (nonlinear_arith);
            lemma_div_multiples_vanish(scale() as int, (scale() * scale()) as int);
        }
        lemma_mul_inequality(fraction as int, scale() as int, range as int);
        assert(scale() * range <= max * scale()) by (nonlinear_arith)
            requires
                range <= max,
        ;
        lemma_div_is_ordered((fraction * range) as int, (scale() * range) as int, scale() as int);
        lemma_div_multiples_vanish(range as int, scale() as int);
        assert(max <= max * scale()) by (nonlinear_arith)
            requires
                scale() >= 1,
        ;
    }
}

} // verus!
