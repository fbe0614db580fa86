use ectoplasm::curves::{
    calculate_cspr_for_tokens, calculate_curve_integral, calculate_price,
    calculate_tokens_for_cspr, checked_cspr_for_tokens, checked_curve_integral, checked_price,
    checked_tokens_for_cspr, CurveType, PRECISION,
};
use ectoplasm::uint::{U256, U512};

fn u256(v: casper_types::U256) -> U256 {
    U256 { limbs: v.0 }
}

fn u512(v: casper_types::U512) -> U512 {
    U512 { limbs: v.0 }
}

fn d256(text: &str) -> U256 {
    u256(casper_types::U256::from_dec_str(text).unwrap())
}

fn d512(text: &str) -> U512 {
    u512(casper_types::U512::from_dec_str(text).unwrap())
}

const SHAPES: [CurveType; 3] = [CurveType::Linear, CurveType::Sigmoid, CurveType::Steep];

#[test]
fn test_linear_curve() {
    let base = casper_types::U512::from(1_000_000_000u64);
    let max = casper_types::U512::from(10_000_000_000u64);
    let supply = casper_types::U256::from(1_000_000u128);

    let price_start = calculate_price(
        CurveType::Linear,
        u256(casper_types::U256::zero()),
        u256(supply),
        u512(base),
        u512(max),
    );
    assert_eq!(price_start, u512(base));

    let price_end =
        calculate_price(CurveType::Linear, u256(supply), u256(supply), u512(base), u512(max));
    assert_eq!(price_end, u512(max));

    let price_mid =
        calculate_price(CurveType::Linear, u256(supply / 2), u256(supply), u512(base), u512(max));
    let expected_mid = (base + max) / 2;
    assert_eq!(price_mid, u512(expected_mid));
}

#[test]
fn from_u8_decodes_three_shapes() {
    assert_eq!(CurveType::from_u8(0), Some(CurveType::Linear));
    assert_eq!(CurveType::from_u8(1), Some(CurveType::Sigmoid));
    assert_eq!(CurveType::from_u8(2), Some(CurveType::Steep));
    assert_eq!(CurveType::from_u8(3), None);
    assert_eq!(CurveType::from_u8(255), None);
    for shape in SHAPES {
        assert_eq!(CurveType::from_u8(shape.to_u8()), Some(shape));
    }
}

#[test]
fn precision_is_eighteen_decimals() {
    assert_eq!(PRECISION, 1_000_000_000_000_000_000u128);
}

#[test]
fn price_is_base_at_nothing_sold_and_max_at_all_sold() {
    let base = U512::from_u64(1_000_000_000);
    let max = U512::from_u64(10_000_000_000);
    for supply in [d256("1"), d256("7"), d256("1000000"), d256("1000000000000000000000000")] {
        for shape in SHAPES {
            assert_eq!(calculate_price(shape, U256::zero(), supply, base, max), base);
            assert_eq!(calculate_price(shape, supply, supply, base, max), max);
        }
    }
}

#[test]
fn price_of_an_empty_supply_is_the_base_price() {
    let base = U512::from_u64(5);
    let max = U512::from_u64(3);
    for shape in SHAPES {
        assert_eq!(calculate_price(shape, U256::from_u64(9), U256::zero(), base, max), base);
    }
}

#[test]
fn price_at_the_quarters_of_each_shape() {
    let base = U512::from_u64(1_000_000_000);
    let max = U512::from_u64(10_000_000_000);
    let supply = d256("1000000000000000000000000");
    let quarter = casper_types::U256::from_dec_str("250000000000000000000000").unwrap();
    let expected: [[u64; 5]; 3] = [
        [1000000000, 3250000000, 5500000000, 7750000000, 10000000000],
        [1000000000, 2406250000, 5500000000, 8593750000, 10000000000],
        [1000000000, 1562500000, 3250000000, 6062500000, 10000000000],
    ];
    for (shape, row) in SHAPES.iter().zip(expected.iter()) {
        for (k, want) in row.iter().enumerate() {
            let sold = u256(quarter * casper_types::U256::from(k as u64));
            assert_eq!(calculate_price(*shape, sold, supply, base, max), U512::from_u64(*want));
        }
    }
}

#[test]
fn linear_and_steep_prices_never_fall() {
    let base = U512::from_u64(1_000_000_000);
    let max = U512::from_u64(10_000_000_000);
    let supply = U256::from_u64(1_000_003);
    for shape in [CurveType::Linear, CurveType::Steep] {
        let mut last = calculate_price(shape, U256::zero(), supply, base, max);
        for sold in (0..=1_000_003u64).step_by(997) {
            let now = calculate_price(shape, U256::from_u64(sold), supply, base, max);
            assert!(casper_types::U512(last.limbs) <= casper_types::U512(now.limbs));
            last = now;
        }
    }
}

#[test]
fn sigmoid_prices_never_fall() {
    let base = U512::from_u64(1_000_000_000);
    let max = U512::from_u64(10_000_000_000);
    let supply = U256::from_u64(1_000_003);
    let mut last = calculate_price(CurveType::Sigmoid, U256::zero(), supply, base, max);
    for sold in (0..=1_000_003u64).step_by(997) {
        let now = calculate_price(CurveType::Sigmoid, U256::from_u64(sold), supply, base, max);
        assert!(casper_types::U512(last.limbs) <= casper_types::U512(now.limbs));
        last = now;
    }
    let full = calculate_price(CurveType::Sigmoid, supply, supply, base, max);
    assert!(casper_types::U512(last.limbs) <= casper_types::U512(full.limbs));
    assert_eq!(full, max);
}

#[test]
fn sigmoid_price_does_not_fall_from_one_token_to_the_next() {
    // The cubic is rounded once: rounding its square first would price the
    // second amount of each pair below the first.
    let supply = d256("1000000000000000000");
    let base = U512::from_u64(1_000_000_000);
    let max = U512::from_u64(10_000_000_000);
    let before = calculate_price(CurveType::Sigmoid, d256("100000000000000000"), supply, base, max);
    let after = calculate_price(CurveType::Sigmoid, d256("100000000000000001"), supply, base, max);
    assert_eq!(before, d512("1252000000"));
    assert_eq!(after, d512("1252000000"));
    let base = U512::zero();
    let max = d512("10000000000000000000");
    let before =
        calculate_price(CurveType::Sigmoid, d256("924181789472441325"), supply, base, max);
    let after = calculate_price(CurveType::Sigmoid, d256("924181789472441326"), supply, base, max);
    assert_eq!(before, d512("9836264638188441070"));
    assert_eq!(after, d512("9836264638188441070"));
}

#[test]
fn linear_price_at_half_of_an_odd_supply_is_below_the_mean() {
    let base = U512::zero();
    let max = U512::from_u64(3_000_000);
    let price = calculate_price(CurveType::Linear, U256::from_u64(1), U256::from_u64(3), base, max);
    assert_eq!(price, U512::from_u64(999_999));
}

#[test]
fn checked_price_refuses_a_maximum_below_the_base() {
    let r = checked_price(
        CurveType::Linear,
        U256::from_u64(1),
        U256::from_u64(2),
        U512::from_u64(10),
        U512::from_u64(9),
    );
    assert_eq!(r, None);
}

#[test]
fn checked_price_refuses_what_does_not_fit() {
    let huge = u512(casper_types::U512::MAX);
    let r = checked_price(
        CurveType::Linear,
        U256::from_u64(2),
        U256::from_u64(2),
        U512::zero(),
        huge,
    );
    assert_eq!(r, None);
    let sold = u256(casper_types::U256::MAX);
    let r = checked_price(
        CurveType::Steep,
        sold,
        U256::from_u64(1),
        U512::zero(),
        U512::from_u64(1),
    );
    assert_eq!(r, None);
    let r = checked_price(
        CurveType::Linear,
        sold,
        U256::from_u64(1),
        U512::zero(),
        U512::from_u64(1),
    );
    assert_eq!(
        r,
        Some(d512("115792089237316195423570985008687907853269984665640564039457584007913129639935"))
    );
}

#[test]
fn tokens_for_cspr_at_the_spot_price() {
    let base = U512::from_u64(1_000_000_000);
    let max = U512::from_u64(10_000_000_000);
    let supply = d256("1000000000000000000000000");
    let paid = d512("4950000000000");
    assert_eq!(
        calculate_tokens_for_cspr(CurveType::Linear, paid, U256::zero(), supply, base, max),
        d256("4950000000000000000000")
    );
    assert_eq!(
        calculate_tokens_for_cspr(
            CurveType::Linear,
            paid,
            d256("250000000000000000000000"),
            supply,
            base,
            max
        ),
        d256("1523076923076923076923")
    );
    assert_eq!(
        calculate_tokens_for_cspr(
            CurveType::Steep,
            d512("1000000000000"),
            d256("500000000000000000000000"),
            supply,
            base,
            max
        ),
        d256("307692307692307692307")
    );
}

#[test]
fn tokens_for_cspr_is_capped_at_what_is_left() {
    let base = U512::from_u64(1_000_000_000);
    let max = U512::from_u64(10_000_000_000);
    let supply = d256("1000000000000000000000000");
    let sold = d256("999999999999999999999995");
    let r = calculate_tokens_for_cspr(
        CurveType::Linear,
        d512("1000000000000000000000000000000"),
        sold,
        supply,
        base,
        max,
    );
    assert_eq!(r, U256::from_u64(5));
}

#[test]
fn tokens_for_cspr_is_zero_for_nothing_paid_no_supply_or_a_free_token() {
    let base = U512::from_u64(1_000_000_000);
    let max = U512::from_u64(10_000_000_000);
    let supply = U256::from_u64(1000);
    for shape in SHAPES {
        assert_eq!(
            calculate_tokens_for_cspr(shape, U512::zero(), U256::zero(), supply, base, max),
            U256::zero()
        );
        assert_eq!(
            calculate_tokens_for_cspr(
                shape,
                U512::from_u64(5),
                U256::zero(),
                U256::zero(),
                base,
                max
            ),
            U256::zero()
        );
        assert_eq!(
            calculate_tokens_for_cspr(
                shape,
                U512::from_u64(5),
                U256::zero(),
                supply,
                U512::zero(),
                max
            ),
            U256::zero()
        );
    }
}

#[test]
fn checked_tokens_for_cspr_refuses_more_sold_than_exists() {
    let r = checked_tokens_for_cspr(
        CurveType::Linear,
        U512::from_u64(5),
        U256::from_u64(11),
        U256::from_u64(10),
        U512::from_u64(1),
        U512::from_u64(2),
    );
    assert_eq!(r, None);
}

#[test]
fn cspr_for_tokens_at_the_midpoint_price() {
    let base = U512::from_u64(1_000_000_000);
    let max = U512::from_u64(10_000_000_000);
    let supply = d256("1000000000000000000000000");
    assert_eq!(
        calculate_cspr_for_tokens(
            CurveType::Linear,
            d256("1000000000000000000000"),
            d256("4000000000000000000000"),
            supply,
            base,
            max
        ),
        d512("1031500000000")
    );
    assert_eq!(
        calculate_cspr_for_tokens(
            CurveType::Sigmoid,
            d256("1000000000000000000000"),
            d256("500000000000000000000000"),
            supply,
            base,
            max
        ),
        d512("5493250002000")
    );
    assert_eq!(
        calculate_cspr_for_tokens(
            CurveType::Linear,
            d256("10000000000000000000"),
            d256("4000000000000000000"),
            supply,
            base,
            max
        ),
        d512("10000180000")
    );
}

#[test]
fn cspr_for_tokens_is_zero_for_no_tokens_or_nothing_sold() {
    let base = U512::from_u64(1_000_000_000);
    let max = U512::from_u64(10_000_000_000);
    let supply = U256::from_u64(1000);
    for shape in SHAPES {
        assert_eq!(
            calculate_cspr_for_tokens(shape, U256::zero(), U256::from_u64(5), supply, base, max),
            U512::zero()
        );
        assert_eq!(
            calculate_cspr_for_tokens(shape, U256::from_u64(5), U256::zero(), supply, base, max),
            U512::zero()
        );
    }
}

#[test]
fn checked_cspr_for_tokens_refuses_what_does_not_fit() {
    let r = checked_cspr_for_tokens(
        CurveType::Linear,
        u256(casper_types::U256::MAX),
        u256(casper_types::U256::MAX),
        U256::from_u64(1),
        d512("1000000000000000000000000000000000000000000000000000000000000000000000000000000"),
        d512("1000000000000000000000000000000000000000000000000000000000000000000000000000000"),
    );
    assert_eq!(r, None);
}

#[test]
fn curve_integral_of_a_linear_curve_is_the_area_under_the_line() {
    let base = U512::from_u64(1_000_000_000);
    let max = U512::from_u64(10_000_000_000);
    let supply = d256("1000000000000000000000000");
    assert_eq!(
        calculate_curve_integral(
            CurveType::Linear,
            U256::zero(),
            d256("1000000000000000000000"),
            supply,
            base,
            max
        ),
        d512("1004500000000")
    );
    assert_eq!(
        calculate_curve_integral(
            CurveType::Linear,
            d256("250000000000000000000000"),
            d256("500000000000000000000000"),
            supply,
            base,
            max
        ),
        d512("1093750000000000")
    );
}

#[test]
fn curve_integral_of_the_other_shapes_uses_the_midpoint_price() {
    let base = U512::from_u64(1_000_000_000);
    let max = U512::from_u64(10_000_000_000);
    let supply = d256("1000000000000000000000000");
    assert_eq!(
        calculate_curve_integral(
            CurveType::Steep,
            U256::zero(),
            d256("100000000000000000000000"),
            supply,
            base,
            max
        ),
        d512("102250000000000")
    );
    assert_eq!(
        calculate_curve_integral(
            CurveType::Sigmoid,
            d256("100000000000000000000000"),
            d256("300000000000000000000000"),
            supply,
            base,
            max
        ),
        d512("387200000000000")
    );
}

#[test]
fn curve_integral_is_zero_for_an_empty_range_or_no_supply() {
    let base = U512::from_u64(1_000_000_000);
    let max = U512::from_u64(10_000_000_000);
    for shape in SHAPES {
        assert_eq!(
            calculate_curve_integral(
                shape,
                U256::from_u64(7),
                U256::from_u64(7),
                U256::from_u64(100),
                base,
                max
            ),
            U512::zero()
        );
        assert_eq!(
            calculate_curve_integral(
                shape,
                U256::from_u64(8),
                U256::from_u64(7),
                U256::from_u64(100),
                base,
                max
            ),
            U512::zero()
        );
        assert_eq!(
            calculate_curve_integral(
                shape,
                U256::from_u64(1),
                U256::from_u64(7),
                U256::zero(),
                base,
                max
            ),
            U512::zero()
        );
    }
}

#[test]
fn checked_curve_integral_refuses_a_maximum_below_the_base() {
    let r = checked_curve_integral(
        CurveType::Linear,
        U256::from_u64(1),
        U256::from_u64(7),
        U256::from_u64(100),
        U512::from_u64(10),
        U512::from_u64(9),
    );
    assert_eq!(r, None);
}

#[test]
fn a_price_is_there_for_every_amount_within_the_supply() {
    // the largest maximum price that, times the unit, fits in 512 bits
    let max = d512("13407807929942597099574024998205846127479365820592393377723561443721764030073546976801874298166903427690031858186486050853753882811946569");
    let base = U512::from_u64(1);
    let supply = U256::from_u64(1_000_003);
    for shape in SHAPES {
        for sold in [0u64, 1, 333_334, 500_001, 1_000_002, 1_000_003] {
            let price = checked_price(shape, U256::from_u64(sold), supply, base, max).unwrap();
            assert!(casper_types::U512(price.limbs) <= casper_types::U512(max.limbs));
            assert!(casper_types::U512(base.limbs) <= casper_types::U512(price.limbs));
        }
        assert_eq!(checked_price(shape, supply, supply, base, max), Some(max));
        assert_eq!(checked_price(shape, U256::zero(), supply, base, max), Some(base));
    }
    let beyond = U512 { limbs: [u64::MAX; 8] };
    assert_eq!(checked_price(CurveType::Linear, supply, supply, base, beyond), None);
}
