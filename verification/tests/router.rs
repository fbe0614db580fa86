use ectoplasm::account::Address;
use ectoplasm::error::RouterError;
use ectoplasm::router::{
    add_liquidity, calculate_liquidity_amounts, checked_amount_in, checked_amount_out,
    checked_quote, get_amount_in, get_amount_out, get_amounts_in, get_amounts_out,
    get_reserves_sorted, quote, remove_liquidity, swap_exact_tokens_for_tokens,
    swap_tokens_for_exact_tokens, Pool,
};
use ectoplasm::uint::U256;

fn n(v: u64) -> U256 {
    U256::from_u64(v)
}

fn addr(tag: u8) -> Address {
    Address::new([tag; 32])
}

const A: u8 = 1;
const B: u8 = 2;
const C: u8 = 3;
const AB: u8 = 12;
const BC: u8 = 23;
const TRADER: u8 = 99;

fn pool(pair: u8, token0: u8, reserve0: u64, reserve1: u64) -> Option<Pool> {
    Some(Pool { pair: addr(pair), token0: addr(token0), reserve0: n(reserve0), reserve1: n(reserve1) })
}

fn path_abc() -> Vec<Address> {
    vec![addr(A), addr(B), addr(C)]
}

fn pools_abc() -> Vec<Option<Pool>> {
    vec![pool(AB, A, 1000, 2000), pool(BC, B, 2000, 500)]
}

#[test]
fn quote_is_proportional_and_takes_no_fee() {
    assert_eq!(quote(n(100), n(1000), n(2000)), n(200));
    assert_eq!(quote(n(7), n(3), n(2)), n(4));
    assert_eq!(quote(n(0), n(1000), n(2000)), n(0));
    assert_eq!(quote(n(100), n(0), n(2000)), n(0));
    assert_eq!(quote(n(100), n(1000), n(0)), n(0));
    assert_eq!(checked_quote(U256 { limbs: [u64::MAX; 4] }, n(1), n(2)), None);
}

#[test]
fn amount_out_takes_three_thousandths() {
    assert_eq!(get_amount_out(n(100), n(1000), n(2000)), n(181));
    assert_eq!(get_amount_out(n(181), n(2000), n(500)), n(41));
    assert_eq!(get_amount_out(n(1000), n(10_000), n(10_000)), n(906));
    assert_eq!(get_amount_out(n(1), n(1000), n(1)), n(0));
    assert_eq!(get_amount_out(n(0), n(1000), n(2000)), n(0));
    assert_eq!(get_amount_out(n(100), n(0), n(2000)), n(0));
    assert_eq!(get_amount_out(n(100), n(1000), n(0)), n(0));
    assert_eq!(checked_amount_out(U256 { limbs: [u64::MAX; 4] }, n(1), n(2)), None);
}

#[test]
fn amount_in_rounds_up_by_one() {
    assert_eq!(get_amount_in(n(40), n(2000), n(500)), n(175));
    assert_eq!(get_amount_in(n(175), n(1000), n(2000)), n(97));
    assert_eq!(get_amount_in(n(999), n(1000), n(1000)), n(1_002_007));
    assert_eq!(get_amount_in(n(0), n(1000), n(2000)), n(0));
    assert_eq!(get_amount_in(n(10), n(0), n(2000)), n(0));
    assert_eq!(get_amount_in(n(10), n(1000), n(0)), n(0));
}

#[test]
fn amount_in_cannot_be_had_for_the_whole_reserve_or_more() {
    assert_eq!(checked_amount_in(n(1000), n(1000), n(1000)), None);
    assert_eq!(checked_amount_in(n(1001), n(1000), n(1000)), None);
    assert_eq!(checked_amount_in(n(999), n(1000), n(1000)), Some(n(1_002_007)));
}

#[test]
fn paying_the_asked_input_buys_at_least_the_output() {
    for y in [1u64, 9, 500, 999] {
        let x = get_amount_in(n(y), n(1000), n(1000));
        let back = get_amount_out(x, n(1000), n(1000));
        assert!(casper_types::U256(back.limbs) >= casper_types::U256(n(y).limbs));
    }
}

#[test]
fn the_input_asked_for_an_output_is_not_always_the_input_that_bought_it() {
    // no overpayment: the same input comes back
    assert_eq!(get_amount_in(get_amount_out(n(10), n(1000), n(1000)), n(1000), n(1000)), n(10));
    // an exact quotient: one more than was paid
    assert_eq!(get_amount_in(get_amount_out(n(1000), n(997), n(2000)), n(997), n(2000)), n(1001));
    // an overpayment: less than was paid
    assert_eq!(get_amount_out(n(1000), n(1), n(2)), n(1));
    assert_eq!(get_amount_in(n(1), n(1), n(2)), n(2));
    // an input that buys nothing
    assert_eq!(get_amount_in(get_amount_out(n(1), n(1000), n(1)), n(1000), n(1)), n(0));
}

#[test]
fn reserves_are_given_with_the_asked_token_first() {
    let p = pool(AB, A, 1000, 2000).unwrap();
    assert_eq!(get_reserves_sorted(&addr(A), &p), (n(1000), n(2000)));
    assert_eq!(get_reserves_sorted(&addr(B), &p), (n(2000), n(1000)));
}

#[test]
fn amounts_out_chain_the_pools_of_the_path() {
    let amounts = get_amounts_out(n(100), &path_abc(), &pools_abc()).unwrap();
    let first = get_amount_out(n(100), n(1000), n(2000));
    let second = get_amount_out(first, n(2000), n(500));
    assert_eq!(amounts, vec![n(100), first, second]);
    assert_eq!(amounts, vec![n(100), n(181), n(41)]);
}

#[test]
fn amounts_out_turn_a_pool_round_where_the_input_is_its_second_token() {
    let pools = vec![pool(AB, B, 2000, 1000), pool(BC, C, 500, 2000)];
    assert_eq!(
        get_amounts_out(n(100), &path_abc(), &pools),
        Ok(vec![n(100), n(181), n(41)])
    );
}

#[test]
fn amounts_in_fold_back_from_the_output() {
    let amounts = get_amounts_in(n(40), &path_abc(), &pools_abc()).unwrap();
    let second = get_amount_in(n(40), n(2000), n(500));
    let first = get_amount_in(second, n(1000), n(2000));
    assert_eq!(amounts, vec![first, second, n(40)]);
    assert_eq!(amounts, vec![n(97), n(175), n(40)]);
}

#[test]
fn a_path_needs_two_tokens() {
    let one = vec![addr(A)];
    let none: Vec<Address> = vec![];
    assert_eq!(get_amounts_out(n(100), &one, &pools_abc()), Err(RouterError::InvalidPath));
    assert_eq!(get_amounts_out(n(100), &none, &pools_abc()), Err(RouterError::InvalidPath));
    assert_eq!(get_amounts_in(n(100), &one, &pools_abc()), Err(RouterError::InvalidPath));
    assert!(matches!(
        swap_exact_tokens_for_tokens(n(100), n(0), &one, &pools_abc(), addr(TRADER)),
        Err(RouterError::InvalidPath)
    ));
    assert!(matches!(
        swap_tokens_for_exact_tokens(n(100), n(0), &one, &pools_abc(), addr(TRADER)),
        Err(RouterError::InvalidPath)
    ));
}

#[test]
fn a_hop_needs_a_pool() {
    let missing = vec![pool(AB, A, 1000, 2000), None];
    let short = vec![pool(AB, A, 1000, 2000)];
    assert_eq!(get_amounts_out(n(100), &path_abc(), &missing), Err(RouterError::PairNotFound));
    assert_eq!(get_amounts_out(n(100), &path_abc(), &short), Err(RouterError::PairNotFound));
    assert_eq!(get_amounts_in(n(40), &path_abc(), &missing), Err(RouterError::PairNotFound));
    let first_missing = vec![None, pool(BC, B, 2000, 500)];
    assert_eq!(get_amounts_in(n(40), &path_abc(), &first_missing), Err(RouterError::PairNotFound));
}

#[test]
fn a_hop_that_cannot_be_computed_fails_the_path() {
    assert_eq!(
        get_amounts_in(n(500), &path_abc(), &pools_abc()),
        Err(RouterError::InsufficientLiquidity)
    );
    let wide = vec![
        Some(Pool {
            pair: addr(AB),
            token0: addr(A),
            reserve0: U256 { limbs: [u64::MAX; 4] },
            reserve1: n(5),
        }),
        pool(BC, B, 2000, 500),
    ];
    assert_eq!(
        get_amounts_out(n(100), &path_abc(), &wide),
        Err(RouterError::InsufficientLiquidity)
    );
}

#[test]
fn an_exact_input_is_traded_pool_to_pool() {
    let plan = swap_exact_tokens_for_tokens(n(100), n(41), &path_abc(), &pools_abc(), addr(TRADER))
        .unwrap();
    assert_eq!(plan.amounts, vec![n(100), n(181), n(41)]);
    assert_eq!(plan.first_pair, addr(AB));
    assert_eq!(plan.steps.len(), 2);
    assert_eq!(plan.steps[0].pair, addr(AB));
    assert_eq!(plan.steps[0].amount0_out, n(0));
    assert_eq!(plan.steps[0].amount1_out, n(181));
    assert_eq!(plan.steps[0].recipient, addr(BC));
    assert_eq!(plan.steps[1].pair, addr(BC));
    assert_eq!(plan.steps[1].amount0_out, n(0));
    assert_eq!(plan.steps[1].amount1_out, n(41));
    assert_eq!(plan.steps[1].recipient, addr(TRADER));
}

#[test]
fn a_step_pays_out_of_the_first_token_where_the_input_is_the_second() {
    let pools = vec![pool(AB, B, 2000, 1000), pool(BC, B, 2000, 500)];
    let plan =
        swap_exact_tokens_for_tokens(n(100), n(0), &path_abc(), &pools, addr(TRADER)).unwrap();
    assert_eq!(plan.steps[0].amount0_out, n(181));
    assert_eq!(plan.steps[0].amount1_out, n(0));
    assert_eq!(plan.steps[1].amount0_out, n(0));
    assert_eq!(plan.steps[1].amount1_out, n(41));
}

#[test]
fn an_exact_input_must_buy_the_minimum() {
    assert!(matches!(
        swap_exact_tokens_for_tokens(n(100), n(42), &path_abc(), &pools_abc(), addr(TRADER)),
        Err(RouterError::InsufficientOutputAmount)
    ));
}

#[test]
fn an_exact_output_is_traded_pool_to_pool() {
    let plan = swap_tokens_for_exact_tokens(n(40), n(97), &path_abc(), &pools_abc(), addr(TRADER))
        .unwrap();
    assert_eq!(plan.amounts, vec![n(97), n(175), n(40)]);
    assert_eq!(plan.first_pair, addr(AB));
    assert_eq!(plan.steps.len(), 2);
    assert_eq!(plan.steps[0].amount1_out, n(175));
    assert_eq!(plan.steps[0].recipient, addr(BC));
    assert_eq!(plan.steps[1].amount1_out, n(40));
    assert_eq!(plan.steps[1].recipient, addr(TRADER));
}

#[test]
fn an_exact_output_must_not_cost_more_than_the_maximum() {
    assert!(matches!(
        swap_tokens_for_exact_tokens(n(40), n(96), &path_abc(), &pools_abc(), addr(TRADER)),
        Err(RouterError::ExcessiveInputAmount)
    ));
}

#[test]
fn liquidity_goes_in_at_the_ratio_of_the_pool() {
    // empty pool: as wished
    assert_eq!(
        calculate_liquidity_amounts(n(5), n(7), n(0), n(0), n(0), n(0)),
        Ok((n(5), n(7)))
    );
    // all of a, with its worth of b
    assert_eq!(
        calculate_liquidity_amounts(n(100), n(300), n(0), n(200), n(1000), n(2000)),
        Ok((n(100), n(200)))
    );
    // all of b, with its worth of a
    assert_eq!(
        calculate_liquidity_amounts(n(100), n(150), n(75), n(0), n(1000), n(2000)),
        Ok((n(75), n(150)))
    );
}

#[test]
fn liquidity_respects_the_minimums() {
    assert_eq!(
        calculate_liquidity_amounts(n(100), n(300), n(0), n(201), n(1000), n(2000)),
        Err(RouterError::InsufficientBAmount)
    );
    assert_eq!(
        calculate_liquidity_amounts(n(100), n(150), n(76), n(0), n(1000), n(2000)),
        Err(RouterError::InsufficientAAmount)
    );
    assert_eq!(
        calculate_liquidity_amounts(
            U256 { limbs: [u64::MAX; 4] },
            n(150),
            n(0),
            n(0),
            n(1000),
            n(2000)
        ),
        Err(RouterError::InsufficientLiquidity)
    );
}

#[test]
fn add_liquidity_needs_a_pool_and_orients_its_reserves() {
    assert!(matches!(
        add_liquidity(&addr(A), None, n(100), n(300), n(0), n(0)),
        Err(RouterError::PairNotFound)
    ));
    let plan =
        add_liquidity(&addr(B), pool(AB, A, 1000, 2000), n(300), n(100), n(0), n(0)).unwrap();
    assert_eq!(plan.pair, addr(AB));
    assert_eq!(plan.amount_a, n(200));
    assert_eq!(plan.amount_b, n(100));
    assert!(matches!(
        add_liquidity(&addr(A), pool(AB, A, 1000, 2000), n(100), n(300), n(0), n(201)),
        Err(RouterError::InsufficientBAmount)
    ));
}

#[test]
fn removed_amounts_are_told_apart_and_checked() {
    assert_eq!(
        remove_liquidity(&addr(A), &addr(A), n(10), n(20), n(10), n(20)),
        Ok((n(10), n(20)))
    );
    assert_eq!(
        remove_liquidity(&addr(B), &addr(A), n(10), n(20), n(20), n(10)),
        Ok((n(20), n(10)))
    );
    assert_eq!(
        remove_liquidity(&addr(A), &addr(A), n(10), n(20), n(11), n(21)),
        Err(RouterError::InsufficientAAmount)
    );
    assert_eq!(
        remove_liquidity(&addr(A), &addr(A), n(10), n(20), n(10), n(21)),
        Err(RouterError::InsufficientBAmount)
    );
}
