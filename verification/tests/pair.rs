use ectoplasm::account::Address;
use ectoplasm::error::PairError;
use ectoplasm::pair::{min, sqrt, Pair, MINIMUM_LIQUIDITY};
use ectoplasm::uint::U256;

fn n(v: u64) -> U256 {
    U256::from_u64(v)
}

fn d256(text: &str) -> U256 {
    U256 { limbs: casper_types::U256::from_dec_str(text).unwrap().0 }
}

fn addr(tag: u8) -> Address {
    Address::new([tag; 32])
}

const POOL: u8 = 9;
const ALICE: u8 = 10;
const BOB: u8 = 11;

fn pool() -> Pair {
    Pair::new(addr(1), addr(2), addr(3))
}

fn funded() -> Pair {
    let mut p = pool();
    p.mint(addr(ALICE), n(10_000), n(10_000)).unwrap();
    p
}

#[test]
fn sqrt_rounds_down() {
    let cases: [(u64, u64); 12] = [
        (0, 0),
        (1, 1),
        (2, 1),
        (3, 1),
        (4, 2),
        (8, 2),
        (9, 3),
        (15, 3),
        (16, 4),
        (99, 9),
        (100, 10),
        (100_000_000, 10_000),
    ];
    for (y, root) in cases {
        assert_eq!(sqrt(n(y)), n(root));
    }
    assert_eq!(sqrt(d256("1000000000000000000000000012345")), d256("1000000000000000"));
    assert_eq!(
        sqrt(U256 { limbs: [u64::MAX; 4] }),
        d256("340282366920938463463374607431768211455")
    );
}

#[test]
fn min_is_the_smaller() {
    assert_eq!(min(n(3), n(5)), n(3));
    assert_eq!(min(n(5), n(3)), n(3));
    assert_eq!(min(n(4), n(4)), n(4));
    assert_eq!(MINIMUM_LIQUIDITY, 1000);
}

#[test]
fn a_new_pool_is_empty() {
    let p = pool();
    assert_eq!(p.token0(), addr(1));
    assert_eq!(p.token1(), addr(2));
    assert_eq!(p.factory(), addr(3));
    assert_eq!(p.get_reserves(), (U256::zero(), U256::zero(), 0));
    assert_eq!(p.total_supply(), U256::zero());
    assert_eq!(p.balance_of(&addr(ALICE)), U256::zero());
    assert!(!p.is_locked());
}

#[test]
fn first_deposit_of_10000_each_earns_9000_and_locks_1000() {
    let mut p = pool();
    assert_eq!(p.mint(addr(ALICE), n(10_000), n(10_000)), Ok(n(9_000)));
    assert_eq!(p.total_supply(), n(10_000));
    assert_eq!(p.balance_of(&addr(ALICE)), n(9_000));
    assert_eq!(p.balance_of(&Address::zero()), n(1_000));
    assert_eq!(p.get_reserves(), (n(10_000), n(10_000), 0));
    assert!(!p.is_locked());
}

#[test]
fn first_deposit_to_the_zero_address_adds_to_the_locked_shares() {
    let mut p = pool();
    assert_eq!(p.mint(Address::zero(), n(4_000), n(9_000)), Ok(n(5_000)));
    assert_eq!(p.balance_of(&Address::zero()), n(6_000));
    assert_eq!(p.total_supply(), n(6_000));
}

#[test]
fn first_deposit_must_earn_more_than_the_locked_minimum() {
    let mut p = pool();
    assert_eq!(
        p.mint(addr(ALICE), n(1_000), n(1_000)),
        Err(PairError::InsufficientLiquidityMinted)
    );
    assert_eq!(p.mint(addr(ALICE), n(10), n(10)), Err(PairError::InsufficientLiquidityMinted));
    assert_eq!(p.mint(addr(ALICE), n(0), n(0)), Err(PairError::InsufficientLiquidityMinted));
    assert_eq!(p.total_supply(), U256::zero());
    assert_eq!(p.get_reserves(), (U256::zero(), U256::zero(), 0));
    assert_eq!(p.mint(addr(ALICE), n(1_001), n(1_001)), Ok(n(1)));
}

#[test]
fn later_deposits_earn_the_smaller_proportion() {
    let mut p = funded();
    // 2000 and 1000 on top: 2000 and 1000 shares, the smaller counts
    assert_eq!(p.mint(addr(BOB), n(12_000), n(11_000)), Ok(n(1_000)));
    assert_eq!(p.balance_of(&addr(BOB)), n(1_000));
    assert_eq!(p.total_supply(), n(11_000));
    assert_eq!(p.get_reserves(), (n(12_000), n(11_000), 0));
    assert_eq!(
        p.mint(addr(BOB), n(12_000), n(11_500)),
        Err(PairError::InsufficientLiquidityMinted)
    );
    assert_eq!(p.total_supply(), n(11_000));
}

#[test]
fn mint_reports_overflow_for_balances_below_the_reserves_and_wide_products() {
    let mut p = funded();
    assert_eq!(p.mint(addr(BOB), n(9_999), n(11_000)), Err(PairError::Overflow));
    let mut q = pool();
    let big = d256("340282366920938463463374607431768211456");
    assert_eq!(q.mint(addr(BOB), big, big), Err(PairError::Overflow));
    assert_eq!(q.total_supply(), U256::zero());
}

#[test]
fn shares_move_between_accounts() {
    let mut p = funded();
    assert_eq!(p.transfer(addr(ALICE), addr(BOB), n(4_000)), Ok(()));
    assert_eq!(p.balance_of(&addr(ALICE)), n(5_000));
    assert_eq!(p.balance_of(&addr(BOB)), n(4_000));
    assert_eq!(p.transfer(addr(BOB), addr(BOB), n(4_000)), Ok(()));
    assert_eq!(p.balance_of(&addr(BOB)), n(4_000));
    assert_eq!(
        p.transfer(addr(BOB), addr(ALICE), n(4_001)),
        Err(PairError::InsufficientBalance)
    );
    assert_eq!(p.balance_of(&addr(BOB)), n(4_000));
    assert_eq!(p.total_supply(), n(10_000));
}

#[test]
fn burn_redeems_the_shares_that_the_pool_holds() {
    let mut p = funded();
    p.transfer(addr(ALICE), addr(POOL), n(4_500)).unwrap();
    assert_eq!(p.burn(addr(POOL), n(10_000), n(12_000)), Ok((n(4_500), n(5_400))));
    assert!(p.is_locked());
    assert_eq!(p.balance_of(&addr(POOL)), U256::zero());
    assert_eq!(p.total_supply(), n(5_500));
    assert_eq!(p.get_reserves(), (n(10_000), n(10_000), 0));
    p.sync(n(5_500), n(6_600));
    p.unlock();
    assert_eq!(p.get_reserves(), (n(5_500), n(6_600), 0));
    assert!(!p.is_locked());
}

#[test]
fn burn_refuses_shares_that_redeem_nothing() {
    let mut p = funded();
    assert_eq!(
        p.burn(addr(POOL), n(10_000), n(10_000)),
        Err(PairError::InsufficientLiquidityBurned)
    );
    p.transfer(addr(ALICE), addr(POOL), n(1)).unwrap();
    assert_eq!(p.burn(addr(POOL), n(10_000), n(9_999)), Err(PairError::InsufficientLiquidityBurned));
    assert_eq!(p.balance_of(&addr(POOL)), n(1));
    let mut empty = pool();
    assert_eq!(empty.burn(addr(POOL), n(1), n(1)), Err(PairError::Overflow));
}

#[test]
fn swap_pays_out_against_what_came_in() {
    let mut p = funded();
    assert_eq!(p.swap(n(0), n(906)), Ok(()));
    assert!(p.is_locked());
    assert_eq!(p.get_reserves(), (n(10_000), n(10_000), 0));
    assert_eq!(p.settle_swap(n(0), n(906), n(11_000), n(9_094)), Ok((n(1_000), n(0))));
    assert_eq!(p.get_reserves(), (n(11_000), n(9_094), 0));
    assert!(!p.is_locked());
}

#[test]
fn swap_refuses_to_lower_the_fee_adjusted_product() {
    let mut p = funded();
    p.swap(n(0), n(907)).unwrap();
    assert_eq!(p.settle_swap(n(0), n(907), n(11_000), n(9_093)), Err(PairError::K));
    assert!(p.is_locked());
    assert_eq!(p.get_reserves(), (n(10_000), n(10_000), 0));
}

#[test]
fn swap_holds_with_input_on_one_side_only_and_on_both() {
    let mut p = funded();
    p.swap(n(100), n(0)).unwrap();
    // 101 of the second token do not pay for 100 of the first, 102 do
    assert_eq!(p.settle_swap(n(100), n(0), n(9_900), n(10_101)), Err(PairError::K));
    assert_eq!(p.settle_swap(n(100), n(0), n(9_900), n(10_102)), Ok((n(0), n(102))));
    p.swap(n(50), n(50)).unwrap();
    assert_eq!(
        p.settle_swap(n(50), n(50), n(9_901), n(10_103)),
        Ok((n(51), n(51)))
    );
}

#[test]
fn swap_refuses_no_output_and_outputs_at_or_above_the_reserves() {
    let mut p = funded();
    assert_eq!(p.swap(n(0), n(0)), Err(PairError::InsufficientOutputAmount));
    assert_eq!(p.swap(n(10_000), n(0)), Err(PairError::InsufficientLiquidity));
    assert_eq!(p.swap(n(0), n(10_001)), Err(PairError::InsufficientLiquidity));
    assert_eq!(p.swap(n(9_999), n(9_999)), Ok(()));
    assert_eq!(p.swap(n(1), n(0)), Err(PairError::Locked));
}

#[test]
fn settle_swap_refuses_a_trade_that_nothing_was_paid_for() {
    let mut p = funded();
    p.swap(n(0), n(10)).unwrap();
    assert_eq!(
        p.settle_swap(n(0), n(10), n(10_000), n(9_990)),
        Err(PairError::InsufficientInputAmount)
    );
    assert_eq!(
        p.settle_swap(n(0), n(10_001), n(10_000), n(9_990)),
        Err(PairError::InsufficientLiquidity)
    );
    let big = d256("115792089237316195423570985008687907853269984665640564039457584007913129639");
    assert_eq!(p.settle_swap(n(0), n(10), big, n(9_990)), Err(PairError::Overflow));
}

#[test]
fn guarded_operations_fail_while_the_lock_is_held() {
    let mut p = funded();
    assert_eq!(p.lock(), Ok(()));
    assert_eq!(p.lock(), Err(PairError::Locked));
    assert_eq!(p.mint(addr(BOB), n(20_000), n(20_000)), Err(PairError::Locked));
    assert_eq!(p.burn(addr(POOL), n(20_000), n(20_000)), Err(PairError::Locked));
    assert_eq!(p.swap(n(1), n(0)), Err(PairError::Locked));
    p.unlock();
    assert_eq!(p.lock(), Ok(()));
}

#[test]
fn sync_takes_the_balances_and_skim_finds_the_surplus() {
    let mut p = funded();
    assert_eq!(p.skim(n(10_500), n(9_000)), (n(500), n(0)));
    assert_eq!(p.skim(n(10_000), n(10_007)), (n(0), n(7)));
    p.sync(n(10_500), n(9_000));
    assert_eq!(p.get_reserves(), (n(10_500), n(9_000), 0));
    assert_eq!(p.skim(n(10_500), n(9_000)), (n(0), n(0)));
}

#[test]
fn settle_swap_needs_an_open_trade() {
    let mut p = funded();
    assert_eq!(p.settle_swap(n(0), n(906), n(11_000), n(9_094)), Err(PairError::Locked));
    assert_eq!(p.get_reserves(), (n(10_000), n(10_000), 0));
    p.swap(n(0), n(906)).unwrap();
    assert_eq!(
        p.settle_swap(n(0), n(0), n(11_000), n(10_000)),
        Err(PairError::InsufficientOutputAmount)
    );
    assert_eq!(
        p.settle_swap(n(0), n(10_000), n(11_000), n(0)),
        Err(PairError::InsufficientLiquidity)
    );
    assert!(p.is_locked());
    assert_eq!(p.settle_swap(n(0), n(906), n(11_000), n(9_094)), Ok((n(1_000), n(0))));
    assert_eq!(p.settle_swap(n(0), n(906), n(12_000), n(8_188)), Err(PairError::Locked));
}
