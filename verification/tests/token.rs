use ectoplasm::account::Address;
use ectoplasm::error::Cep18Error;
use ectoplasm::token::Token;
use ectoplasm::uint::U256;

fn n(v: u64) -> U256 {
    U256::from_u64(v)
}

fn addr(tag: u8) -> Address {
    Address::new([tag; 32])
}

const ADMIN: u8 = 1;
const ALICE: u8 = 10;
const BOB: u8 = 11;
const CAROL: u8 = 12;

fn token() -> Token {
    Token::new("Test Token".to_string(), "TST".to_string(), 18, n(1_000), addr(ADMIN))
}

#[test]
fn a_new_token_gives_its_supply_to_the_administrator() {
    let t = token();
    assert_eq!(t.name(), "Test Token");
    assert_eq!(t.symbol(), "TST");
    assert_eq!(t.decimals(), 18);
    assert_eq!(t.total_supply(), n(1_000));
    assert_eq!(t.admin(), addr(ADMIN));
    assert_eq!(t.balance_of(&addr(ADMIN)), n(1_000));
    assert_eq!(t.balance_of(&addr(ALICE)), n(0));
    assert_eq!(t.allowance(&addr(ADMIN), &addr(ALICE)), n(0));
    let empty = Token::new("E".to_string(), "E".to_string(), 6, n(0), addr(ADMIN));
    assert_eq!(empty.balance_of(&addr(ADMIN)), n(0));
    assert_eq!(empty.total_supply(), n(0));
}

#[test]
fn transfer_moves_what_the_sender_holds() {
    let mut t = token();
    assert_eq!(t.transfer(addr(ADMIN), addr(ALICE), n(300)), Ok(()));
    assert_eq!(t.balance_of(&addr(ADMIN)), n(700));
    assert_eq!(t.balance_of(&addr(ALICE)), n(300));
    assert_eq!(t.transfer(addr(ALICE), addr(ALICE), n(300)), Ok(()));
    assert_eq!(t.balance_of(&addr(ALICE)), n(300));
    assert_eq!(
        t.transfer(addr(ALICE), addr(BOB), n(301)),
        Err(Cep18Error::InsufficientBalance)
    );
    assert_eq!(t.balance_of(&addr(ALICE)), n(300));
    assert_eq!(t.balance_of(&addr(BOB)), n(0));
    assert_eq!(t.total_supply(), n(1_000));
}

#[test]
fn transfer_from_spends_the_allowance() {
    let mut t = token();
    t.approve(addr(ADMIN), addr(ALICE), n(500));
    assert_eq!(t.allowance(&addr(ADMIN), &addr(ALICE)), n(500));
    assert_eq!(t.allowance(&addr(ALICE), &addr(ADMIN)), n(0));
    assert_eq!(t.transfer_from(addr(ALICE), addr(ADMIN), addr(BOB), n(200)), Ok(()));
    assert_eq!(t.allowance(&addr(ADMIN), &addr(ALICE)), n(300));
    assert_eq!(t.balance_of(&addr(ADMIN)), n(800));
    assert_eq!(t.balance_of(&addr(BOB)), n(200));
    assert_eq!(
        t.transfer_from(addr(ALICE), addr(ADMIN), addr(BOB), n(301)),
        Err(Cep18Error::InsufficientAllowance)
    );
    assert_eq!(
        t.transfer_from(addr(CAROL), addr(ADMIN), addr(BOB), n(1)),
        Err(Cep18Error::InsufficientAllowance)
    );
    assert_eq!(t.allowance(&addr(ADMIN), &addr(ALICE)), n(300));
}

#[test]
fn a_failed_transfer_from_keeps_the_allowance() {
    let mut t = token();
    t.transfer(addr(ADMIN), addr(ALICE), n(10)).unwrap();
    t.approve(addr(ALICE), addr(BOB), n(500));
    assert_eq!(
        t.transfer_from(addr(BOB), addr(ALICE), addr(CAROL), n(11)),
        Err(Cep18Error::InsufficientBalance)
    );
    assert_eq!(t.allowance(&addr(ALICE), &addr(BOB)), n(500));
    assert_eq!(t.balance_of(&addr(ALICE)), n(10));
}

#[test]
fn only_the_administrator_mints_and_burns() {
    let mut t = token();
    assert_eq!(t.mint(addr(ALICE), addr(ALICE), n(5)), Err(Cep18Error::Unauthorized));
    assert_eq!(t.burn(addr(ALICE), addr(ADMIN), n(5)), Err(Cep18Error::Unauthorized));
    assert_eq!(t.mint(addr(ADMIN), addr(ALICE), n(5)), Ok(()));
    assert_eq!(t.balance_of(&addr(ALICE)), n(5));
    assert_eq!(t.total_supply(), n(1_005));
    assert_eq!(t.burn(addr(ADMIN), addr(ALICE), n(6)), Err(Cep18Error::InsufficientBalance));
    assert_eq!(t.burn(addr(ADMIN), addr(ALICE), n(2)), Ok(()));
    assert_eq!(t.balance_of(&addr(ALICE)), n(3));
    assert_eq!(t.total_supply(), n(1_003));
}

#[test]
fn mint_reports_overflow_and_leaves_the_ledger() {
    let mut t = token();
    let max = U256 { limbs: [u64::MAX; 4] };
    assert_eq!(t.mint(addr(ADMIN), addr(ALICE), max), Err(Cep18Error::Overflow));
    assert_eq!(t.mint(addr(ADMIN), addr(ADMIN), max), Err(Cep18Error::Overflow));
    assert_eq!(t.balance_of(&addr(ALICE)), n(0));
    assert_eq!(t.total_supply(), n(1_000));
}

#[test]
fn burn_reports_underflow_where_the_supply_is_below_the_balance() {
    let mut t = token();
    t.total_supply = n(4);
    assert_eq!(t.burn(addr(ADMIN), addr(ADMIN), n(5)), Err(Cep18Error::Underflow));
    assert_eq!(t.balance_of(&addr(ADMIN)), n(1_000));
    assert_eq!(t.total_supply(), n(4));
}
