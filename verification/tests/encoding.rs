use ectoplasm::account::{AccountMap, Address};
use ectoplasm::encoding::{hex_char, hex_encode, key_to_str};
use ectoplasm::error::{BondingCurveError, Cep18Error, PairError, RouterError};

#[test]
fn hex_digits_are_lower_case() {
    let digits: Vec<char> = (0u8..16).map(hex_char).collect();
    assert_eq!(digits.iter().collect::<String>(), "0123456789abcdef");
    assert_eq!(hex_char(16), '0');
    assert_eq!(hex_char(255), '0');
}

#[test]
fn hex_encode_writes_two_digits_a_byte() {
    assert_eq!(hex_encode(&[]), "");
    assert_eq!(hex_encode(&[0x00, 0x0f, 0xf0, 0xff, 0x5a]), "000ff0ff5a");
    assert_eq!(hex_encode(&[0xde, 0xad, 0xbe, 0xef]), "deadbeef");
}

#[test]
fn an_address_is_stored_under_its_hexadecimal_form() {
    let mut bytes = [0u8; 32];
    bytes[0] = 0xab;
    bytes[31] = 0x01;
    let text = key_to_str(&Address::new(bytes));
    assert_eq!(text.len(), 64);
    assert!(text.starts_with("ab00"));
    assert!(text.ends_with("0001"));
    assert_eq!(key_to_str(&Address::zero()), "0".repeat(64));
}

#[test]
fn addresses_compare_by_their_bytes() {
    let a = Address::new([1; 32]);
    let mut other = [1u8; 32];
    other[31] = 2;
    let b = Address::new(other);
    assert!(a.same(&a));
    assert!(a.same(&Address::new([1; 32])));
    assert!(!a.same(&b));
    assert!(!b.same(&a));
    assert!(Address::zero().same(&Address::new([0; 32])));
}

#[test]
fn a_ledger_keeps_the_last_value_set_for_each_address() {
    let a = Address::new([1; 32]);
    let b = Address::new([2; 32]);
    let mut ledger: AccountMap<u64> = AccountMap::new();
    assert_eq!(ledger.get(&a), None);
    ledger.insert(a, 5);
    ledger.insert(b, 7);
    assert_eq!(ledger.get(&a), Some(5));
    assert_eq!(ledger.get(&b), Some(7));
    ledger.insert(a, 9);
    assert_eq!(ledger.get(&a), Some(9));
    assert_eq!(ledger.get(&b), Some(7));
    assert_eq!(ledger.get(&Address::zero()), None);
}

#[test]
fn every_failure_has_its_own_code() {
    let sale = [
        BondingCurveError::AlreadyInitialized,
        BondingCurveError::NotInitialized,
        BondingCurveError::Unauthorized,
        BondingCurveError::InsufficientPayment,
        BondingCurveError::InsufficientTokens,
        BondingCurveError::InsufficientLiquidity,
        BondingCurveError::CurveNotActive,
        BondingCurveError::CurveAlreadyGraduated,
        BondingCurveError::GraduationThresholdNotMet,
        BondingCurveError::RefundNotAvailable,
        BondingCurveError::DeadlineNotReached,
        BondingCurveError::NoRefundAvailable,
        BondingCurveError::InvalidCurveType,
        BondingCurveError::InvalidAmount,
        BondingCurveError::TransferFailed,
        BondingCurveError::MilestoneNotUnlocked,
        BondingCurveError::NoPromoToWithdraw,
        BondingCurveError::Overflow,
        BondingCurveError::DivisionByZero,
        BondingCurveError::LockedReentrancy,
    ];
    for (i, e) in sale.iter().enumerate() {
        assert_eq!(e.code() as usize, i + 1);
    }
    let token = [
        Cep18Error::InsufficientBalance,
        Cep18Error::InsufficientAllowance,
        Cep18Error::Unauthorized,
        Cep18Error::Overflow,
        Cep18Error::Underflow,
    ];
    for (i, e) in token.iter().enumerate() {
        assert_eq!(e.code() as usize, i + 1);
    }
    let pool = [
        PairError::InsufficientBalance,
        PairError::InsufficientAllowance,
        PairError::InsufficientLiquidity,
        PairError::InsufficientInputAmount,
        PairError::InsufficientOutputAmount,
        PairError::InsufficientLiquidityMinted,
        PairError::InsufficientLiquidityBurned,
        PairError::InvalidTo,
        PairError::K,
        PairError::Locked,
        PairError::Overflow,
    ];
    for (i, e) in pool.iter().enumerate() {
        assert_eq!(e.code() as usize, i + 1);
    }
    let router = [
        RouterError::Expired,
        RouterError::InsufficientAAmount,
        RouterError::InsufficientBAmount,
        RouterError::InsufficientOutputAmount,
        RouterError::ExcessiveInputAmount,
        RouterError::InvalidPath,
        RouterError::PairNotFound,
        RouterError::InsufficientLiquidity,
    ];
    for (i, e) in router.iter().enumerate() {
        assert_eq!(e.code() as usize, i + 1);
    }
}
