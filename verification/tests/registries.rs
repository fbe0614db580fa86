use ectoplasm::account::Address;
use ectoplasm::encoding::{allowance_key, base64_encode};
use ectoplasm::error::{ControllerError, FactoryError, PairError, TokenFactoryError};
use ectoplasm::factory::{address_before, key_to_bytes, pair_id, pair_key, sort_tokens, Factory};
use ectoplasm::launchpad_controller::{LaunchpadController, MAX_PLATFORM_FEE_BPS};
use ectoplasm::pair::Pair;
use ectoplasm::token_factory::{check_launch_request, launch_deadline, TokenFactory};
use ectoplasm::uint::{U256, U512};

fn addr(tag: u8) -> Address {
    Address::new([tag; 32])
}

const ADMIN: u8 = 1;
const ALICE: u8 = 10;
const BOB: u8 = 11;

#[test]
fn base64_pads_the_last_group() {
    assert_eq!(base64_encode(b""), "");
    assert_eq!(base64_encode(b"f"), "Zg==");
    assert_eq!(base64_encode(b"fo"), "Zm8=");
    assert_eq!(base64_encode(b"foo"), "Zm9v");
    assert_eq!(base64_encode(b"foob"), "Zm9vYg==");
    assert_eq!(base64_encode(b"fooba"), "Zm9vYmE=");
    assert_eq!(base64_encode(b"foobar"), "Zm9vYmFy");
    assert_eq!(base64_encode(&[0xfb, 0xff, 0xbf]), "+/+/");
    assert_eq!(base64_encode(&[0x00, 0x10, 0x83, 0x10, 0x51, 0x87]), "ABCDEFGH");
}

#[test]
fn an_allowance_is_stored_under_owner_low_line_spender() {
    let key = allowance_key(&addr(0x0a), &addr(0xb0));
    assert_eq!(key.len(), 129);
    assert_eq!(key, format!("{}_{}", "0a".repeat(32), "b0".repeat(32)));
}

#[test]
fn pool_shares_move_on_an_allowance() {
    let mut p = Pair::new(addr(1), addr(2), addr(3));
    p.mint(addr(ALICE), U256::from_u64(10_000), U256::from_u64(10_000)).unwrap();
    assert_eq!(p.name(), "Ectoplasm LP Token");
    assert_eq!(p.symbol(), "ECTO-LP");
    assert_eq!(p.decimals(), 18);
    assert_eq!(p.allowance(&addr(ALICE), &addr(BOB)), U256::zero());
    p.approve(addr(ALICE), addr(BOB), U256::from_u64(100));
    assert_eq!(p.transfer_from(addr(BOB), addr(ALICE), addr(BOB), U256::from_u64(60)), Ok(()));
    assert_eq!(p.balance_of(&addr(BOB)), U256::from_u64(60));
    assert_eq!(p.allowance(&addr(ALICE), &addr(BOB)), U256::from_u64(40));
    assert_eq!(
        p.transfer_from(addr(BOB), addr(ALICE), addr(BOB), U256::from_u64(41)),
        Err(PairError::InsufficientAllowance)
    );
    p.approve(addr(ALICE), addr(BOB), U256::from_u64(1_000_000));
    assert_eq!(
        p.transfer_from(addr(BOB), addr(ALICE), addr(BOB), U256::from_u64(9_000)),
        Err(PairError::InsufficientBalance)
    );
    assert_eq!(p.allowance(&addr(ALICE), &addr(BOB)), U256::from_u64(1_000_000));
}

#[test]
fn a_pool_is_filed_under_the_exclusive_or_of_its_tokens() {
    let a = addr(0x0f);
    let b = addr(0xf1);
    assert_eq!(key_to_bytes(&a), [0x0f; 32]);
    assert_eq!(pair_id(&a, &b), addr(0xfe));
    assert_eq!(pair_id(&b, &a), addr(0xfe));
    assert_eq!(pair_key(&a, &b), "fe".repeat(32));
    assert_eq!(pair_key(&a, &a), "00".repeat(32));
}

#[test]
fn tokens_are_sorted_by_their_bytes() {
    let mut low = [5u8; 32];
    low[31] = 4;
    let low = Address::new(low);
    let high = addr(5);
    assert!(address_before(&low, &high));
    assert!(!address_before(&high, &low));
    assert!(!address_before(&high, &high));
    assert_eq!(sort_tokens(low, high), (low, high));
    assert_eq!(sort_tokens(high, low), (low, high));
    assert_eq!(sort_tokens(addr(0x0a), addr(0x09)), (addr(0x09), addr(0x0a)));
    assert_eq!(sort_tokens(addr(0x10), addr(0x0f)), (addr(0x0f), addr(0x10)));
}

#[test]
fn the_registry_files_each_pair_of_tokens_once() {
    let mut f = Factory::new(addr(ADMIN));
    assert_eq!(f.fee_to(), addr(ADMIN));
    assert_eq!(f.fee_to_setter(), addr(ADMIN));
    assert_eq!(f.all_pairs_length(), 0);
    assert_eq!(f.init(), Ok(()));
    assert_eq!(f.init(), Err(FactoryError::AlreadyInitialized));
    assert_eq!(f.get_pair(&addr(1), &addr(2)), None);
    assert_eq!(f.create_pair(addr(1), addr(2), addr(100)), Ok(addr(100)));
    assert_eq!(f.get_pair(&addr(1), &addr(2)), Some(addr(100)));
    assert_eq!(f.get_pair(&addr(2), &addr(1)), Some(addr(100)));
    assert_eq!(f.create_pair(addr(2), addr(1), addr(101)), Err(FactoryError::PairExists));
    assert_eq!(f.create_pair(addr(1), addr(1), addr(101)), Err(FactoryError::IdenticalAddresses));
    assert_eq!(f.create_pair(addr(1), addr(4), addr(102)), Ok(addr(102)));
    assert_eq!(f.all_pairs_length(), 2);
    assert_eq!(f.all_pairs(0), Ok(Some(addr(100))));
    assert_eq!(f.all_pairs(1), Ok(Some(addr(102))));
    assert_eq!(f.all_pairs(2), Err(FactoryError::IndexOutOfBounds));
    // 1 ^ 2 and 5 ^ 6 are the same key
    assert_eq!(f.create_pair(addr(5), addr(6), addr(103)), Err(FactoryError::PairExists));
}

#[test]
fn only_the_setter_names_the_fee_recipient() {
    let mut f = Factory::new(addr(ADMIN));
    assert_eq!(f.set_fee_to(addr(ALICE), addr(ALICE)), Err(FactoryError::Unauthorized));
    assert_eq!(f.set_fee_to(addr(ADMIN), addr(ALICE)), Ok(()));
    assert_eq!(f.fee_to(), addr(ALICE));
    assert_eq!(f.set_fee_to_setter(addr(ALICE), addr(ALICE)), Err(FactoryError::Unauthorized));
    assert_eq!(f.set_fee_to_setter(addr(ADMIN), addr(BOB)), Ok(()));
    assert_eq!(f.fee_to_setter(), addr(BOB));
    assert_eq!(f.set_fee_to(addr(ADMIN), addr(ADMIN)), Err(FactoryError::Unauthorized));
    assert_eq!(f.set_fee_to(addr(BOB), addr(BOB)), Ok(()));
}

#[test]
fn the_settings_start_from_the_initial_defaults() {
    let c = LaunchpadController::new(addr(ADMIN), None, None, None);
    assert_eq!(c.superadmin(), addr(ADMIN));
    assert_eq!(c.get_defaults(), (U512::from_u64(50_000_000_000_000), 100, 30));
    assert_eq!(c.default_graduation_threshold(), U512::from_u64(50_000_000_000_000));
    assert_eq!(c.default_platform_fee_bps(), 100);
    assert_eq!(c.default_deadline_days(), 30);
    assert_eq!(c.token_factory(), None);
    let c = LaunchpadController::new(addr(ADMIN), Some(U512::from_u64(7)), Some(8), Some(9));
    assert_eq!(c.get_defaults(), (U512::from_u64(7), 8, 9));
    assert_eq!(MAX_PLATFORM_FEE_BPS, 1000);
}

#[test]
fn only_the_superadmin_changes_the_settings_within_their_bounds() {
    let mut c = LaunchpadController::new(addr(ADMIN), None, None, None);
    assert_eq!(c.init(), Ok(()));
    assert_eq!(c.init(), Err(ControllerError::AlreadyInitialized));
    assert_eq!(c.require_superadmin(&addr(ADMIN)), Ok(()));
    assert_eq!(c.require_superadmin(&addr(ALICE)), Err(ControllerError::Unauthorized));
    assert_eq!(
        c.set_default_graduation_threshold(addr(ALICE), U512::from_u64(1)),
        Err(ControllerError::Unauthorized)
    );
    assert_eq!(
        c.set_default_graduation_threshold(addr(ADMIN), U512::zero()),
        Err(ControllerError::InvalidThreshold)
    );
    assert_eq!(c.set_default_graduation_threshold(addr(ADMIN), U512::from_u64(5)), Ok(()));
    assert_eq!(c.set_default_platform_fee(addr(ALICE), 5), Err(ControllerError::Unauthorized));
    assert_eq!(c.set_default_platform_fee(addr(ADMIN), 1001), Err(ControllerError::InvalidFee));
    assert_eq!(c.set_default_platform_fee(addr(ADMIN), 1000), Ok(()));
    assert_eq!(c.set_default_deadline(addr(ALICE), 5), Err(ControllerError::Unauthorized));
    assert_eq!(c.set_default_deadline(addr(ADMIN), 0), Err(ControllerError::InvalidDeadline));
    assert_eq!(c.set_default_deadline(addr(ADMIN), 7), Ok(()));
    assert_eq!(c.get_defaults(), (U512::from_u64(5), 1000, 7));
    assert_eq!(c.set_token_factory(addr(ALICE), addr(9)), Err(ControllerError::Unauthorized));
    assert_eq!(c.set_token_factory(addr(ADMIN), addr(9)), Ok(()));
    assert_eq!(c.token_factory(), Some(addr(9)));
    assert_eq!(c.transfer_superadmin(addr(ALICE), addr(ALICE)), Err(ControllerError::Unauthorized));
    assert_eq!(c.transfer_superadmin(addr(ADMIN), addr(ALICE)), Ok(()));
    assert_eq!(c.superadmin(), addr(ALICE));
    assert_eq!(c.set_default_deadline(addr(ADMIN), 7), Err(ControllerError::Unauthorized));
}

#[test]
fn a_launch_request_is_checked() {
    assert_eq!(check_launch_request("Ghost", "GST", 2), Ok(()));
    assert_eq!(check_launch_request("", "GST", 0), Err(TokenFactoryError::InvalidName));
    assert_eq!(
        check_launch_request(&"x".repeat(51), "GST", 0),
        Err(TokenFactoryError::InvalidName)
    );
    assert_eq!(check_launch_request(&"x".repeat(50), "GST", 0), Ok(()));
    assert_eq!(check_launch_request("Ghost", "", 0), Err(TokenFactoryError::InvalidSymbol));
    assert_eq!(check_launch_request("Ghost", "GHOSTLY", 0), Err(TokenFactoryError::InvalidSymbol));
    assert_eq!(check_launch_request("Ghost", "GHOSTS", 0), Ok(()));
    assert_eq!(check_launch_request("Ghost", "GST", 3), Err(TokenFactoryError::InvalidCurveType));
    assert_eq!(check_launch_request("", "", 9), Err(TokenFactoryError::InvalidName));
}

#[test]
fn a_deadline_is_so_many_days_of_milliseconds_away() {
    assert_eq!(launch_deadline(1_000, 30), Some(1_000 + 30 * 86_400_000));
    assert_eq!(launch_deadline(5, 0), Some(5));
    assert_eq!(launch_deadline(0, u64::MAX), None);
    assert_eq!(launch_deadline(u64::MAX, 1), None);
}

#[test]
fn launches_are_filed_in_order() {
    let mut f = TokenFactory::new(addr(7), addr(8));
    assert_eq!(f.controller(), addr(7));
    assert_eq!(f.platform_wallet(), addr(8));
    assert_eq!(f.init(), Ok(()));
    assert_eq!(f.init(), Err(TokenFactoryError::AlreadyInitialized));
    assert_eq!(f.launch_count(), 0);
    let first = f
        .create_launch(
            addr(ALICE),
            "Ghost".to_string(),
            "GST".to_string(),
            1,
            None,
            None,
            None,
            None,
            None,
            1_000,
        )
        .unwrap();
    assert_eq!(first.launch_id, 0);
    assert_eq!(first.token, addr(0));
    assert_eq!(first.curve, addr(128));
    assert_eq!(first.params.graduation_threshold, U512::from_u64(50_000_000_000_000));
    assert_eq!(first.params.platform_fee_bps, 100);
    assert_eq!(first.params.creator_fee_bps, 0);
    assert_eq!(first.params.deadline, Some(1_000 + 30 * 86_400_000));
    assert_eq!(first.params.total_supply, U256::from_u128(1_000_000_000_000_000_000_000_000));
    assert_eq!(first.params.base_price, U512::from_u64(1_000_000_000));
    assert_eq!(first.params.max_price, U512::from_u64(100_000_000_000));
    assert_eq!(first.params.promo_budget, U512::zero());
    let second = f
        .create_launch(
            addr(BOB),
            "Wisp".to_string(),
            "WSP".to_string(),
            0,
            Some(U512::from_u64(9)),
            Some(25),
            Some(2),
            Some(U512::from_u64(77)),
            Some((U512::from_u64(1), 200, 3)),
            5,
        )
        .unwrap();
    assert_eq!(second.launch_id, 1);
    assert_eq!(second.token, addr(1));
    assert_eq!(second.curve, addr(129));
    assert_eq!(second.params.graduation_threshold, U512::from_u64(9));
    assert_eq!(second.params.platform_fee_bps, 200);
    assert_eq!(second.params.creator_fee_bps, 25);
    assert_eq!(second.params.deadline, Some(5 + 2 * 86_400_000));
    assert_eq!(second.params.promo_budget, U512::from_u64(77));
    assert_eq!(f.launch_count(), 2);
    assert_eq!(f.get_launch(0), Ok(Some((addr(0), addr(128), addr(ALICE)))));
    assert_eq!(f.get_launch(1), Ok(Some((addr(1), addr(129), addr(BOB)))));
    assert_eq!(f.get_launch(2), Err(TokenFactoryError::IndexOutOfBounds));
    assert_eq!(
        f.get_launch_meta(1),
        Ok(Some(("Wisp".to_string(), "WSP".to_string(), (0, 0, 5))))
    );
    assert_eq!(f.get_launch_meta(2), Err(TokenFactoryError::IndexOutOfBounds));
    assert_eq!(f.get_launch_by_token(&addr(1)), Some(1));
    assert_eq!(f.get_launch_by_token(&addr(2)), None);
    assert_eq!(f.update_launch_status(1, 2), Ok(()));
    assert_eq!(f.update_launch_status(2, 2), Err(TokenFactoryError::IndexOutOfBounds));
    assert_eq!(f.get_launch_meta(1).unwrap().unwrap().2, (0, 0, 5));
}

#[test]
fn a_refused_launch_files_nothing() {
    let mut f = TokenFactory::new(addr(7), addr(8));
    let r = f.create_launch(
        addr(ALICE),
        "Ghost".to_string(),
        "GST".to_string(),
        3,
        None,
        None,
        None,
        None,
        None,
        1_000,
    );
    assert!(matches!(r, Err(TokenFactoryError::InvalidCurveType)));
    assert_eq!(f.launch_count(), 0);
}

#[test]
fn launches_are_listed_in_pages() {
    let mut f = TokenFactory::new(addr(7), addr(8));
    for _ in 0..5 {
        f.create_launch(
            addr(ALICE),
            "Ghost".to_string(),
            "GST".to_string(),
            0,
            None,
            None,
            None,
            None,
            None,
            0,
        )
        .unwrap();
    }
    assert_eq!(f.get_launches(0, 10, None), vec![0, 1, 2, 3, 4]);
    assert_eq!(f.get_launches(1, 2, None), vec![1, 2]);
    assert_eq!(f.get_launches(3, 2, Some(1)), vec![3, 4]);
    assert_eq!(f.get_launches(4, 2, None), vec![4]);
    assert_eq!(f.get_launches(5, 2, None), Vec::<u64>::new());
    assert_eq!(f.get_launches(9, 2, None), Vec::<u64>::new());
    assert_eq!(f.get_launches(0, 0, None), Vec::<u64>::new());
    assert_eq!(f.get_launches(2, u64::MAX, None), vec![2, 3, 4]);
}
