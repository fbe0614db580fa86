//! The state machine of one token sale on a bonding curve.
//!
//! A sale is active until it graduates or, once its deadline has passed with
//! the threshold unmet, starts refunding. Every operation either fails and
//! leaves the sale as it was, or succeeds and says what the host has to move:
//! the sale itself moves no funds and no tokens.
//!
//! `buy`, `sell`, `claim_refund` and `graduate` are guarded by a lock. An
//! operation that hands work to the host returns with the lock held; the host
//! releases it with `unlock` once that work is done.

use crate::account::{
    ledger_sum, lemma_ledger_sum_empty, lemma_ledger_sum_insert, AccountMap, Address,
};
use crate::curves::{
    checked_cspr_for_tokens, checked_price, checked_tokens_for_cspr, cspr_for_tokens,
    cspr_for_tokens_fits, lemma_price_monotone, price, price_fits, tokens_for_cspr,
    tokens_for_cspr_fits, CurveType,
};
use crate::error::BondingCurveError;
use crate::uint::{min_nat, pow2_256, pow2_512, U256, U512};
use vstd::prelude::*;

verus! {

/// Where a sale stands.
#[derive(Clone, Copy, PartialEq, Eq, Structural, Debug)]
pub enum Status {
    Active,
    Graduated,
    Refunding,
}

impl Status {
    /// The status that an identifier names: 0 active, 1 graduated, 2 refunding.
    pub open spec fn spec_from_u8(value: u8) -> Option<Status> {
        match value {
            0u8 => Some(Status::Active),
            1u8 => Some(Status::Graduated),
            2u8 => Some(Status::Refunding),
            _ => None,
        }
    }

    /// Decodes a stored status identifier.
    #[verifier::when_used_as_spec(spec_from_u8)]
    pub fn from_u8(value: u8) -> (status: Option<Status>)
        ensures
            status == Status::spec_from_u8(value),
    {
        match value {
            0 => Some(Status::Active),
            1 => Some(Status::Graduated),
            2 => Some(Status::Refunding),
            _ => None,
        }
    }

    /// The identifier under which the status is stored.
    pub fn to_u8(self) -> (value: u8)
        ensures
            Status::spec_from_u8(value) == Some(self),
    {
        match self {
            Status::Active => 0,
            Status::Graduated => 1,
            Status::Refunding => 2,
        }
    }
}

/// The denominator of a fee rate: rates are given in hundredths of a percent.
pub const BPS_DENOMINATOR: u64 = 10000;

/// A sale as plain numbers.
pub ghost struct MarketState {
    pub token_hash: Address,
    pub creator: Address,
    pub platform_wallet: Address,
    pub curve_type: CurveType,
    pub graduation_threshold: nat,
    pub platform_fee_bps: nat,
    pub creator_fee_bps: nat,
    pub deadline: nat,
    pub cspr_raised: nat,
    pub tokens_sold: nat,
    pub total_supply: nat,
    pub base_price: nat,
    pub max_price: nat,
    pub status: Status,
    pub purchases: Map<Address, nat>,
    pub promo_budget: nat,
    pub promo_released: nat,
    pub accumulated_fees: nat,
    pub locked: bool,
    pub initialized: bool,
}

/// One token sale.
pub struct BondingCurve {
    pub token_hash: Address,
    pub creator: Address,
    pub platform_wallet: Address,
    pub curve_type: CurveType,
    pub graduation_threshold: U512,
    pub platform_fee_bps: u64,
    pub creator_fee_bps: u64,
    pub deadline: u64,
    pub cspr_raised: U512,
    pub tokens_sold: U256,
    pub total_supply: U256,
    pub base_price: U512,
    pub max_price: U512,
    pub status: Status,
    pub purchases: AccountMap<U512>,
    pub promo_budget: U512,
    pub promo_released: U512,
    pub accumulated_fees: U512,
    pub locked: bool,
    pub initialized: bool,
}

impl View for BondingCurve {
    type V = MarketState;

    open spec fn view(&self) -> MarketState {
        MarketState {
            token_hash: self.token_hash,
            creator: self.creator,
            platform_wallet: self.platform_wallet,
            curve_type: self.curve_type,
            graduation_threshold: self.graduation_threshold@,
            platform_fee_bps: self.platform_fee_bps as nat,
            creator_fee_bps: self.creator_fee_bps as nat,
            deadline: self.deadline as nat,
            cspr_raised: self.cspr_raised@,
            tokens_sold: self.tokens_sold@,
            total_supply: self.total_supply@,
            base_price: self.base_price@,
            max_price: self.max_price@,
            status: self.status,
            purchases: self.purchases@.map_values(|v: U512| v@),
            promo_budget: self.promo_budget@,
            promo_released: self.promo_released@,
            accumulated_fees: self.accumulated_fees@,
            locked: self.locked,
            initialized: self.initialized,
        }
    }
}

/// The fee on an amount at a rate in hundredths of a percent.
pub open spec fn fee(amount: nat, bps: nat) -> nat {
    amount * bps / 10000
}

/// Whether both fees on an amount can be computed and taken off it.
pub open spec fn fees_fit(amount: nat, platform_bps: nat, creator_bps: nat) -> bool {
    &&& amount * platform_bps < pow2_512()
    &&& amount * creator_bps < pow2_512()
    &&& fee(amount, platform_bps) + fee(amount, creator_bps) <= amount
}

/// What is left of an amount after both fees.
pub open spec fn net_of_fees(amount: nat, platform_bps: nat, creator_bps: nat) -> nat {
    (amount - fee(amount, platform_bps) - fee(amount, creator_bps)) as nat
}

/// An amount split into the platform's fee, the creator's fee and the rest.
#[derive(Clone, Copy, Debug)]
pub struct FeeSplit {
    pub platform_fee: U512,
    pub creator_fee: U512,
    pub net: U512,
}

/// Splits an amount into the two fees and the rest, or `None` where
/// `fees_fit` fails.
pub fn split_fees(amount: U512, platform_fee_bps: u64, creator_fee_bps: u64) -> (r: Option<
    FeeSplit,
>)
    ensures
        r is Some <==> fees_fit(amount@, platform_fee_bps as nat, creator_fee_bps as nat),
        r is Some ==> {
            &&& r->Some_0.platform_fee@ == fee(amount@, platform_fee_bps as nat)
            &&& r->Some_0.creator_fee@ == fee(amount@, creator_fee_bps as nat)
            &&& r->Some_0.net@ == net_of_fees(
                amount@,
                platform_fee_bps as nat,
                creator_fee_bps as nat,
            )
        },
{
    let denominator = U512::from_u64(BPS_DENOMINATOR);
    let platform_scaled = match amount.checked_mul(U512::from_u64(platform_fee_bps)) {
        Some(v) => v,
        None => { return None; },
    };
    let platform_fee = match platform_scaled.checked_div(denominator) {
        Some(v) => v,
        None => { return None; },
    };
    let creator_scaled = match amount.checked_mul(U512::from_u64(creator_fee_bps)) {
        Some(v) => v,
        None => { return None; },
    };
    let creator_fee = match creator_scaled.checked_div(denominator) {
        Some(v) => v,
        None => { return None; },
    };
    let after_platform = match amount.checked_sub(platform_fee) {
        Some(v) => v,
        None => { return None; },
    };
    let net = match after_platform.checked_sub(creator_fee) {
        Some(v) => v,
        None => { return None; },
    };
    Some(FeeSplit { platform_fee, creator_fee, net })
}

impl MarketState {
    /// What an account has paid into the curve and can claim back.
    pub open spec fn contributed(self, who: Address) -> nat {
        if self.purchases.contains_key(who) {
            self.purchases[who]
        } else {
            0
        }
    }

    /// The invariant of the ledger: no more is sold than exists, and no more
    /// of the promotion budget is released than was set aside.
    pub open spec fn well_formed(self) -> bool {
        &&& self.tokens_sold <= self.total_supply
        &&& self.promo_released <= self.promo_budget
    }

    /// The same sale with the lock released.
    pub open spec fn unlocked(self) -> MarketState {
        MarketState { locked: false, ..self }
    }
}

impl BondingCurve {
    /// A new sale: active, nothing sold, nothing raised, not yet initialised.
    /// Fails with `InvalidCurveType` where the identifier names no shape.
    pub fn new(
        token_hash: Address,
        creator: Address,
        curve_type: u8,
        graduation_threshold: U512,
        platform_fee_bps: u64,
        creator_fee_bps: u64,
        deadline: u64,
        total_supply: U256,
        base_price: U512,
        max_price: U512,
        promo_budget: U512,
        platform_wallet: Address,
    ) -> (r: Result<BondingCurve, BondingCurveError>)
        ensures
            match r {
                Ok(curve) => CurveType::from_u8(curve_type) == Some(curve@.curve_type) && curve@
                    == (MarketState {
                    token_hash,
                    creator,
                    platform_wallet,
                    curve_type: curve@.curve_type,
                    graduation_threshold: graduation_threshold@,
                    platform_fee_bps: platform_fee_bps as nat,
                    creator_fee_bps: creator_fee_bps as nat,
                    deadline: deadline as nat,
                    cspr_raised: 0,
                    tokens_sold: 0,
                    total_supply: total_supply@,
                    base_price: base_price@,
                    max_price: max_price@,
                    status: Status::Active,
                    purchases: Map::empty(),
                    promo_budget: promo_budget@,
                    promo_released: 0,
                    accumulated_fees: 0,
                    locked: false,
                    initialized: false,
                }),
                Err(e) => e == BondingCurveError::InvalidCurveType && curve_type > 2,
            },
    {
        let shape = match CurveType::from_u8(curve_type) {
            Some(shape) => shape,
            None => { return Err(BondingCurveError::InvalidCurveType); },
        };
        let curve = BondingCurve {
            token_hash,
            creator,
            platform_wallet,
            curve_type: shape,
            graduation_threshold,
            platform_fee_bps,
            creator_fee_bps,
            deadline,
            cspr_raised: U512::zero(),
            tokens_sold: U256::zero(),
            total_supply,
            base_price,
            max_price,
            status: Status::Active,
            purchases: AccountMap::new(),
            promo_budget,
            promo_released: U512::zero(),
            accumulated_fees: U512::zero(),
            locked: false,
            initialized: false,
        };
        assert(curve@.purchases =~= Map::empty());
        Ok(curve)
    }

    /// Marks the sale as set up; fails with `AlreadyInitialized` the second time.
    pub fn init(&mut self) -> (r: Result<(), BondingCurveError>)
        ensures
            match r {
                Ok(()) => !old(self)@.initialized && final(self)@ == (MarketState {
                    initialized: true,
                    ..old(self)@
                }),
                Err(e) => e == BondingCurveError::AlreadyInitialized && old(self)@.initialized
                    && final(self)@ == old(self)@,
            },
    {
        if self.initialized {
            return Err(BondingCurveError::AlreadyInitialized);
        }
        self.initialized = true;
        Ok(())
    }

    /// The token that is sold.
    pub fn token_hash(&self) -> (r: Address)
        ensures
            r == self@.token_hash,
    {
        self.token_hash
    }

    /// The account that launched the sale.
    pub fn creator(&self) -> (r: Address)
        ensures
            r == self@.creator,
    {
        self.creator
    }

    /// The account that receives the platform's fees.
    pub fn platform_wallet(&self) -> (r: Address)
        ensures
            r == self@.platform_wallet,
    {
        self.platform_wallet
    }

    /// The identifier of the curve's shape.
    pub fn curve_type(&self) -> (r: u8)
        ensures
            CurveType::from_u8(r) == Some(self@.curve_type),
    {
        self.curve_type.to_u8()
    }

    /// The funds that the sale has to raise to graduate.
    pub fn graduation_threshold(&self) -> (r: U512)
        ensures
            r@ == self@.graduation_threshold,
    {
        self.graduation_threshold
    }

    /// The funds that are in the curve.
    pub fn cspr_raised(&self) -> (r: U512)
        ensures
            r@ == self@.cspr_raised,
    {
        self.cspr_raised
    }

    /// The tokens that are sold.
    pub fn tokens_sold(&self) -> (r: U256)
        ensures
            r@ == self@.tokens_sold,
    {
        self.tokens_sold
    }

    /// The tokens that the curve sells in all.
    pub fn total_supply(&self) -> (r: U256)
        ensures
            r@ == self@.total_supply,
    {
        self.total_supply
    }

    /// The identifier of the status: 0 active, 1 graduated, 2 refunding.
    pub fn status(&self) -> (r: u8)
        ensures
            r == (match self@.status {
                Status::Active => 0u8,
                Status::Graduated => 1u8,
                Status::Refunding => 2u8,
            }),
    {
        self.status.to_u8()
    }

    /// The creator's fees that wait to be withdrawn.
    pub fn accumulated_fees(&self) -> (r: U512)
        ensures
            r@ == self@.accumulated_fees,
    {
        self.accumulated_fees
    }

    /// What an account can claim back.
    pub fn contributed(&self, who: &Address) -> (r: U512)
        ensures
            r@ == self@.contributed(*who),
    {
        match self.purchases.get(who) {
            Some(v) => v,
            None => U512::zero(),
        }
    }

    /// Whether a guarded operation is under way.
    pub fn is_locked(&self) -> (r: bool)
        ensures
            r == self@.locked,
    {
        self.locked
    }

    /// Fails with `CurveNotActive` unless the sale is active.
    pub fn require_active(&self) -> (r: Result<(), BondingCurveError>)
        ensures
            r == (if self@.status == Status::Active {
                Ok::<(), BondingCurveError>(())
            } else {
                Err(BondingCurveError::CurveNotActive)
            }),
    {
        match self.status {
            Status::Active => Ok(()),
            _ => Err(BondingCurveError::CurveNotActive),
        }
    }

    /// Fails with `LockedReentrancy` while a guarded operation is under way.
    pub fn require_unlocked(&self) -> (r: Result<(), BondingCurveError>)
        ensures
            r == (if self@.locked {
                Err::<(), BondingCurveError>(BondingCurveError::LockedReentrancy)
            } else {
                Ok(())
            }),
    {
        if self.locked {
            Err(BondingCurveError::LockedReentrancy)
        } else {
            Ok(())
        }
    }

    /// Takes the lock.
    pub fn lock(&mut self)
        ensures
            final(self)@ == (MarketState { locked: true, ..old(self)@ }),
    {
        self.locked = true;
    }

    /// Releases the lock.
    pub fn unlock(&mut self)
        ensures
            final(self)@ == old(self)@.unlocked(),
    {
        self.locked = false;
    }
}

/// How far the funds raised have come towards the threshold, in units of
/// which `whole` make the full way, and never more than `whole`. Zero where
/// the threshold is zero.
pub open spec fn capped_progress(raised: nat, threshold: nat, whole: nat) -> nat {
    if threshold == 0 {
        0
    } else {
        min_nat(raised * whole / threshold, whole)
    }
}

/// The share of the promotion budget, in percent, that a progress in percent
/// entitles the creator to: the highest of 25, 50, 75 and 100 that is reached.
pub open spec fn entitled_percent(percent: nat) -> nat {
    if percent >= 100 {
        100
    } else if percent >= 75 {
        75
    } else if percent >= 50 {
        50
    } else if percent >= 25 {
        25
    } else {
        0
    }
}

/// The milestone, in percent, that comes after a progress in percent.
pub open spec fn next_milestone(percent: nat) -> nat {
    if percent >= 75 {
        100
    } else if percent >= 50 {
        75
    } else if percent >= 25 {
        50
    } else {
        25
    }
}

/// `capped_progress`, or `None` where the funds raised times `whole` do not
/// fit in 512 bits.
fn checked_capped_progress(raised: U512, threshold: U512, whole: u64) -> (r: Option<u64>)
    ensures
        r is Some <==> threshold@ == 0 || raised@ * whole < pow2_512(),
        r is Some ==> r->Some_0 == capped_progress(raised@, threshold@, whole as nat),
{
    if threshold.is_zero() {
        return Some(0);
    }
    let scaled = match raised.checked_mul(U512::from_u64(whole)) {
        Some(v) => v,
        None => { return None; },
    };
    let ratio = match scaled.checked_div(threshold) {
        Some(v) => v,
        None => { return None; },
    };
    if ratio.lt(&U512::from_u64(whole)) {
        ratio.to_u64()
    } else {
        Some(whole)
    }
}

/// What a purchase hands to the host: the tokens to mint to the buyer and the
/// fee to pay to the platform wallet.
#[derive(Clone, Copy, Debug)]
pub struct BuyReceipt {
    pub tokens: U256,
    pub platform_fee: U512,
}

/// What a sale hands to the host: the tokens to burn from the seller, then,
/// after `settle_sell`, the funds to pay to the seller and the fee to pay to
/// the platform wallet.
#[derive(Clone, Copy, Debug)]
pub struct SellReceipt {
    pub token_amount: U256,
    pub cspr_raw: U512,
    pub platform_fee: U512,
    pub creator_fee: U512,
    pub cspr_to_return: U512,
}

impl MarketState {
    /// The spot price.
    pub open spec fn spot_price(self) -> nat {
        price(self.curve_type, self.tokens_sold, self.total_supply, self.base_price, self.max_price)
    }

    /// Whether the spot price can be computed.
    pub open spec fn spot_price_fits(self) -> bool {
        price_fits(
            self.curve_type,
            self.tokens_sold,
            self.total_supply,
            self.base_price,
            self.max_price,
        )
    }

    /// The tokens that a payment buys once the fees are taken off it.
    pub open spec fn tokens_for(self, net: nat) -> nat {
        tokens_for_cspr(
            self.curve_type,
            net,
            self.tokens_sold,
            self.total_supply,
            self.base_price,
            self.max_price,
        )
    }

    /// Whether `tokens_for` can be computed.
    pub open spec fn tokens_for_fits(self, net: nat) -> bool {
        tokens_for_cspr_fits(
            self.curve_type,
            net,
            self.tokens_sold,
            self.total_supply,
            self.base_price,
            self.max_price,
        )
    }

    /// The funds that the curve pays for tokens before fees.
    pub open spec fn cspr_for(self, tokens: nat) -> nat {
        cspr_for_tokens(
            self.curve_type,
            tokens,
            self.tokens_sold,
            self.total_supply,
            self.base_price,
            self.max_price,
        )
    }

    /// Whether `cspr_for` can be computed.
    pub open spec fn cspr_for_fits(self, tokens: nat) -> bool {
        cspr_for_tokens_fits(
            self.curve_type,
            tokens,
            self.tokens_sold,
            self.total_supply,
            self.base_price,
            self.max_price,
        )
    }

    /// What is left of a payment for the curve.
    pub open spec fn buy_net(self, amount: nat) -> nat {
        net_of_fees(amount, self.platform_fee_bps, self.creator_fee_bps)
    }

    /// The tokens that a payment buys.
    pub open spec fn buy_tokens(self, amount: nat) -> nat {
        self.tokens_for(self.buy_net(amount))
    }

    /// Whether the fees and the tokens of a purchase can be computed.
    pub open spec fn buy_quote_fits(self, amount: nat) -> bool {
        &&& fees_fit(amount, self.platform_fee_bps, self.creator_fee_bps)
        &&& self.tokens_for_fits(self.buy_net(amount))
    }

    /// Whether the ledger can take a purchase: every new total fits its type.
    pub open spec fn buy_update_fits(self, caller: Address, amount: nat) -> bool {
        &&& self.tokens_sold + self.buy_tokens(amount) < pow2_256()
        &&& self.cspr_raised + self.buy_net(amount) < pow2_512()
        &&& self.accumulated_fees + fee(amount, self.creator_fee_bps) < pow2_512()
        &&& self.contributed(caller) + self.buy_net(amount) < pow2_512()
    }

    /// Why a purchase fails, or `None` where it succeeds.
    pub open spec fn buy_error(self, caller: Address, amount: nat) -> Option<BondingCurveError> {
        if self.status != Status::Active {
            Some(BondingCurveError::CurveNotActive)
        } else if self.locked {
            Some(BondingCurveError::LockedReentrancy)
        } else if amount == 0 {
            Some(BondingCurveError::InvalidAmount)
        } else if !self.buy_quote_fits(amount) {
            Some(BondingCurveError::Overflow)
        } else if self.buy_tokens(amount) == 0 {
            Some(BondingCurveError::InvalidAmount)
        } else if self.buy_tokens(amount) + self.tokens_sold > self.total_supply {
            Some(BondingCurveError::InsufficientLiquidity)
        } else if !self.buy_update_fits(caller, amount) {
            Some(BondingCurveError::Overflow)
        } else {
            None
        }
    }

    /// The sale after a purchase, with the lock held.
    pub open spec fn after_buy(self, caller: Address, amount: nat) -> MarketState {
        MarketState {
            tokens_sold: self.tokens_sold + self.buy_tokens(amount),
            cspr_raised: self.cspr_raised + self.buy_net(amount),
            accumulated_fees: self.accumulated_fees + fee(amount, self.creator_fee_bps),
            purchases: self.purchases.insert(
                caller,
                self.contributed(caller) + self.buy_net(amount),
            ),
            locked: true,
            ..self
        }
    }

    /// What the seller of tokens gets once the fees are taken off.
    pub open spec fn sell_return(self, tokens: nat) -> nat {
        net_of_fees(self.cspr_for(tokens), self.platform_fee_bps, self.creator_fee_bps)
    }

    /// Whether the payment and the fees of a sale can be computed.
    pub open spec fn sell_quote_fits(self, tokens: nat) -> bool {
        &&& self.cspr_for_fits(tokens)
        &&& fees_fit(self.cspr_for(tokens), self.platform_fee_bps, self.creator_fee_bps)
    }

    /// Why a sale cannot be settled, or `None` where it can. A sale is
    /// settled only while it is open: on an active curve whose lock is held.
    pub open spec fn settle_error(self, tokens: nat, cspr_raw: nat, creator_fee: nat) -> Option<
        BondingCurveError,
    > {
        if self.status != Status::Active {
            Some(BondingCurveError::CurveNotActive)
        } else if !self.locked {
            Some(BondingCurveError::LockedReentrancy)
        } else if tokens > self.tokens_sold {
            Some(BondingCurveError::InsufficientTokens)
        } else if self.accumulated_fees + creator_fee >= pow2_512() {
            Some(BondingCurveError::Overflow)
        } else {
            None
        }
    }

    /// The funds that stay in the curve when an amount is taken out: the
    /// difference, or nothing where the amount exceeds them.
    pub open spec fn funds_left(self, cspr_raw: nat) -> nat {
        if cspr_raw <= self.cspr_raised {
            (self.cspr_raised - cspr_raw) as nat
        } else {
            0
        }
    }

    /// The sale after a sale of tokens is settled.
    pub open spec fn after_settle(self, tokens: nat, cspr_raw: nat, creator_fee: nat)
        -> MarketState {
        MarketState {
            tokens_sold: (self.tokens_sold - tokens) as nat,
            cspr_raised: self.funds_left(cspr_raw),
            accumulated_fees: self.accumulated_fees + creator_fee,
            ..self
        }
    }

    /// Why a sale fails, or `None` where it succeeds.
    pub open spec fn sell_error(self, tokens: nat) -> Option<BondingCurveError> {
        if self.status != Status::Active {
            Some(BondingCurveError::CurveNotActive)
        } else if self.locked {
            Some(BondingCurveError::LockedReentrancy)
        } else if tokens == 0 {
            Some(BondingCurveError::InvalidAmount)
        } else if tokens > self.tokens_sold {
            Some(BondingCurveError::InsufficientTokens)
        } else if !self.sell_quote_fits(tokens) {
            Some(BondingCurveError::Overflow)
        } else if self.sell_return(tokens) > self.cspr_raised {
            Some(BondingCurveError::InsufficientLiquidity)
        } else if self.accumulated_fees + fee(self.cspr_for(tokens), self.creator_fee_bps)
            >= pow2_512() {
            Some(BondingCurveError::Overflow)
        } else {
            None
        }
    }

    /// Why a refund fails, or `None` where it succeeds.
    pub open spec fn refund_error(self, caller: Address, now: nat) -> Option<BondingCurveError> {
        if self.locked {
            Some(BondingCurveError::LockedReentrancy)
        } else if self.status == Status::Graduated {
            Some(BondingCurveError::RefundNotAvailable)
        } else if now < self.deadline {
            Some(BondingCurveError::DeadlineNotReached)
        } else if self.status == Status::Active && self.cspr_raised >= self.graduation_threshold {
            Some(BondingCurveError::RefundNotAvailable)
        } else if self.contributed(caller) == 0 {
            Some(BondingCurveError::NoRefundAvailable)
        } else {
            None
        }
    }

    /// The sale after a refund, with the lock held.
    pub open spec fn after_refund(self, caller: Address) -> MarketState {
        MarketState {
            status: Status::Refunding,
            purchases: self.purchases.insert(caller, 0),
            locked: true,
            ..self
        }
    }

    /// Why graduation fails, or `None` where it succeeds.
    pub open spec fn graduate_error(self) -> Option<BondingCurveError> {
        if self.status != Status::Active {
            Some(BondingCurveError::CurveNotActive)
        } else if self.locked {
            Some(BondingCurveError::LockedReentrancy)
        } else if self.cspr_raised < self.graduation_threshold {
            Some(BondingCurveError::GraduationThresholdNotMet)
        } else {
            None
        }
    }

    /// Why a withdrawal of the creator's fees fails, or `None` where it succeeds.
    pub open spec fn withdraw_error(self, caller: Address) -> Option<BondingCurveError> {
        if caller != self.creator {
            Some(BondingCurveError::Unauthorized)
        } else if self.accumulated_fees == 0 {
            Some(BondingCurveError::NoPromoToWithdraw)
        } else {
            None
        }
    }

    /// The progress towards the threshold in percent, at most 100.
    pub open spec fn progress_percent(self) -> nat {
        capped_progress(self.cspr_raised, self.graduation_threshold, 100)
    }

    /// The part of the promotion budget that the progress entitles the creator to.
    pub open spec fn promo_entitled(self) -> nat {
        self.promo_budget * entitled_percent(self.progress_percent()) / 100
    }

    /// The part of the promotion budget that can be claimed now.
    pub open spec fn promo_claimable(self) -> nat {
        if self.promo_entitled() > self.promo_released {
            (self.promo_entitled() - self.promo_released) as nat
        } else {
            0
        }
    }

    /// Whether the claimable part of the promotion budget can be computed.
    pub open spec fn promo_fits(self) -> bool {
        &&& self.graduation_threshold == 0 || self.cspr_raised * 100 < pow2_512()
        &&& self.promo_budget * entitled_percent(self.progress_percent()) < pow2_512()
    }

    /// Why a claim of the promotion budget fails, or `None` where it succeeds.
    pub open spec fn promo_error(self, caller: Address) -> Option<BondingCurveError> {
        if caller != self.creator {
            Some(BondingCurveError::Unauthorized)
        } else if !self.promo_fits() {
            Some(BondingCurveError::Overflow)
        } else if self.promo_claimable() == 0 {
            Some(BondingCurveError::MilestoneNotUnlocked)
        } else {
            None
        }
    }
}

/// What is left of an amount after one fee at the sum of both rates.
pub open spec fn net_of_total_fee(amount: nat, platform_bps: nat, creator_bps: nat) -> nat {
    (amount - fee(amount, platform_bps + creator_bps)) as nat
}

/// Whether `net_of_total_fee` can be computed.
pub open spec fn total_fee_fits(amount: nat, platform_bps: nat, creator_bps: nat) -> bool {
    &&& platform_bps + creator_bps <= u64::MAX
    &&& amount * (platform_bps + creator_bps) < pow2_512()
    &&& fee(amount, platform_bps + creator_bps) <= amount
}

/// Takes one fee at the sum of both rates off an amount, or `None` where
/// `total_fee_fits` fails.
fn take_total_fee(amount: U512, platform_fee_bps: u64, creator_fee_bps: u64) -> (r: Option<U512>)
    ensures
        r is Some <==> total_fee_fits(amount@, platform_fee_bps as nat, creator_fee_bps as nat),
        r is Some ==> r->Some_0@ == net_of_total_fee(
            amount@,
            platform_fee_bps as nat,
            creator_fee_bps as nat,
        ),
{
    let total_fee_bps = match platform_fee_bps.checked_add(creator_fee_bps) {
        Some(v) => v,
        None => { return None; },
    };
    let scaled = match amount.checked_mul(U512::from_u64(total_fee_bps)) {
        Some(v) => v,
        None => { return None; },
    };
    let total_fee = match scaled.checked_div(U512::from_u64(BPS_DENOMINATOR)) {
        Some(v) => v,
        None => { return None; },
    };
    amount.checked_sub(total_fee)
}

impl MarketState {
    /// Whether a quote for a purchase can be computed.
    pub open spec fn quote_buy_fits(self, amount: nat) -> bool {
        &&& total_fee_fits(amount, self.platform_fee_bps, self.creator_fee_bps)
        &&& self.tokens_for_fits(
            net_of_total_fee(amount, self.platform_fee_bps, self.creator_fee_bps),
        )
    }

    /// The tokens quoted for a payment.
    pub open spec fn quote_buy(self, amount: nat) -> nat {
        self.tokens_for(net_of_total_fee(amount, self.platform_fee_bps, self.creator_fee_bps))
    }

    /// Whether a quote for a sale can be computed.
    pub open spec fn quote_sell_fits(self, tokens: nat) -> bool {
        &&& self.cspr_for_fits(tokens)
        &&& total_fee_fits(self.cspr_for(tokens), self.platform_fee_bps, self.creator_fee_bps)
    }

    /// The funds quoted for tokens.
    pub open spec fn quote_sell(self, tokens: nat) -> nat {
        net_of_total_fee(self.cspr_for(tokens), self.platform_fee_bps, self.creator_fee_bps)
    }
}

impl BondingCurve {
    /// The spot price; `Overflow` where it cannot be computed.
    pub fn get_price(&self) -> (r: Result<U512, BondingCurveError>)
        ensures
            match r {
                Ok(v) => self@.spot_price_fits() && v@ == self@.spot_price(),
                Err(e) => !self@.spot_price_fits() && e == BondingCurveError::Overflow,
            },
    {
        match checked_price(
            self.curve_type,
            self.tokens_sold,
            self.total_supply,
            self.base_price,
            self.max_price,
        ) {
            Some(v) => Ok(v),
            None => Err(BondingCurveError::Overflow),
        }
    }

    /// The funds raised, the threshold, and the progress towards it in
    /// hundredths of a percent, at most 10000; `Overflow` where the progress
    /// cannot be computed.
    pub fn get_progress(&self) -> (r: Result<(U512, U512, u64), BondingCurveError>)
        ensures
            match r {
                Ok((raised, threshold, bps)) => {
                    &&& raised@ == self@.cspr_raised
                    &&& threshold@ == self@.graduation_threshold
                    &&& bps == capped_progress(self@.cspr_raised, self@.graduation_threshold, 10000)
                    &&& self@.graduation_threshold == 0 || self@.cspr_raised * 10000 < pow2_512()
                },
                Err(e) => e == BondingCurveError::Overflow && self@.graduation_threshold != 0
                    && self@.cspr_raised * 10000 >= pow2_512(),
            },
    {
        match checked_capped_progress(self.cspr_raised, self.graduation_threshold, 10000) {
            Some(bps) => Ok((self.cspr_raised, self.graduation_threshold, bps)),
            None => Err(BondingCurveError::Overflow),
        }
    }

    /// The promotion budget, what is released of it, and the next milestone in
    /// percent; `Overflow` where the progress cannot be computed.
    pub fn get_promo_status(&self) -> (r: Result<(U512, U512, u8), BondingCurveError>)
        ensures
            match r {
                Ok((budget, released, milestone)) => {
                    &&& budget@ == self@.promo_budget
                    &&& released@ == self@.promo_released
                    &&& milestone == next_milestone(self@.progress_percent())
                    &&& self@.graduation_threshold == 0 || self@.cspr_raised * 100 < pow2_512()
                },
                Err(e) => e == BondingCurveError::Overflow && self@.graduation_threshold != 0
                    && self@.cspr_raised * 100 >= pow2_512(),
            },
    {
        let percent = match checked_capped_progress(
            self.cspr_raised,
            self.graduation_threshold,
            100,
        ) {
            Some(v) => v,
            None => { return Err(BondingCurveError::Overflow); },
        };
        let milestone: u8 = if percent >= 75 {
            100
        } else if percent >= 50 {
            75
        } else if percent >= 25 {
            50
        } else {
            25
        };
        Ok((self.promo_budget, self.promo_released, milestone))
    }

    /// The tokens that a payment would buy, after one fee at the sum of both
    /// rates; `Overflow` where they cannot be computed.
    pub fn get_quote_buy(&self, cspr_amount: U512) -> (r: Result<U256, BondingCurveError>)
        ensures
            match r {
                Ok(tokens) => self@.quote_buy_fits(cspr_amount@) && tokens@ == self@.quote_buy(
                    cspr_amount@,
                ),
                Err(e) => !self@.quote_buy_fits(cspr_amount@) && e == BondingCurveError::Overflow,
            },
    {
        let cspr_after_fee = match take_total_fee(
            cspr_amount,
            self.platform_fee_bps,
            self.creator_fee_bps,
        ) {
            Some(v) => v,
            None => { return Err(BondingCurveError::Overflow); },
        };
        match checked_tokens_for_cspr(
            self.curve_type,
            cspr_after_fee,
            self.tokens_sold,
            self.total_supply,
            self.base_price,
            self.max_price,
        ) {
            Some(tokens) => Ok(tokens),
            None => Err(BondingCurveError::Overflow),
        }
    }

    /// The funds that a sale of tokens would return, after one fee at the sum
    /// of both rates; `Overflow` where they cannot be computed.
    pub fn get_quote_sell(&self, token_amount: U256) -> (r: Result<U512, BondingCurveError>)
        ensures
            match r {
                Ok(cspr) => self@.quote_sell_fits(token_amount@) && cspr@ == self@.quote_sell(
                    token_amount@,
                ),
                Err(e) => !self@.quote_sell_fits(token_amount@) && e
                    == BondingCurveError::Overflow,
            },
    {
        let cspr_raw = match checked_cspr_for_tokens(
            self.curve_type,
            token_amount,
            self.tokens_sold,
            self.total_supply,
            self.base_price,
            self.max_price,
        ) {
            Some(v) => v,
            None => { return Err(BondingCurveError::Overflow); },
        };
        match take_total_fee(cspr_raw, self.platform_fee_bps, self.creator_fee_bps) {
            Some(v) => Ok(v),
            None => Err(BondingCurveError::Overflow),
        }
    }

    /// Buys tokens for `cspr_amount`.
    ///
    /// On success the ledger holds the purchase and the lock is held: the host
    /// pays the platform fee to the platform wallet, mints the tokens to the
    /// buyer, and releases the lock.
    pub fn buy(&mut self, caller: Address, cspr_amount: U512) -> (r: Result<
        BuyReceipt,
        BondingCurveError,
    >)
        ensures
            match r {
                Ok(receipt) => {
                    &&& old(self)@.buy_error(caller, cspr_amount@) is None
                    &&& final(self)@ == old(self)@.after_buy(caller, cspr_amount@)
                    &&& receipt.tokens@ == old(self)@.buy_tokens(cspr_amount@)
                    &&& receipt.platform_fee@ == fee(cspr_amount@, old(self)@.platform_fee_bps)
                },
                Err(e) => old(self)@.buy_error(caller, cspr_amount@) == Some(e) && final(self)@
                    == old(self)@,
            },
            old(self)@.well_formed() ==> final(self)@.well_formed(),
    {
        if let Err(e) = self.require_active() {
            return Err(e);
        }
        if let Err(e) = self.require_unlocked() {
            return Err(e);
        }
        if cspr_amount.is_zero() {
            return Err(BondingCurveError::InvalidAmount);
        }
        let fees = match split_fees(cspr_amount, self.platform_fee_bps, self.creator_fee_bps) {
            Some(v) => v,
            None => { return Err(BondingCurveError::Overflow); },
        };
        let cspr_for_curve = fees.net;
        let tokens_to_buy = match checked_tokens_for_cspr(
            self.curve_type,
            cspr_for_curve,
            self.tokens_sold,
            self.total_supply,
            self.base_price,
            self.max_price,
        ) {
            Some(v) => v,
            None => { return Err(BondingCurveError::Overflow); },
        };
        if tokens_to_buy.is_zero() {
            return Err(BondingCurveError::InvalidAmount);
        }
        proof {
            crate::uint::lemma_u256_bound(self.total_supply);
        }
        let new_tokens_sold = match self.tokens_sold.checked_add(tokens_to_buy) {
            Some(v) => v,
            None => { return Err(BondingCurveError::InsufficientLiquidity); },
        };
        if self.total_supply.lt(&new_tokens_sold) {
            return Err(BondingCurveError::InsufficientLiquidity);
        }
        let new_raised = match self.cspr_raised.checked_add(cspr_for_curve) {
            Some(v) => v,
            None => { return Err(BondingCurveError::Overflow); },
        };
        let new_fees = match self.accumulated_fees.checked_add(fees.creator_fee) {
            Some(v) => v,
            None => { return Err(BondingCurveError::Overflow); },
        };
        let existing = self.contributed(&caller);
        let new_contribution = match existing.checked_add(cspr_for_curve) {
            Some(v) => v,
            None => { return Err(BondingCurveError::Overflow); },
        };
        self.tokens_sold = new_tokens_sold;
        self.cspr_raised = new_raised;
        self.accumulated_fees = new_fees;
        self.purchases.insert(caller, new_contribution);
        self.locked = true;
        proof {
            assert(self@.purchases =~= old(self)@.after_buy(caller, cspr_amount@).purchases);
        }
        Ok(BuyReceipt { tokens: tokens_to_buy, platform_fee: fees.platform_fee })
    }

    /// Opens a sale of `token_amount` back to the curve.
    ///
    /// On success nothing but the lock has changed: the host burns the tokens
    /// from the seller, then calls `settle_sell` with the receipt, pays the
    /// seller and the platform wallet, and releases the lock.
    pub fn sell(&mut self, token_amount: U256) -> (r: Result<SellReceipt, BondingCurveError>)
        ensures
            match r {
                Ok(receipt) => {
                    &&& old(self)@.sell_error(token_amount@) is None
                    &&& final(self)@ == (MarketState { locked: true, ..old(self)@ })
                    &&& receipt.token_amount == token_amount
                    &&& receipt.cspr_raw@ == old(self)@.cspr_for(token_amount@)
                    &&& receipt.platform_fee@ == fee(receipt.cspr_raw@, old(self)@.platform_fee_bps)
                    &&& receipt.creator_fee@ == fee(receipt.cspr_raw@, old(self)@.creator_fee_bps)
                    &&& receipt.cspr_to_return@ == old(self)@.sell_return(token_amount@)
                },
                Err(e) => old(self)@.sell_error(token_amount@) == Some(e) && final(self)@
                    == old(self)@,
            },
    {
        if let Err(e) = self.require_active() {
            return Err(e);
        }
        if let Err(e) = self.require_unlocked() {
            return Err(e);
        }
        if token_amount.is_zero() {
            return Err(BondingCurveError::InvalidAmount);
        }
        if self.tokens_sold.lt(&token_amount) {
            return Err(BondingCurveError::InsufficientTokens);
        }
        let cspr_raw = match checked_cspr_for_tokens(
            self.curve_type,
            token_amount,
            self.tokens_sold,
            self.total_supply,
            self.base_price,
            self.max_price,
        ) {
            Some(v) => v,
            None => { return Err(BondingCurveError::Overflow); },
        };
        let fees = match split_fees(cspr_raw, self.platform_fee_bps, self.creator_fee_bps) {
            Some(v) => v,
            None => { return Err(BondingCurveError::Overflow); },
        };
        if self.cspr_raised.lt(&fees.net) {
            return Err(BondingCurveError::InsufficientLiquidity);
        }
        if self.accumulated_fees.checked_add(fees.creator_fee).is_none() {
            return Err(BondingCurveError::Overflow);
        }
        self.locked = true;
        Ok(
            SellReceipt {
                token_amount,
                cspr_raw,
                platform_fee: fees.platform_fee,
                creator_fee: fees.creator_fee,
                cspr_to_return: fees.net,
            },
        )
    }

    /// Books a sale whose tokens are burnt: takes the tokens and the funds
    /// out of the curve and credits the creator's fee. Where the amount
    /// before fees exceeds the funds in the curve, nothing is left in it.
    /// Fails with `CurveNotActive` or `LockedReentrancy` where no sale is
    /// open: the curve is not active, or the lock is not held.
    pub fn settle_sell(&mut self, receipt: &SellReceipt) -> (r: Result<(), BondingCurveError>)
        ensures
            match r {
                Ok(()) => {
                    &&& old(self)@.settle_error(
                        receipt.token_amount@,
                        receipt.cspr_raw@,
                        receipt.creator_fee@,
                    ) is None
                    &&& final(self)@ == old(self)@.after_settle(
                        receipt.token_amount@,
                        receipt.cspr_raw@,
                        receipt.creator_fee@,
                    )
                },
                Err(e) => old(self)@.settle_error(
                    receipt.token_amount@,
                    receipt.cspr_raw@,
                    receipt.creator_fee@,
                ) == Some(e) && final(self)@ == old(self)@,
            },
            old(self)@.well_formed() ==> final(self)@.well_formed(),
    {
        if let Err(e) = self.require_active() {
            return Err(e);
        }
        if !self.locked {
            return Err(BondingCurveError::LockedReentrancy);
        }
        let new_tokens_sold = match self.tokens_sold.checked_sub(receipt.token_amount) {
            Some(v) => v,
            None => { return Err(BondingCurveError::InsufficientTokens); },
        };
        let new_raised = match self.cspr_raised.checked_sub(receipt.cspr_raw) {
            Some(v) => v,
            None => U512::zero(),
        };
        let new_fees = match self.accumulated_fees.checked_add(receipt.creator_fee) {
            Some(v) => v,
            None => { return Err(BondingCurveError::Overflow); },
        };
        self.tokens_sold = new_tokens_sold;
        self.cspr_raised = new_raised;
        self.accumulated_fees = new_fees;
        Ok(())
    }

    /// Claims back what the caller has paid into a sale whose deadline has
    /// passed with the threshold unmet. The first claim turns an active sale
    /// into a refunding one; an active sale that has raised its threshold
    /// refunds nothing (`RefundNotAvailable`).
    ///
    /// On success the caller's contribution is zero and the lock is held: the
    /// host pays the returned amount to the caller and releases the lock.
    pub fn claim_refund(&mut self, caller: Address, current_time: u64) -> (r: Result<
        U512,
        BondingCurveError,
    >)
        ensures
            match r {
                Ok(amount) => {
                    &&& old(self)@.refund_error(caller, current_time as nat) is None
                    &&& final(self)@ == old(self)@.after_refund(caller)
                    &&& amount@ == old(self)@.contributed(caller)
                },
                Err(e) => old(self)@.refund_error(caller, current_time as nat) == Some(e)
                    && final(self)@ == old(self)@,
            },
            old(self)@.well_formed() ==> final(self)@.well_formed(),
    {
        if let Err(e) = self.require_unlocked() {
            return Err(e);
        }
        match self.status {
            Status::Graduated => { return Err(BondingCurveError::RefundNotAvailable); },
            _ => {},
        }
        if current_time < self.deadline {
            return Err(BondingCurveError::DeadlineNotReached);
        }
        match self.status {
            Status::Active => {
                if !self.cspr_raised.lt(&self.graduation_threshold) {
                    return Err(BondingCurveError::RefundNotAvailable);
                }
            },
            _ => {},
        }
        let purchase_amount = self.contributed(&caller);
        if purchase_amount.is_zero() {
            return Err(BondingCurveError::NoRefundAvailable);
        }
        self.status = Status::Refunding;
        self.purchases.insert(caller, U512::zero());
        self.locked = true;
        proof {
            assert(self@.purchases =~= old(self)@.after_refund(caller).purchases);
        }
        Ok(purchase_amount)
    }

    /// Graduates an active sale that has raised its threshold. Graduation is
    /// final; the lock is taken and released within the call.
    pub fn graduate(&mut self) -> (r: Result<bool, BondingCurveError>)
        ensures
            match r {
                Ok(done) => {
                    &&& done
                    &&& old(self)@.graduate_error() is None
                    &&& final(self)@ == (MarketState { status: Status::Graduated, ..old(self)@ })
                },
                Err(e) => old(self)@.graduate_error() == Some(e) && final(self)@ == old(self)@,
            },
    {
        if let Err(e) = self.require_active() {
            return Err(e);
        }
        if let Err(e) = self.require_unlocked() {
            return Err(e);
        }
        if self.cspr_raised.lt(&self.graduation_threshold) {
            return Err(BondingCurveError::GraduationThresholdNotMet);
        }
        self.status = Status::Graduated;
        Ok(true)
    }

    /// Hands the accumulated fees to the creator: the host pays the returned
    /// amount to the caller.
    pub fn withdraw_fees(&mut self, caller: Address) -> (r: Result<U512, BondingCurveError>)
        ensures
            match r {
                Ok(amount) => {
                    &&& old(self)@.withdraw_error(caller) is None
                    &&& amount@ == old(self)@.accumulated_fees
                    &&& final(self)@ == (MarketState { accumulated_fees: 0, ..old(self)@ })
                },
                Err(e) => old(self)@.withdraw_error(caller) == Some(e) && final(self)@
                    == old(self)@,
            },
    {
        if !caller.same(&self.creator) {
            return Err(BondingCurveError::Unauthorized);
        }
        let accumulated = self.accumulated_fees;
        if accumulated.is_zero() {
            return Err(BondingCurveError::NoPromoToWithdraw);
        }
        self.accumulated_fees = U512::zero();
        Ok(accumulated)
    }

    /// Releases to the creator the part of the promotion budget that the
    /// progress newly entitles them to: the host pays the returned amount to
    /// the caller.
    pub fn claim_promo_milestone(&mut self, caller: Address) -> (r: Result<
        U512,
        BondingCurveError,
    >)
        ensures
            match r {
                Ok(amount) => {
                    &&& old(self)@.promo_error(caller) is None
                    &&& amount@ == old(self)@.promo_claimable()
                    &&& final(self)@ == (MarketState {
                        promo_released: old(self)@.promo_entitled(),
                        ..old(self)@
                    })
                },
                Err(e) => old(self)@.promo_error(caller) == Some(e) && final(self)@ == old(self)@,
            },
            old(self)@.well_formed() ==> final(self)@.well_formed(),
    {
        if !caller.same(&self.creator) {
            return Err(BondingCurveError::Unauthorized);
        }
        let progress_pct = match checked_capped_progress(
            self.cspr_raised,
            self.graduation_threshold,
            100,
        ) {
            Some(v) => v,
            None => { return Err(BondingCurveError::Overflow); },
        };
        let entitled_pct: u64 = if progress_pct >= 100 {
            100
        } else if progress_pct >= 75 {
            75
        } else if progress_pct >= 50 {
            50
        } else if progress_pct >= 25 {
            25
        } else {
            0
        };
        let scaled = match self.promo_budget.checked_mul(U512::from_u64(entitled_pct)) {
            Some(v) => v,
            None => { return Err(BondingCurveError::Overflow); },
        };
        let entitled_amount = match scaled.checked_div(U512::from_u64(100)) {
            Some(v) => v,
            None => { return Err(BondingCurveError::Overflow); },
        };
        let claimable = match entitled_amount.checked_sub(self.promo_released) {
            Some(v) => v,
            None => U512::zero(),
        };
        if claimable.is_zero() {
            return Err(BondingCurveError::MilestoneNotUnlocked);
        }
        proof {
            lemma_entitled_within_budget(self@.promo_budget, entitled_pct as nat);
        }
        self.promo_released = entitled_amount;
        Ok(claimable)
    }
}

/// A share of at most one hundred percent of a budget is within the budget.
pub proof fn lemma_entitled_within_budget(budget: nat, percent: nat)
    requires
        percent <= 100,
    ensures
        budget * percent / 100 <= budget,
{
    assert(budget * percent <= budget * 100) by (nonlinear_arith)
        requires
            percent <= 100,
    ;
    vstd::arithmetic::div_mod::lemma_div_is_ordered(
        (budget * percent) as int,
        (budget * 100) as int,
        100,
    );
    assert(budget * 100 / 100 == budget);
}

/// A contribution is refunded once: after a claim has succeeded and the lock
/// is released, the same account has nothing left, and its next claim, at
/// that time or later, fails with `NoRefundAvailable`.
pub proof fn lemma_refund_only_once(sale: MarketState, caller: Address, now: nat, later: nat)
    requires
        sale.refund_error(caller, now) is None,
        now <= later,
    ensures
        sale.after_refund(caller).contributed(caller) == 0,
        sale.after_refund(caller).unlocked().refund_error(caller, later) == Some(
            BondingCurveError::NoRefundAvailable,
        ),
{
}

/// A sale starts refunding only once its deadline has passed with less
/// raised than graduation asks for.
pub proof fn lemma_refunding_starts_late_and_short(sale: MarketState, caller: Address, now: nat)
    requires
        sale.status == Status::Active,
        sale.refund_error(caller, now) is None,
    ensures
        now >= sale.deadline,
        sale.cspr_raised < sale.graduation_threshold,
        sale.after_refund(caller).status == Status::Refunding,
{
}

/// A sale whose payment after fees is covered goes through, also where the
/// amount before fees is not: the curve is then left with nothing.
pub proof fn lemma_covered_sale_succeeds(sale: MarketState, tokens: nat)
    requires
        sale.status == Status::Active,
        !sale.locked,
        0 < tokens <= sale.tokens_sold,
        sale.sell_quote_fits(tokens),
        sale.sell_return(tokens) <= sale.cspr_raised,
        sale.accumulated_fees + fee(sale.cspr_for(tokens), sale.creator_fee_bps) < pow2_512(),
    ensures
        sale.sell_error(tokens) is None,
        sale.cspr_raised < sale.cspr_for(tokens) ==> sale.funds_left(sale.cspr_for(tokens)) == 0,
{
}

/// A refund touches no contribution but the caller's, and raises none.
pub proof fn lemma_refund_lowers_contributions(sale: MarketState, caller: Address, who: Address)
    ensures
        sale.after_refund(caller).contributed(who) <= sale.contributed(who),
        who != caller ==> sale.after_refund(caller).contributed(who) == sale.contributed(who),
{
}

impl MarketState {
    /// Whether the contributions cover the funds in the curve: finitely many
    /// accounts have contributed, and together no less than the curve holds.
    pub open spec fn funds_accounted(self) -> bool {
        self.purchases.dom().finite() && self.cspr_raised <= ledger_sum(self.purchases)
    }
}

/// A sale with no contribution and no funds has its funds accounted for.
pub proof fn lemma_new_sale_accounts_funds(sale: MarketState)
    requires
        sale.purchases == Map::<Address, nat>::empty(),
        sale.cspr_raised == 0,
    ensures
        sale.funds_accounted(),
        ledger_sum(sale.purchases) == sale.cspr_raised,
{
    lemma_ledger_sum_empty::<Address>();
}

/// A purchase adds what is left of the payment after fees to the funds in the
/// curve and to the sum of the contributions alike.
pub proof fn lemma_buy_accounts_funds(sale: MarketState, caller: Address, amount: nat)
    requires
        sale.purchases.dom().finite(),
    ensures
        sale.after_buy(caller, amount).purchases.dom().finite(),
        sale.after_buy(caller, amount).cspr_raised == sale.cspr_raised + sale.buy_net(amount),
        ledger_sum(sale.after_buy(caller, amount).purchases) == ledger_sum(sale.purchases)
            + sale.buy_net(amount),
        sale.funds_accounted() ==> sale.after_buy(caller, amount).funds_accounted(),
{
    lemma_ledger_sum_insert(
        sale.purchases,
        caller,
        sale.contributed(caller) + sale.buy_net(amount),
    );
}

/// A settled sale of tokens takes funds out of the curve and leaves every
/// contribution as it was.
pub proof fn lemma_settle_accounts_funds(
    sale: MarketState,
    tokens: nat,
    cspr_raw: nat,
    creator_fee: nat,
)
    requires
        sale.funds_accounted(),
    ensures
        sale.after_settle(tokens, cspr_raw, creator_fee).purchases == sale.purchases,
        sale.after_settle(tokens, cspr_raw, creator_fee).cspr_raised <= sale.cspr_raised,
        sale.after_settle(tokens, cspr_raw, creator_fee).funds_accounted(),
{
}

/// A refund takes the caller's contribution, and nothing else, out of the sum
/// of the contributions.
pub proof fn lemma_refund_lowers_sum(sale: MarketState, caller: Address)
    requires
        sale.purchases.dom().finite(),
    ensures
        sale.after_refund(caller).purchases.dom().finite(),
        ledger_sum(sale.after_refund(caller).purchases) + sale.contributed(caller) == ledger_sum(
            sale.purchases,
        ),
{
    lemma_ledger_sum_insert(sale.purchases, caller, 0);
}

/// Graduation is final: on a graduated sale every guarded operation fails.
pub proof fn lemma_graduated_is_final(
    sale: MarketState,
    caller: Address,
    amount: nat,
    tokens: nat,
    now: nat,
)
    requires
        sale.status == Status::Graduated,
    ensures
        sale.buy_error(caller, amount) == Some(BondingCurveError::CurveNotActive),
        sale.sell_error(tokens) == Some(BondingCurveError::CurveNotActive),
        sale.graduate_error() == Some(BondingCurveError::CurveNotActive),
        sale.refund_error(caller, now) is Some,
{
}

/// A refunding sale sells nothing and never graduates, so no contribution
/// grows again.
pub proof fn lemma_refunding_is_closed(sale: MarketState, caller: Address, amount: nat, tokens: nat)
    requires
        sale.status == Status::Refunding,
    ensures
        sale.buy_error(caller, amount) == Some(BondingCurveError::CurveNotActive),
        sale.sell_error(tokens) == Some(BondingCurveError::CurveNotActive),
        sale.graduate_error() == Some(BondingCurveError::CurveNotActive),
        sale.after_refund(caller).status == Status::Refunding,
{
}

/// A sale that was opened can be settled: between `sell` and `settle_sell`
/// only the lock has changed.
pub proof fn lemma_opened_sale_settles(sale: MarketState, tokens: nat)
    requires
        sale.sell_error(tokens) is None,
    ensures
        (MarketState { locked: true, ..sale }).settle_error(
            tokens,
            sale.cspr_for(tokens),
            fee(sale.cspr_for(tokens), sale.creator_fee_bps),
        ) is None,
{
}

/// A purchase never lowers the spot price, and a settled sale of tokens
/// never raises it.
pub proof fn lemma_trades_move_the_price(
    sale: MarketState,
    caller: Address,
    amount: nat,
    tokens: nat,
    cspr_raw: nat,
    creator_fee: nat,
)
    requires
        sale.well_formed(),
    ensures
        sale.buy_error(caller, amount) is None ==> sale.spot_price() <= sale.after_buy(
            caller,
            amount,
        ).spot_price(),
        sale.settle_error(tokens, cspr_raw, creator_fee) is None ==> sale.after_settle(
            tokens,
            cspr_raw,
            creator_fee,
        ).spot_price() <= sale.spot_price(),
{
    if sale.buy_error(caller, amount) is None {
        lemma_price_monotone(
            sale.curve_type,
            sale.tokens_sold,
            sale.tokens_sold + sale.buy_tokens(amount),
            sale.total_supply,
            sale.base_price,
            sale.max_price,
        );
    }
    if sale.settle_error(tokens, cspr_raw, creator_fee) is None {
        lemma_price_monotone(
            sale.curve_type,
            (sale.tokens_sold - tokens) as nat,
            sale.tokens_sold,
            sale.total_supply,
            sale.base_price,
            sale.max_price,
        );
    }
}

/// A purchase never sells more than is left: the tokens of a payment are
/// capped at the unsold supply.
pub proof fn lemma_purchase_within_supply(sale: MarketState, net: nat)
    requires
        sale.tokens_sold <= sale.total_supply,
    ensures
        sale.tokens_sold + sale.tokens_for(net) <= sale.total_supply,
{
}

} // verus!
