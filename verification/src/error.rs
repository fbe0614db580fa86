//! The failures that the operations report, each with its numeric code.

use vstd::prelude::*;

verus! {

/// Failures of a bonding-curve sale.
#[derive(Clone, Copy, PartialEq, Eq, Structural, Debug)]
pub enum BondingCurveError {
    /// The sale was set up before.
    AlreadyInitialized,
    /// The sale was not set up yet.
    NotInitialized,
    /// The caller is not the creator.
    Unauthorized,
    /// The payment does not cover the purchase.
    InsufficientPayment,
    /// More tokens are offered than were sold.
    InsufficientTokens,
    /// The curve cannot cover the amount.
    InsufficientLiquidity,
    /// The sale is no longer active.
    CurveNotActive,
    /// The sale has graduated.
    CurveAlreadyGraduated,
    /// Less was raised than graduation asks for.
    GraduationThresholdNotMet,
    /// A graduated sale refunds nothing.
    RefundNotAvailable,
    /// The deadline has not passed.
    DeadlineNotReached,
    /// The caller has no contribution left.
    NoRefundAvailable,
    /// The identifier names no curve shape.
    InvalidCurveType,
    /// The amount is zero or buys nothing.
    InvalidAmount,
    /// A transfer of funds failed.
    TransferFailed,
    /// No promotion milestone is newly reached.
    MilestoneNotUnlocked,
    /// There is nothing to withdraw.
    NoPromoToWithdraw,
    /// A quantity left the range of its type.
    Overflow,
    /// A divisor was zero.
    DivisionByZero,
    /// The lock is not as the operation needs it: a guarded operation is
    /// already under way, or a settlement finds none open.
    LockedReentrancy,
}

impl BondingCurveError {
    /// The numeric code under which the failure is reported.
    pub open spec fn spec_code(self) -> u16 {
        match self {
            BondingCurveError::AlreadyInitialized => 1u16,
            BondingCurveError::NotInitialized => 2u16,
            BondingCurveError::Unauthorized => 3u16,
            BondingCurveError::InsufficientPayment => 4u16,
            BondingCurveError::InsufficientTokens => 5u16,
            BondingCurveError::InsufficientLiquidity => 6u16,
            BondingCurveError::CurveNotActive => 7u16,
            BondingCurveError::CurveAlreadyGraduated => 8u16,
            BondingCurveError::GraduationThresholdNotMet => 9u16,
            BondingCurveError::RefundNotAvailable => 10u16,
            BondingCurveError::DeadlineNotReached => 11u16,
            BondingCurveError::NoRefundAvailable => 12u16,
            BondingCurveError::InvalidCurveType => 13u16,
            BondingCurveError::InvalidAmount => 14u16,
            BondingCurveError::TransferFailed => 15u16,
            BondingCurveError::MilestoneNotUnlocked => 16u16,
            BondingCurveError::NoPromoToWithdraw => 17u16,
            BondingCurveError::Overflow => 18u16,
            BondingCurveError::DivisionByZero => 19u16,
            BondingCurveError::LockedReentrancy => 20u16,
        }
    }

    /// The numeric code under which the failure is reported.
    pub fn code(self) -> (c: u16)
        ensures
            c == self.spec_code(),
    {
        match self {
            BondingCurveError::AlreadyInitialized => 1,
            BondingCurveError::NotInitialized => 2,
            BondingCurveError::Unauthorized => 3,
            BondingCurveError::InsufficientPayment => 4,
            BondingCurveError::InsufficientTokens => 5,
            BondingCurveError::InsufficientLiquidity => 6,
            BondingCurveError::CurveNotActive => 7,
            BondingCurveError::CurveAlreadyGraduated => 8,
            BondingCurveError::GraduationThresholdNotMet => 9,
            BondingCurveError::RefundNotAvailable => 10,
            BondingCurveError::DeadlineNotReached => 11,
            BondingCurveError::NoRefundAvailable => 12,
            BondingCurveError::InvalidCurveType => 13,
            BondingCurveError::InvalidAmount => 14,
            BondingCurveError::TransferFailed => 15,
            BondingCurveError::MilestoneNotUnlocked => 16,
            BondingCurveError::NoPromoToWithdraw => 17,
            BondingCurveError::Overflow => 18,
            BondingCurveError::DivisionByZero => 19,
            BondingCurveError::LockedReentrancy => 20,
        }
    }
}

/// Failures of a token ledger.
#[derive(Clone, Copy, PartialEq, Eq, Structural, Debug)]
pub enum Cep18Error {
    /// The balance does not cover the amount.
    InsufficientBalance,
    /// The allowance does not cover the amount.
    InsufficientAllowance,
    /// The caller is not the administrator.
    Unauthorized,
    /// A balance left the range of its type.
    Overflow,
    /// A balance would fall below zero.
    Underflow,
}

impl Cep18Error {
    /// The numeric code under which the failure is reported.
    pub open spec fn spec_code(self) -> u16 {
        match self {
            Cep18Error::InsufficientBalance => 1u16,
            Cep18Error::InsufficientAllowance => 2u16,
            Cep18Error::Unauthorized => 3u16,
            Cep18Error::Overflow => 4u16,
            Cep18Error::Underflow => 5u16,
        }
    }

    /// The numeric code under which the failure is reported.
    pub fn code(self) -> (c: u16)
        ensures
            c == self.spec_code(),
    {
        match self {
            Cep18Error::InsufficientBalance => 1,
            Cep18Error::InsufficientAllowance => 2,
            Cep18Error::Unauthorized => 3,
            Cep18Error::Overflow => 4,
            Cep18Error::Underflow => 5,
        }
    }
}

/// Failures of a trading pool.
#[derive(Clone, Copy, PartialEq, Eq, Structural, Debug)]
pub enum PairError {
    /// The balance of pool shares does not cover the amount.
    InsufficientBalance,
    /// The allowance of pool shares does not cover the amount.
    InsufficientAllowance,
    /// An output is not below its reserve.
    InsufficientLiquidity,
    /// Nothing was paid in.
    InsufficientInputAmount,
    /// No output was asked for.
    InsufficientOutputAmount,
    /// The deposit earns no pool shares.
    InsufficientLiquidityMinted,
    /// The shares redeem nothing of one of the tokens.
    InsufficientLiquidityBurned,
    /// The recipient is not a contract.
    InvalidTo,
    /// The trade would lower the fee-adjusted product of the reserves.
    K,
    /// The lock is not as the operation needs it: a guarded operation is
    /// already under way, or a settlement finds none open.
    Locked,
    /// A quantity left the range of its type.
    Overflow,
}

impl PairError {
    /// The numeric code under which the failure is reported.
    pub open spec fn spec_code(self) -> u16 {
        match self {
            PairError::InsufficientBalance => 1u16,
            PairError::InsufficientAllowance => 2u16,
            PairError::InsufficientLiquidity => 3u16,
            PairError::InsufficientInputAmount => 4u16,
            PairError::InsufficientOutputAmount => 5u16,
            PairError::InsufficientLiquidityMinted => 6u16,
            PairError::InsufficientLiquidityBurned => 7u16,
            PairError::InvalidTo => 8u16,
            PairError::K => 9u16,
            PairError::Locked => 10u16,
            PairError::Overflow => 11u16,
        }
    }

    /// The numeric code under which the failure is reported.
    pub fn code(self) -> (c: u16)
        ensures
            c == self.spec_code(),
    {
        match self {
            PairError::InsufficientBalance => 1,
            PairError::InsufficientAllowance => 2,
            PairError::InsufficientLiquidity => 3,
            PairError::InsufficientInputAmount => 4,
            PairError::InsufficientOutputAmount => 5,
            PairError::InsufficientLiquidityMinted => 6,
            PairError::InsufficientLiquidityBurned => 7,
            PairError::InvalidTo => 8,
            PairError::K => 9,
            PairError::Locked => 10,
            PairError::Overflow => 11,
        }
    }
}

/// Failures of the router.
#[derive(Clone, Copy, PartialEq, Eq, Structural, Debug)]
pub enum RouterError {
    /// The deadline has passed.
    Expired,
    /// The amount of the first token is below the caller's minimum.
    InsufficientAAmount,
    /// The amount of the second token is below the caller's minimum.
    InsufficientBAmount,
    /// The output is below the caller's minimum.
    InsufficientOutputAmount,
    /// The input is above the caller's maximum.
    ExcessiveInputAmount,
    /// The path has fewer than two tokens.
    InvalidPath,
    /// No pool exists for two neighbours of the path.
    PairNotFound,
    /// A quantity left the range of its type, or a pool cannot cover the amount.
    InsufficientLiquidity,
}

impl RouterError {
    /// The numeric code under which the failure is reported.
    pub open spec fn spec_code(self) -> u16 {
        match self {
            RouterError::Expired => 1u16,
            RouterError::InsufficientAAmount => 2u16,
            RouterError::InsufficientBAmount => 3u16,
            RouterError::InsufficientOutputAmount => 4u16,
            RouterError::ExcessiveInputAmount => 5u16,
            RouterError::InvalidPath => 6u16,
            RouterError::PairNotFound => 7u16,
            RouterError::InsufficientLiquidity => 8u16,
        }
    }

    /// The numeric code under which the failure is reported.
    pub fn code(self) -> (c: u16)
        ensures
            c == self.spec_code(),
    {
        match self {
            RouterError::Expired => 1,
            RouterError::InsufficientAAmount => 2,
            RouterError::InsufficientBAmount => 3,
            RouterError::InsufficientOutputAmount => 4,
            RouterError::ExcessiveInputAmount => 5,
            RouterError::InvalidPath => 6,
            RouterError::PairNotFound => 7,
            RouterError::InsufficientLiquidity => 8,
        }
    }
}

/// Failures of the registry of pools.
#[derive(Clone, Copy, PartialEq, Eq, Structural, Debug)]
pub enum FactoryError {
    /// The caller may not set the fee recipient.
    Unauthorized,
    /// The two tokens have a pool already.
    PairExists,
    /// The two tokens are the same.
    IdenticalAddresses,
    /// The registry was set up before.
    AlreadyInitialized,
    /// There is no pool at that place.
    IndexOutOfBounds,
    /// The store could not be set up.
    FailedToCreateDictionary,
}

impl FactoryError {
    /// The numeric code under which the failure is reported.
    pub open spec fn spec_code(self) -> u16 {
        match self {
            FactoryError::Unauthorized => 1u16,
            FactoryError::PairExists => 2u16,
            FactoryError::IdenticalAddresses => 3u16,
            FactoryError::AlreadyInitialized => 4u16,
            FactoryError::IndexOutOfBounds => 5u16,
            FactoryError::FailedToCreateDictionary => 6u16,
        }
    }

    /// The numeric code under which the failure is reported.
    pub fn code(self) -> (c: u16)
        ensures
            c == self.spec_code(),
    {
        match self {
            FactoryError::Unauthorized => 1,
            FactoryError::PairExists => 2,
            FactoryError::IdenticalAddresses => 3,
            FactoryError::AlreadyInitialized => 4,
            FactoryError::IndexOutOfBounds => 5,
            FactoryError::FailedToCreateDictionary => 6,
        }
    }
}

/// Failures of the launchpad's settings.
#[derive(Clone, Copy, PartialEq, Eq, Structural, Debug)]
pub enum ControllerError {
    /// The caller is not the superadmin.
    Unauthorized,
    /// The settings were set up before.
    AlreadyInitialized,
    /// The fee is above the highest allowed.
    InvalidFee,
    /// The threshold is zero.
    InvalidThreshold,
    /// The deadline is zero days.
    InvalidDeadline,
}

impl ControllerError {
    /// The numeric code under which the failure is reported.
    pub open spec fn spec_code(self) -> u16 {
        match self {
            ControllerError::Unauthorized => 1u16,
            ControllerError::AlreadyInitialized => 2u16,
            ControllerError::InvalidFee => 3u16,
            ControllerError::InvalidThreshold => 4u16,
            ControllerError::InvalidDeadline => 5u16,
        }
    }

    /// The numeric code under which the failure is reported.
    pub fn code(self) -> (c: u16)
        ensures
            c == self.spec_code(),
    {
        match self {
            ControllerError::Unauthorized => 1,
            ControllerError::AlreadyInitialized => 2,
            ControllerError::InvalidFee => 3,
            ControllerError::InvalidThreshold => 4,
            ControllerError::InvalidDeadline => 5,
        }
    }
}

/// Failures of the registry of launches.
#[derive(Clone, Copy, PartialEq, Eq, Structural, Debug)]
pub enum TokenFactoryError {
    /// The registry was set up before.
    AlreadyInitialized,
    /// The registry was not set up yet.
    NotInitialized,
    /// The identifier names no curve shape.
    InvalidCurveType,
    /// The symbol is empty or too long.
    InvalidSymbol,
    /// The name is empty or too long.
    InvalidName,
    /// There is no such launch.
    LaunchNotFound,
    /// There is no launch at that place.
    IndexOutOfBounds,
    /// The store could not be set up.
    FailedToCreateDictionary,
}

impl TokenFactoryError {
    /// The numeric code under which the failure is reported.
    pub open spec fn spec_code(self) -> u16 {
        match self {
            TokenFactoryError::AlreadyInitialized => 1u16,
            TokenFactoryError::NotInitialized => 2u16,
            TokenFactoryError::InvalidCurveType => 3u16,
            TokenFactoryError::InvalidSymbol => 4u16,
            TokenFactoryError::InvalidName => 5u16,
            TokenFactoryError::LaunchNotFound => 6u16,
            TokenFactoryError::IndexOutOfBounds => 7u16,
            TokenFactoryError::FailedToCreateDictionary => 8u16,
        }
    }

    /// The numeric code under which the failure is reported.
    pub fn code(self) -> (c: u16)
        ensures
            c == self.spec_code(),
    {
        match self {
            TokenFactoryError::AlreadyInitialized => 1,
            TokenFactoryError::NotInitialized => 2,
            TokenFactoryError::InvalidCurveType => 3,
            TokenFactoryError::InvalidSymbol => 4,
            TokenFactoryError::InvalidName => 5,
            TokenFactoryError::LaunchNotFound => 6,
            TokenFactoryError::IndexOutOfBounds => 7,
            TokenFactoryError::FailedToCreateDictionary => 8,
        }
    }
}

} // verus!
