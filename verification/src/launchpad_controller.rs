//! The settings of the launchpad: the defaults that new sales start from,
//! kept by a superadmin.

use crate::account::Address;
use crate::error::ControllerError;
use crate::uint::U512;
use vstd::prelude::*;

verus! {

/// The highest platform fee that can be set: ten percent.
pub const MAX_PLATFORM_FEE_BPS: u64 = 1000;

/// The threshold that sales graduate at unless another is given.
pub const INITIAL_GRADUATION_THRESHOLD: u64 = 50_000_000_000_000;

/// The platform fee unless another is given: one percent.
pub const INITIAL_PLATFORM_FEE_BPS: u64 = 100;

/// The days that a sale runs unless another number is given.
pub const INITIAL_DEADLINE_DAYS: u64 = 30;

/// The settings as plain values.
pub ghost struct ControllerState {
    pub superadmin: Address,
    pub default_graduation_threshold: nat,
    pub default_platform_fee_bps: u64,
    pub default_deadline_days: u64,
    pub token_factory: Option<Address>,
    pub initialized: bool,
}

/// The settings of the launchpad.
pub struct LaunchpadController {
    pub superadmin: Address,
    pub default_graduation_threshold: U512,
    pub default_platform_fee_bps: u64,
    pub default_deadline_days: u64,
    pub token_factory: Option<Address>,
    pub initialized: bool,
}

impl View for LaunchpadController {
    type V = ControllerState;

    open spec fn view(&self) -> ControllerState {
        ControllerState {
            superadmin: self.superadmin,
            default_graduation_threshold: self.default_graduation_threshold@,
            default_platform_fee_bps: self.default_platform_fee_bps,
            default_deadline_days: self.default_deadline_days,
            token_factory: self.token_factory,
            initialized: self.initialized,
        }
    }
}

impl LaunchpadController {
    /// New settings under the deployer as superadmin, with the given
    /// defaults or, where none is given, the initial ones.
    pub fn new(
        deployer: Address,
        initial_graduation_threshold: Option<U512>,
        initial_platform_fee_bps: Option<u64>,
        initial_deadline_days: Option<u64>,
    ) -> (r: LaunchpadController)
        ensures
            r@ == (ControllerState {
                superadmin: deployer,
                default_graduation_threshold: match initial_graduation_threshold {
                    Some(v) => v@,
                    None => INITIAL_GRADUATION_THRESHOLD as nat,
                },
                default_platform_fee_bps: match initial_platform_fee_bps {
                    Some(v) => v,
                    None => INITIAL_PLATFORM_FEE_BPS,
                },
                default_deadline_days: match initial_deadline_days {
                    Some(v) => v,
                    None => INITIAL_DEADLINE_DAYS,
                },
                token_factory: None,
                initialized: false,
            }),
    {
        LaunchpadController {
            superadmin: deployer,
            default_graduation_threshold: match initial_graduation_threshold {
                Some(v) => v,
                None => U512::from_u64(INITIAL_GRADUATION_THRESHOLD),
            },
            default_platform_fee_bps: match initial_platform_fee_bps {
                Some(v) => v,
                None => INITIAL_PLATFORM_FEE_BPS,
            },
            default_deadline_days: match initial_deadline_days {
                Some(v) => v,
                None => INITIAL_DEADLINE_DAYS,
            },
            token_factory: None,
            initialized: false,
        }
    }

    /// Fails with `Unauthorized` unless the caller is the superadmin.
    pub fn require_superadmin(&self, caller: &Address) -> (r: Result<(), ControllerError>)
        ensures
            r == (if *caller == self@.superadmin {
                Ok::<(), ControllerError>(())
            } else {
                Err(ControllerError::Unauthorized)
            }),
    {
        if caller.same(&self.superadmin) {
            Ok(())
        } else {
            Err(ControllerError::Unauthorized)
        }
    }

    /// Marks the settings as set up; fails with `AlreadyInitialized` the second time.
    pub fn init(&mut self) -> (r: Result<(), ControllerError>)
        ensures
            match r {
                Ok(()) => !old(self)@.initialized && final(self)@ == (ControllerState {
                    initialized: true,
                    ..old(self)@
                }),
                Err(e) => e == ControllerError::AlreadyInitialized && old(self)@.initialized
                    && final(self)@ == old(self)@,
            },
    {
        if self.initialized {
            return Err(ControllerError::AlreadyInitialized);
        }
        self.initialized = true;
        Ok(())
    }

    /// The account that may change the settings.
    pub fn superadmin(&self) -> (r: Address)
        ensures
            r == self@.superadmin,
    {
        self.superadmin
    }

    /// The threshold that sales graduate at unless another is given.
    pub fn default_graduation_threshold(&self) -> (r: U512)
        ensures
            r@ == self@.default_graduation_threshold,
    {
        self.default_graduation_threshold
    }

    /// The platform fee in hundredths of a percent.
    pub fn default_platform_fee_bps(&self) -> (r: u64)
        ensures
            r == self@.default_platform_fee_bps,
    {
        self.default_platform_fee_bps
    }

    /// The days that a sale runs unless another number is given.
    pub fn default_deadline_days(&self) -> (r: u64)
        ensures
            r == self@.default_deadline_days,
    {
        self.default_deadline_days
    }

    /// The registry of launches, once it is named.
    pub fn token_factory(&self) -> (r: Option<Address>)
        ensures
            r == self@.token_factory,
    {
        self.token_factory
    }

    /// The three defaults at once: threshold, platform fee, days.
    pub fn get_defaults(&self) -> (r: (U512, u64, u64))
        ensures
            r.0@ == self@.default_graduation_threshold,
            r.1 == self@.default_platform_fee_bps,
            r.2 == self@.default_deadline_days,
    {
        (
            self.default_graduation_threshold,
            self.default_platform_fee_bps,
            self.default_deadline_days,
        )
    }

    /// Sets the default threshold, which must not be zero; superadmin only.
    pub fn set_default_graduation_threshold(&mut self, caller: Address, threshold: U512) -> (r:
        Result<(), ControllerError>)
        ensures
            match r {
                Ok(()) => caller == old(self)@.superadmin && threshold@ != 0 && final(self)@ == (
                ControllerState { default_graduation_threshold: threshold@, ..old(self)@ }),
                Err(e) => final(self)@ == old(self)@ && e == (if caller != old(self)@.superadmin {
                    ControllerError::Unauthorized
                } else {
                    ControllerError::InvalidThreshold
                }) && (caller != old(self)@.superadmin || threshold@ == 0),
            },
    {
        if let Err(e) = self.require_superadmin(&caller) {
            return Err(e);
        }
        if threshold.is_zero() {
            return Err(ControllerError::InvalidThreshold);
        }
        self.default_graduation_threshold = threshold;
        Ok(())
    }

    /// Sets the default platform fee, at most `MAX_PLATFORM_FEE_BPS`;
    /// superadmin only.
    pub fn set_default_platform_fee(&mut self, caller: Address, fee_bps: u64) -> (r: Result<
        (),
        ControllerError,
    >)
        ensures
            match r {
                Ok(()) => caller == old(self)@.superadmin && fee_bps <= MAX_PLATFORM_FEE_BPS
                    && final(self)@ == (ControllerState {
                    default_platform_fee_bps: fee_bps,
                    ..old(self)@
                }),
                Err(e) => final(self)@ == old(self)@ && e == (if caller != old(self)@.superadmin {
                    ControllerError::Unauthorized
                } else {
                    ControllerError::InvalidFee
                }) && (caller != old(self)@.superadmin || fee_bps > MAX_PLATFORM_FEE_BPS),
            },
    {
        if let Err(e) = self.require_superadmin(&caller) {
            return Err(e);
        }
        if fee_bps > MAX_PLATFORM_FEE_BPS {
            return Err(ControllerError::InvalidFee);
        }
        self.default_platform_fee_bps = fee_bps;
        Ok(())
    }

    /// Sets the default number of days, which must not be zero; superadmin only.
    pub fn set_default_deadline(&mut self, caller: Address, days: u64) -> (r: Result<
        (),
        ControllerError,
    >)
        ensures
            match r {
                Ok(()) => caller == old(self)@.superadmin && days != 0 && final(self)@ == (
                ControllerState { default_deadline_days: days, ..old(self)@ }),
                Err(e) => final(self)@ == old(self)@ && e == (if caller != old(self)@.superadmin {
                    ControllerError::Unauthorized
                } else {
                    ControllerError::InvalidDeadline
                }) && (caller != old(self)@.superadmin || days == 0),
            },
    {
        if let Err(e) = self.require_superadmin(&caller) {
            return Err(e);
        }
        if days == 0 {
            return Err(ControllerError::InvalidDeadline);
        }
        self.default_deadline_days = days;
        Ok(())
    }

    /// Names the registry of launches; superadmin only.
    pub fn set_token_factory(&mut self, caller: Address, factory: Address) -> (r: Result<
        (),
        ControllerError,
    >)
        ensures
            match r {
                Ok(()) => caller == old(self)@.superadmin && final(self)@ == (ControllerState {
                    token_factory: Some(factory),
                    ..old(self)@
                }),
                Err(e) => e == ControllerError::Unauthorized && caller != old(self)@.superadmin
                    && final(self)@ == old(self)@,
            },
    {
        if let Err(e) = self.require_superadmin(&caller) {
            return Err(e);
        }
        self.token_factory = Some(factory);
        Ok(())
    }

    /// Hands the settings to another superadmin; superadmin only.
    pub fn transfer_superadmin(&mut self, caller: Address, new_admin: Address) -> (r: Result<
        (),
        ControllerError,
    >)
        ensures
            match r {
                Ok(()) => caller == old(self)@.superadmin && final(self)@ == (ControllerState {
                    superadmin: new_admin,
                    ..old(self)@
                }),
                Err(e) => e == ControllerError::Unauthorized && caller != old(self)@.superadmin
                    && final(self)@ == old(self)@,
            },
    {
        if let Err(e) = self.require_superadmin(&caller) {
            return Err(e);
        }
        self.superadmin = new_admin;
        Ok(())
    }
}

} // verus!
