//! Pricing and trading core of a token launch platform: a bonding-curve sale
//! that graduates into a constant-product pool, and the router over such pools.

pub mod account;
pub mod bonding_curve;
pub mod curves;
pub mod encoding;
pub mod error;
pub mod factory;
pub mod launchpad_controller;
pub mod pair;
pub mod router;
pub mod token;
pub mod token_factory;
pub mod uint;
