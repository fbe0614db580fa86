//! The registry of launches: every token sale that was started, in order.
//!
//! Starting a launch checks what the creator asks for, settles the
//! parameters of the sale from the creator's wishes and the launchpad's
//! defaults, and files the launch under the next number.

use crate::account::{AccountMap, Address};
use crate::error::TokenFactoryError;
use crate::uint::{U256, U512};
use vstd::prelude::*;
use vstd::string::StringSliceAdditionalSpecFns;
use vstd::utf8::encode_utf8;

verus! {

/// The price at which every sale starts.
pub const DEFAULT_BASE_PRICE: u64 = 1_000_000_000;

/// The price at which every sale ends.
pub const DEFAULT_MAX_PRICE: u64 = 100_000_000_000;

/// The tokens that every sale offers: a million, with eighteen decimals.
pub const DEFAULT_TOTAL_SUPPLY: u128 = 1_000_000_000_000_000_000_000_000;

/// The decimals of every launched token.
pub const TOKEN_DECIMALS: u8 = 18;

/// The longest name of a token, in bytes.
pub const MAX_NAME_LENGTH: usize = 50;

/// The longest symbol of a token, in bytes.
pub const MAX_SYMBOL_LENGTH: usize = 6;

/// The milliseconds of a day.
pub const MILLISECONDS_PER_DAY: u64 = 86_400_000;

/// The status of a launch whose sale is active.
pub const STATUS_ACTIVE: u8 = 0;

/// The status of a launch whose sale has graduated.
pub const STATUS_GRADUATED: u8 = 1;

/// The status of a launch whose sale refunds.
pub const STATUS_REFUNDING: u8 = 2;

/// One launch as it is filed.
#[derive(Debug)]
pub struct Launch {
    pub token: Address,
    pub curve: Address,
    pub creator: Address,
    pub name: String,
    pub symbol: String,
    pub curve_type: u8,
    pub status: u8,
    pub created_at: u64,
}

/// The parameters of a new sale.
#[derive(Clone, Copy, Debug)]
pub struct LaunchParams {
    pub graduation_threshold: U512,
    pub platform_fee_bps: u64,
    pub creator_fee_bps: u64,
    pub deadline: Option<u64>,
    pub total_supply: U256,
    pub base_price: U512,
    pub max_price: U512,
    pub promo_budget: U512,
}

/// What a started launch hands to the host: its number, the addresses under
/// which its token and its sale are filed, and the parameters of the sale.
#[derive(Clone, Copy, Debug)]
pub struct LaunchReceipt {
    pub launch_id: u64,
    pub token: Address,
    pub curve: Address,
    pub params: LaunchParams,
}

/// The registry as plain values.
pub ghost struct TokenFactoryState {
    pub controller: Address,
    pub platform_wallet: Address,
    pub launches: Seq<Launch>,
    pub token_to_launch: Map<Address, u64>,
    pub initialized: bool,
}

/// The registry of launches.
pub struct TokenFactory {
    pub controller: Address,
    pub platform_wallet: Address,
    pub launches: Vec<Launch>,
    pub token_to_launch: AccountMap<u64>,
    pub initialized: bool,
}

impl View for TokenFactory {
    type V = TokenFactoryState;

    open spec fn view(&self) -> TokenFactoryState {
        TokenFactoryState {
            controller: self.controller,
            platform_wallet: self.platform_wallet,
            launches: self.launches@,
            token_to_launch: self.token_to_launch@,
            initialized: self.initialized,
        }
    }
}

/// The time at which a sale that starts now and runs for so many days ends,
/// in milliseconds, where it fits in 64 bits.
pub open spec fn deadline_of(current_time: u64, days: u64) -> Option<u64> {
    if current_time + days * 86_400_000 <= u64::MAX {
        Some((current_time + days * 86_400_000) as u64)
    } else {
        None
    }
}

/// The time at which a sale that starts now and runs for so many days ends.
pub fn launch_deadline(current_time: u64, days: u64) -> (r: Option<u64>)
    ensures
        r == deadline_of(current_time, days),
{
    match days.checked_mul(MILLISECONDS_PER_DAY) {
        Some(span) => current_time.checked_add(span),
        None => None,
    }
}

/// The byte that fills the address under which the token of a launch is filed.
pub open spec fn token_tag(launch_id: u64) -> u8 {
    (launch_id % 256) as u8
}

/// The byte that fills the address under which the sale of a launch is filed.
pub open spec fn curve_tag(launch_id: u64) -> u8 {
    ((launch_id % 256 + 128) % 256) as u8
}

/// The address of thirty-two equal bytes.
pub open spec fn filled_address(tag: u8) -> Address {
    Address { bytes: vstd::array::spec_array_fill_for_copy_type(tag) }
}

/// The address of thirty-two equal bytes.
fn address_of(tag: u8) -> (r: Address)
    ensures
        r == filled_address(tag),
{
    Address { bytes: [tag; 32] }
}

/// The length of a text in bytes, as the machine counts it.
pub open spec fn byte_length(text: Seq<char>) -> usize {
    encode_utf8(text).len() as usize
}

/// Why what the creator asks for is refused, or `None` where it is accepted:
/// a name or a symbol that is empty or too long, or an unknown curve shape.
pub open spec fn launch_request_error(name: Seq<char>, symbol: Seq<char>, curve_type: u8)
    -> Option<TokenFactoryError> {
    if name.len() == 0 || byte_length(name) > 50 {
        Some(TokenFactoryError::InvalidName)
    } else if symbol.len() == 0 || byte_length(symbol) > 6 {
        Some(TokenFactoryError::InvalidSymbol)
    } else if curve_type > 2 {
        Some(TokenFactoryError::InvalidCurveType)
    } else {
        None
    }
}

/// Checks what the creator asks for.
pub fn check_launch_request(name: &str, symbol: &str, curve_type: u8) -> (r: Result<
    (),
    TokenFactoryError,
>)
    ensures
        match r {
            Ok(()) => launch_request_error(name@, symbol@, curve_type) is None,
            Err(e) => launch_request_error(name@, symbol@, curve_type) == Some(e),
        },
{
    if name.is_empty() || name.len() > MAX_NAME_LENGTH {
        return Err(TokenFactoryError::InvalidName);
    }
    if symbol.is_empty() || symbol.len() > MAX_SYMBOL_LENGTH {
        return Err(TokenFactoryError::InvalidSymbol);
    }
    if curve_type > 2 {
        return Err(TokenFactoryError::InvalidCurveType);
    }
    Ok(())
}

/// The threshold, the platform fee and the days that a launch falls back
/// on: the launchpad's where the host could ask them, else fixed ones.
pub open spec fn settled_defaults(defaults: Option<(U512, u64, u64)>) -> (nat, u64, u64) {
    match defaults {
        Some(d) => (d.0@, d.1, d.2),
        None => (50_000_000_000_000, 100, 30),
    }
}

/// The numbers of the launches on one page: from `offset` on, at most
/// `limit` of them, and none beyond the last.
pub open spec fn page_of(offset: u64, limit: u64, count: nat) -> Seq<u64> {
    if offset >= count {
        Seq::empty()
    } else {
        Seq::new(
            if limit <= count - offset {
                limit as nat
            } else {
                (count - offset) as nat
            },
            |i: int| (offset + i) as u64,
        )
    }
}

impl TokenFactory {
    /// A new registry without launches.
    pub fn new(controller: Address, platform_wallet: Address) -> (r: TokenFactory)
        ensures
            r@ == (TokenFactoryState {
                controller,
                platform_wallet,
                launches: Seq::empty(),
                token_to_launch: Map::empty(),
                initialized: false,
            }),
    {
        TokenFactory {
            controller,
            platform_wallet,
            launches: Vec::new(),
            token_to_launch: AccountMap::new(),
            initialized: false,
        }
    }

    /// Marks the registry as set up; fails with `AlreadyInitialized` the second time.
    pub fn init(&mut self) -> (r: Result<(), TokenFactoryError>)
        ensures
            match r {
                Ok(()) => !old(self)@.initialized && final(self)@ == (TokenFactoryState {
                    initialized: true,
                    ..old(self)@
                }),
                Err(e) => e == TokenFactoryError::AlreadyInitialized && old(self)@.initialized
                    && final(self)@ == old(self)@,
            },
    {
        if self.initialized {
            return Err(TokenFactoryError::AlreadyInitialized);
        }
        self.initialized = true;
        Ok(())
    }

    /// The settings that launches take their defaults from.
    pub fn controller(&self) -> (r: Address)
        ensures
            r == self@.controller,
    {
        self.controller
    }

    /// The account that receives the platform's fees.
    pub fn platform_wallet(&self) -> (r: Address)
        ensures
            r == self@.platform_wallet,
    {
        self.platform_wallet
    }

    /// The number of launches.
    pub fn launch_count(&self) -> (r: u64)
        ensures
            r == self@.launches.len(),
    {
        self.launches.len() as u64
    }

    /// The token, the sale and the creator of a launch.
    pub fn get_launch(&self, launch_id: u64) -> (r: Result<
        Option<(Address, Address, Address)>,
        TokenFactoryError,
    >)
        ensures
            match r {
                Ok(found) => launch_id < self@.launches.len() && found == Some(
                    (
                        self@.launches[launch_id as int].token,
                        self@.launches[launch_id as int].curve,
                        self@.launches[launch_id as int].creator,
                    ),
                ),
                Err(e) => e == TokenFactoryError::IndexOutOfBounds && launch_id
                    >= self@.launches.len(),
            },
    {
        if launch_id >= self.launches.len() as u64 {
            return Err(TokenFactoryError::IndexOutOfBounds);
        }
        let launch = &self.launches[launch_id as usize];
        Ok(Some((launch.token, launch.curve, launch.creator)))
    }

    /// The name, the symbol, and the curve shape, status and starting time
    /// of a launch.
    pub fn get_launch_meta(&self, launch_id: u64) -> (r: Result<
        Option<(String, String, (u8, u8, u64))>,
        TokenFactoryError,
    >)
        ensures
            match r {
                Ok(found) => launch_id < self@.launches.len() && found == Some(
                    (
                        self@.launches[launch_id as int].name,
                        self@.launches[launch_id as int].symbol,
                        (
                            self@.launches[launch_id as int].curve_type,
                            self@.launches[launch_id as int].status,
                            self@.launches[launch_id as int].created_at,
                        ),
                    ),
                ),
                Err(e) => e == TokenFactoryError::IndexOutOfBounds && launch_id
                    >= self@.launches.len(),
            },
    {
        if launch_id >= self.launches.len() as u64 {
            return Err(TokenFactoryError::IndexOutOfBounds);
        }
        let launch = &self.launches[launch_id as usize];
        Ok(
            Some(
                (
                    launch.name.clone(),
                    launch.symbol.clone(),
                    (launch.curve_type, launch.status, launch.created_at),
                ),
            ),
        )
    }

    /// The number of the launch whose token is filed under an address.
    pub fn get_launch_by_token(&self, token_hash: &Address) -> (r: Option<u64>)
        ensures
            r == (if self@.token_to_launch.contains_key(*token_hash) {
                Some(self@.token_to_launch[*token_hash])
            } else {
                None
            }),
    {
        self.token_to_launch.get(token_hash)
    }

    /// The numbers of the launches on one page. The status filter is not
    /// applied.
    pub fn get_launches(&self, offset: u64, limit: u64, status_filter: Option<u8>) -> (r: Vec<
        u64,
    >)
        ensures
            r@ == page_of(offset, limit, self@.launches.len()),
    {
        let count = self.launches.len() as u64;
        let mut result: Vec<u64> = Vec::new();
        let mut checked: u64 = 0;
        let mut index: u64 = offset;
        while checked < limit && index < count
            invariant
                count == self.launches@.len(),
                index == offset + checked,
                checked <= limit,
                index <= count || checked == 0,
                result@.len() == checked,
                forall|i: int| 0 <= i < checked ==> result@[i] == offset + i,
            decreases count - index,
        {
            result.push(index);
            checked += 1;
            index += 1;
        }
        assert(result@ =~= page_of(offset, limit, self@.launches.len()));
        result
    }

    /// Starts a launch for the caller.
    ///
    /// `defaults` are the threshold, the platform fee and the days of the
    /// launchpad's settings, where the host could ask them; the creator's
    /// wishes go before them, and the creator's fee is zero unless wished.
    pub fn create_launch(
        &mut self,
        caller: Address,
        name: String,
        symbol: String,
        curve_type: u8,
        graduation_threshold: Option<U512>,
        creator_fee_bps: Option<u64>,
        deadline_days: Option<u64>,
        promo_budget: Option<U512>,
        defaults: Option<(U512, u64, u64)>,
        current_time: u64,
    ) -> (r: Result<LaunchReceipt, TokenFactoryError>)
        ensures
            match r {
                Ok(receipt) => {
                    let launch_id = old(self)@.launches.len() as u64;
                    let settings = settled_defaults(defaults);
                    &&& launch_request_error(name@, symbol@, curve_type) is None
                    &&& receipt.launch_id == launch_id
                    &&& receipt.token == filled_address(token_tag(launch_id))
                    &&& receipt.curve == filled_address(curve_tag(launch_id))
                    &&& receipt.params.graduation_threshold@ == (match graduation_threshold {
                        Some(v) => v@,
                        None => settings.0,
                    })
                    &&& receipt.params.platform_fee_bps == settings.1
                    &&& receipt.params.creator_fee_bps == (match creator_fee_bps {
                        Some(v) => v,
                        None => 0,
                    })
                    &&& receipt.params.deadline == deadline_of(
                        current_time,
                        match deadline_days {
                            Some(v) => v,
                            None => settings.2,
                        },
                    )
                    &&& receipt.params.total_supply@ == DEFAULT_TOTAL_SUPPLY
                    &&& receipt.params.base_price@ == DEFAULT_BASE_PRICE
                    &&& receipt.params.max_price@ == DEFAULT_MAX_PRICE
                    &&& receipt.params.promo_budget@ == (match promo_budget {
                        Some(v) => v@,
                        None => 0,
                    })
                    &&& final(self)@ == (TokenFactoryState {
                        launches: old(self)@.launches.push(
                            Launch {
                                token: receipt.token,
                                curve: receipt.curve,
                                creator: caller,
                                name,
                                symbol,
                                curve_type,
                                status: STATUS_ACTIVE,
                                created_at: current_time,
                            },
                        ),
                        token_to_launch: old(self)@.token_to_launch.insert(
                            receipt.token,
                            launch_id,
                        ),
                        ..old(self)@
                    })
                },
                Err(e) => final(self)@ == old(self)@ && launch_request_error(
                    name@,
                    symbol@,
                    curve_type,
                ) == Some(e),
            },
    {
        if let Err(e) = check_launch_request(name.as_str(), symbol.as_str(), curve_type) {
            return Err(e);
        }
        let (default_threshold, default_fee_bps, default_deadline_days) = match defaults {
            Some(d) => d,
            None => (U512::from_u64(50_000_000_000_000), 100, 30),
        };
        let final_threshold = match graduation_threshold {
            Some(v) => v,
            None => default_threshold,
        };
        let final_creator_fee = match creator_fee_bps {
            Some(v) => v,
            None => 0,
        };
        let final_deadline_days = match deadline_days {
            Some(v) => v,
            None => default_deadline_days,
        };
        let params = LaunchParams {
            graduation_threshold: final_threshold,
            platform_fee_bps: default_fee_bps,
            creator_fee_bps: final_creator_fee,
            deadline: launch_deadline(current_time, final_deadline_days),
            total_supply: U256::from_u128(DEFAULT_TOTAL_SUPPLY),
            base_price: U512::from_u64(DEFAULT_BASE_PRICE),
            max_price: U512::from_u64(DEFAULT_MAX_PRICE),
            promo_budget: match promo_budget {
                Some(v) => v,
                None => U512::zero(),
            },
        };
        let launch_id = self.launches.len() as u64;
        let token = address_of((launch_id % 256) as u8);
        let curve = address_of(((launch_id % 256 + 128) % 256) as u8);
        self.launches.push(
            Launch {
                token,
                curve,
                creator: caller,
                name,
                symbol,
                curve_type,
                status: STATUS_ACTIVE,
                created_at: current_time,
            },
        );
        self.token_to_launch.insert(token, launch_id);
        Ok(LaunchReceipt { launch_id, token, curve, params })
    }

    /// Checks that a launch exists. The status of a launch is kept by its
    /// sale; nothing is changed here.
    pub fn update_launch_status(&self, launch_id: u64, status: u8) -> (r: Result<
        (),
        TokenFactoryError,
    >)
        ensures
            match r {
                Ok(()) => launch_id < self@.launches.len(),
                Err(e) => e == TokenFactoryError::IndexOutOfBounds && launch_id
                    >= self@.launches.len(),
            },
    {
        if launch_id >= self.launches.len() as u64 {
            return Err(TokenFactoryError::IndexOutOfBounds);
        }
        Ok(())
    }
}

} // verus!
