//! A token ledger: balances, allowances and the supply of one token.
//!
//! The administrator mints and burns; everybody moves what they hold and
//! what they were allowed to spend. A failed operation leaves the ledger as
//! it was.

use crate::account::{
    ledger_sum, lemma_ledger_sum_empty, lemma_ledger_sum_insert, AccountMap, Address, AllowanceMap,
    Grant,
};
use crate::error::Cep18Error;
use crate::uint::{pow2_256, U256};
use vstd::prelude::*;

verus! {

/// A token as plain values.
pub ghost struct TokenState {
    pub name: Seq<char>,
    pub symbol: Seq<char>,
    pub decimals: u8,
    pub total_supply: nat,
    pub balances: Map<Address, nat>,
    pub allowances: Map<Grant, nat>,
    pub admin: Address,
}

/// One token.
pub struct Token {
    pub name: String,
    pub symbol: String,
    pub decimals: u8,
    pub total_supply: U256,
    pub balances: AccountMap<U256>,
    pub allowances: AllowanceMap<U256>,
    pub admin: Address,
}

impl View for Token {
    type V = TokenState;

    open spec fn view(&self) -> TokenState {
        TokenState {
            name: self.name@,
            symbol: self.symbol@,
            decimals: self.decimals,
            total_supply: self.total_supply@,
            balances: self.balances@.map_values(|v: U256| v@),
            allowances: self.allowances@.map_values(|v: U256| v@),
            admin: self.admin,
        }
    }
}

impl TokenState {
    /// What an account holds.
    pub open spec fn balance_of(self, owner: Address) -> nat {
        if self.balances.contains_key(owner) {
            self.balances[owner]
        } else {
            0
        }
    }

    /// What a spender may still move of an owner's tokens.
    pub open spec fn allowance(self, owner: Address, spender: Address) -> nat {
        if self.allowances.contains_key(Grant { owner, spender }) {
            self.allowances[Grant { owner, spender }]
        } else {
            0
        }
    }

    /// Why a transfer fails, or `None` where it succeeds.
    pub open spec fn transfer_error(self, sender: Address, recipient: Address, amount: nat)
        -> Option<Cep18Error> {
        if self.balance_of(sender) < amount {
            Some(Cep18Error::InsufficientBalance)
        } else if sender != recipient && self.balance_of(recipient) + amount >= pow2_256() {
            Some(Cep18Error::Overflow)
        } else {
            None
        }
    }

    /// The ledger after a transfer.
    pub open spec fn after_transfer(self, sender: Address, recipient: Address, amount: nat)
        -> TokenState {
        let taken = self.balances.insert(sender, (self.balance_of(sender) - amount) as nat);
        let recipient_before = if sender == recipient {
            (self.balance_of(sender) - amount) as nat
        } else {
            self.balance_of(recipient)
        };
        TokenState { balances: taken.insert(recipient, recipient_before + amount), ..self }
    }

    /// The ledger after an allowance is set.
    pub open spec fn after_approve(self, owner: Address, spender: Address, amount: nat)
        -> TokenState {
        TokenState { allowances: self.allowances.insert(Grant { owner, spender }, amount), ..self }
    }

    /// Why a transfer by a spender fails, or `None` where it succeeds.
    pub open spec fn transfer_from_error(
        self,
        spender: Address,
        owner: Address,
        recipient: Address,
        amount: nat,
    ) -> Option<Cep18Error> {
        if self.allowance(owner, spender) < amount {
            Some(Cep18Error::InsufficientAllowance)
        } else {
            self.transfer_error(owner, recipient, amount)
        }
    }

    /// The ledger after a transfer by a spender.
    pub open spec fn after_transfer_from(
        self,
        spender: Address,
        owner: Address,
        recipient: Address,
        amount: nat,
    ) -> TokenState {
        self.after_approve(
            owner,
            spender,
            (self.allowance(owner, spender) - amount) as nat,
        ).after_transfer(owner, recipient, amount)
    }

    /// Why minting fails, or `None` where it succeeds.
    pub open spec fn mint_error(self, caller: Address, to: Address, amount: nat) -> Option<
        Cep18Error,
    > {
        if caller != self.admin {
            Some(Cep18Error::Unauthorized)
        } else if self.balance_of(to) + amount >= pow2_256() || self.total_supply + amount
            >= pow2_256() {
            Some(Cep18Error::Overflow)
        } else {
            None
        }
    }

    /// The ledger after minting.
    pub open spec fn after_mint(self, to: Address, amount: nat) -> TokenState {
        TokenState {
            balances: self.balances.insert(to, self.balance_of(to) + amount),
            total_supply: self.total_supply + amount,
            ..self
        }
    }

    /// Why burning fails, or `None` where it succeeds.
    pub open spec fn burn_error(self, caller: Address, from: Address, amount: nat) -> Option<
        Cep18Error,
    > {
        if caller != self.admin {
            Some(Cep18Error::Unauthorized)
        } else if self.balance_of(from) < amount {
            Some(Cep18Error::InsufficientBalance)
        } else if self.total_supply < amount {
            Some(Cep18Error::Underflow)
        } else {
            None
        }
    }

    /// The ledger after burning.
    pub open spec fn after_burn(self, from: Address, amount: nat) -> TokenState {
        TokenState {
            balances: self.balances.insert(from, (self.balance_of(from) - amount) as nat),
            total_supply: (self.total_supply - amount) as nat,
            ..self
        }
    }
}

impl Token {
    /// A new token whose whole initial supply, if any, the administrator holds.
    pub fn new(name: String, symbol: String, decimals: u8, initial_supply: U256, admin: Address)
        -> (r: Token)
        ensures
            r@ == (TokenState {
                name: name@,
                symbol: symbol@,
                decimals,
                total_supply: initial_supply@,
                balances: if initial_supply@ > 0 {
                    Map::<Address, nat>::empty().insert(admin, initial_supply@)
                } else {
                    Map::<Address, nat>::empty()
                },
                allowances: Map::empty(),
                admin,
            }),
    {
        let mut balances: AccountMap<U256> = AccountMap::new();
        if !initial_supply.is_zero() {
            balances.insert(admin, initial_supply);
        }
        let r = Token {
            name,
            symbol,
            decimals,
            total_supply: initial_supply,
            balances,
            allowances: AllowanceMap::new(),
            admin,
        };
        proof {
            assert(r@.allowances =~= Map::empty());
            if initial_supply@ > 0 {
                assert(r@.balances =~= Map::<Address, nat>::empty().insert(
                    admin,
                    initial_supply@,
                ));
            } else {
                assert(r@.balances =~= Map::<Address, nat>::empty());
            }
        }
        r
    }

    /// The token's name.
    pub fn name(&self) -> (r: String)
        ensures
            r@ == self@.name,
    {
        self.name.clone()
    }

    /// The token's symbol.
    pub fn symbol(&self) -> (r: String)
        ensures
            r@ == self@.symbol,
    {
        self.symbol.clone()
    }

    /// The number of decimals in which amounts are given.
    pub fn decimals(&self) -> (r: u8)
        ensures
            r == self@.decimals,
    {
        self.decimals
    }

    /// The tokens in issue.
    pub fn total_supply(&self) -> (r: U256)
        ensures
            r@ == self@.total_supply,
    {
        self.total_supply
    }

    /// The account that mints and burns.
    pub fn admin(&self) -> (r: Address)
        ensures
            r == self@.admin,
    {
        self.admin
    }

    /// What an account holds.
    pub fn balance_of(&self, owner: &Address) -> (r: U256)
        ensures
            r@ == self@.balance_of(*owner),
    {
        match self.balances.get(owner) {
            Some(v) => v,
            None => U256::zero(),
        }
    }

    /// What a spender may still move of an owner's tokens.
    pub fn allowance(&self, owner: &Address, spender: &Address) -> (r: U256)
        ensures
            r@ == self@.allowance(*owner, *spender),
    {
        match self.allowances.get(&Grant { owner: *owner, spender: *spender }) {
            Some(v) => v,
            None => U256::zero(),
        }
    }

    /// Moves tokens from one account to another.
    fn transfer_internal(&mut self, sender: Address, recipient: Address, amount: U256) -> (r:
        Result<(), Cep18Error>)
        ensures
            match r {
                Ok(()) => old(self)@.transfer_error(sender, recipient, amount@) is None
                    && final(self)@ == old(self)@.after_transfer(sender, recipient, amount@),
                Err(e) => old(self)@.transfer_error(sender, recipient, amount@) == Some(e)
                    && final(self)@ == old(self)@,
            },
    {
        let sender_balance = match self.balance_of(&sender).checked_sub(amount) {
            Some(v) => v,
            None => { return Err(Cep18Error::InsufficientBalance); },
        };
        let recipient_before = if sender.same(&recipient) {
            sender_balance
        } else {
            self.balance_of(&recipient)
        };
        let recipient_balance = match recipient_before.checked_add(amount) {
            Some(v) => v,
            None => { return Err(Cep18Error::Overflow); },
        };
        self.balances.insert(sender, sender_balance);
        self.balances.insert(recipient, recipient_balance);
        proof {
            assert(self@.balances =~= old(self)@.after_transfer(
                sender,
                recipient,
                amount@,
            ).balances);
        }
        Ok(())
    }

    /// Moves the caller's tokens to a recipient.
    pub fn transfer(&mut self, caller: Address, recipient: Address, amount: U256) -> (r: Result<
        (),
        Cep18Error,
    >)
        ensures
            match r {
                Ok(()) => old(self)@.transfer_error(caller, recipient, amount@) is None
                    && final(self)@ == old(self)@.after_transfer(caller, recipient, amount@),
                Err(e) => old(self)@.transfer_error(caller, recipient, amount@) == Some(e)
                    && final(self)@ == old(self)@,
            },
    {
        self.transfer_internal(caller, recipient, amount)
    }

    /// Lets a spender move up to `amount` of the caller's tokens.
    pub fn approve(&mut self, caller: Address, spender: Address, amount: U256)
        ensures
            final(self)@ == old(self)@.after_approve(caller, spender, amount@),
    {
        self.allowances.insert(Grant { owner: caller, spender }, amount);
        proof {
            assert(self@.allowances =~= old(self)@.after_approve(
                caller,
                spender,
                amount@,
            ).allowances);
        }
    }

    /// Moves an owner's tokens to a recipient on the caller's allowance,
    /// which shrinks by the amount.
    pub fn transfer_from(
        &mut self,
        caller: Address,
        owner: Address,
        recipient: Address,
        amount: U256,
    ) -> (r: Result<(), Cep18Error>)
        ensures
            match r {
                Ok(()) => old(self)@.transfer_from_error(caller, owner, recipient, amount@)
                    is None && final(self)@ == old(self)@.after_transfer_from(
                    caller,
                    owner,
                    recipient,
                    amount@,
                ),
                Err(e) => old(self)@.transfer_from_error(caller, owner, recipient, amount@)
                    == Some(e) && final(self)@ == old(self)@,
            },
    {
        let current_allowance = self.allowance(&owner, &caller);
        let left = match current_allowance.checked_sub(amount) {
            Some(v) => v,
            None => { return Err(Cep18Error::InsufficientAllowance); },
        };
        // The balances are checked before anything is written, so that a
        // failure leaves the allowance as it was.
        let sender_balance = match self.balance_of(&owner).checked_sub(amount) {
            Some(v) => v,
            None => { return Err(Cep18Error::InsufficientBalance); },
        };
        let recipient_before = if owner.same(&recipient) {
            sender_balance
        } else {
            self.balance_of(&recipient)
        };
        if recipient_before.checked_add(amount).is_none() {
            return Err(Cep18Error::Overflow);
        }
        self.approve(owner, caller, left);
        self.transfer_internal(owner, recipient, amount)
    }

    /// Issues new tokens to an account; only the administrator may.
    pub fn mint(&mut self, caller: Address, to: Address, amount: U256) -> (r: Result<
        (),
        Cep18Error,
    >)
        ensures
            match r {
                Ok(()) => old(self)@.mint_error(caller, to, amount@) is None && final(self)@
                    == old(self)@.after_mint(to, amount@),
                Err(e) => old(self)@.mint_error(caller, to, amount@) == Some(e) && final(self)@
                    == old(self)@,
            },
    {
        if !caller.same(&self.admin) {
            return Err(Cep18Error::Unauthorized);
        }
        let balance = match self.balance_of(&to).checked_add(amount) {
            Some(v) => v,
            None => { return Err(Cep18Error::Overflow); },
        };
        let total = match self.total_supply.checked_add(amount) {
            Some(v) => v,
            None => { return Err(Cep18Error::Overflow); },
        };
        self.balances.insert(to, balance);
        self.total_supply = total;
        proof {
            assert(self@.balances =~= old(self)@.after_mint(to, amount@).balances);
        }
        Ok(())
    }

    /// Takes tokens of an account out of issue; only the administrator may.
    pub fn burn(&mut self, caller: Address, from: Address, amount: U256) -> (r: Result<
        (),
        Cep18Error,
    >)
        ensures
            match r {
                Ok(()) => old(self)@.burn_error(caller, from, amount@) is None && final(self)@
                    == old(self)@.after_burn(from, amount@),
                Err(e) => old(self)@.burn_error(caller, from, amount@) == Some(e) && final(self)@
                    == old(self)@,
            },
    {
        if !caller.same(&self.admin) {
            return Err(Cep18Error::Unauthorized);
        }
        let balance = match self.balance_of(&from).checked_sub(amount) {
            Some(v) => v,
            None => { return Err(Cep18Error::InsufficientBalance); },
        };
        let total = match self.total_supply.checked_sub(amount) {
            Some(v) => v,
            None => { return Err(Cep18Error::Underflow); },
        };
        self.balances.insert(from, balance);
        self.total_supply = total;
        proof {
            assert(self@.balances =~= old(self)@.after_burn(from, amount@).balances);
        }
        Ok(())
    }
}

impl TokenState {
    /// Whether the tokens in issue are the sum of all balances.
    pub open spec fn supply_accounted(self) -> bool {
        self.balances.dom().finite() && ledger_sum(self.balances) == self.total_supply
    }
}

/// A new token has its supply accounted: the administrator holds all of it.
pub proof fn lemma_new_token_accounts_supply(admin: Address, initial_supply: nat)
    ensures
        ledger_sum(Map::<Address, nat>::empty().insert(admin, initial_supply)) == initial_supply,
        ledger_sum(Map::<Address, nat>::empty()) == 0,
{
    lemma_ledger_sum_empty::<Address>();
    lemma_ledger_sum_insert(Map::<Address, nat>::empty(), admin, initial_supply);
}

/// A transfer, on an allowance or not, keeps the supply accounted.
pub proof fn lemma_transfer_accounts_supply(
    token: TokenState,
    spender: Address,
    sender: Address,
    recipient: Address,
    amount: nat,
)
    requires
        token.supply_accounted(),
        token.transfer_error(sender, recipient, amount) is None,
    ensures
        token.after_transfer(sender, recipient, amount).supply_accounted(),
        token.after_transfer_from(spender, sender, recipient, amount).supply_accounted(),
{
    let left = (token.balance_of(sender) - amount) as nat;
    let taken = token.balances.insert(sender, left);
    lemma_ledger_sum_insert(token.balances, sender, left);
    let recipient_before = if sender == recipient {
        left
    } else {
        token.balance_of(recipient)
    };
    lemma_ledger_sum_insert(taken, recipient, recipient_before + amount);
}

/// Minting keeps the supply accounted.
pub proof fn lemma_mint_accounts_supply(token: TokenState, to: Address, amount: nat)
    requires
        token.supply_accounted(),
    ensures
        token.after_mint(to, amount).supply_accounted(),
{
    lemma_ledger_sum_insert(token.balances, to, token.balance_of(to) + amount);
}

/// Burning keeps the supply accounted.
pub proof fn lemma_burn_accounts_supply(
    token: TokenState,
    caller: Address,
    from: Address,
    amount: nat,
)
    requires
        token.supply_accounted(),
        token.burn_error(caller, from, amount) is None,
    ensures
        token.after_burn(from, amount).supply_accounted(),
{
    lemma_ledger_sum_insert(token.balances, from, (token.balance_of(from) - amount) as nat);
}

} // verus!
