//! A constant-product pool for one pair of tokens.
//!
//! The pool holds two reserves and a ledger of pool shares. It moves no
//! tokens itself: the host tells it the balances that the pool's account
//! holds, and the pool says what has to be paid out. Every trade has to leave
//! the product of the reserves, after a fee of three thousandths on what came
//! in, no smaller than it was.

use crate::account::{
    ledger_sum, lemma_ledger_sum_empty, lemma_ledger_sum_insert, AccountMap, Address, AllowanceMap,
    Grant,
};
use crate::error::PairError;
use crate::uint::{min_nat, pow2_256, U256};
use vstd::arithmetic::div_mod::{
    lemma_div_is_ordered_by_denominator, lemma_fundamental_div_mod, lemma_mod_bound,
};
use vstd::prelude::*;
use vstd::string::StringExecFns;

verus! {

/// The pool shares that the first deposit locks away for good.
pub const MINIMUM_LIQUIDITY: u64 = 1000;

/// The name of the pool's shares.
pub const LP_NAME: &'static str = "Ectoplasm LP Token";

/// The symbol of the pool's shares.
pub const LP_SYMBOL: &'static str = "ECTO-LP";

/// The decimals in which shares are given.
pub const LP_DECIMALS: u8 = 18;

/// Whether `root` is the square root of `y` rounded down.
pub open spec fn is_sqrt(y: nat, root: nat) -> bool {
    root * root <= y < (root + 1) * (root + 1)
}

/// The square root of `y` rounded down.
pub open spec fn isqrt(y: nat) -> nat {
    choose|root: nat| is_sqrt(y, root)
}

/// A number has at most one rounded-down square root.
pub proof fn lemma_sqrt_unique(y: nat, a: nat, b: nat)
    requires
        is_sqrt(y, a),
        is_sqrt(y, b),
    ensures
        a == b,
{
    if a < b {
        assert((a + 1) * (a + 1) <= b * b) by (nonlinear_arith)
            requires
                a + 1 <= b,
        ;
    }
    if b < a {
        assert((b + 1) * (b + 1) <= a * a) by (nonlinear_arith)
            requires
                b + 1 <= a,
        ;
    }
}

/// One step of Newton's method from any positive guess lands above the root.
proof fn lemma_newton_step(y: nat, x: nat)
    requires
        x > 0,
    ensures
        ((y / x + x) / 2 + 1) * ((y / x + x) / 2 + 1) > y,
{
    let q = y / x;
    let n = (q + x) / 2;
    lemma_fundamental_div_mod(y as int, x as int);
    lemma_mod_bound(y as int, x as int);
    let rest = y % x;
    assert(x * (q + 1) > y) by (nonlinear_arith)
        requires
            y == x * q + rest,
            rest < x,
    ;
    assert(2 * (n + 1) >= q + x + 1);
    assert(4 * ((n + 1) * (n + 1)) >= (q + x + 1) * (q + x + 1)) by (nonlinear_arith)
        requires
            2 * (n + 1) >= q + x + 1,
            q + x + 1 >= 0,
    ;
    assert((q + x + 1) * (q + x + 1) >= 4 * (x * (q + 1))) by (nonlinear_arith);
}

/// Half a number plus one lies above its root.
proof fn lemma_first_guess(y: nat)
    ensures
        (y / 2 + 1 + 1) * (y / 2 + 1 + 1) > y,
{
    let h = y / 2;
    assert(y <= 2 * h + 1);
    assert((h + 2) * (h + 2) > 2 * h + 1) by (nonlinear_arith);
}

/// A guess that a Newton step does not lower is not above the root.
proof fn lemma_newton_stop(y: nat, z: nat)
    requires
        z > 0,
        (y / z + z) / 2 >= z,
    ensures
        z * z <= y,
{
    let q = y / z;
    lemma_fundamental_div_mod(y as int, z as int);
    lemma_mod_bound(y as int, z as int);
    assert(q >= z);
    assert(z * q >= z * z) by (nonlinear_arith)
        requires
            q >= z,
    ;
}

/// A guess whose successor squared exceeds a number above three is at least two.
proof fn lemma_guess_at_least_two(y: nat, x: nat)
    requires
        y > 3,
        (x + 1) * (x + 1) > y,
    ensures
        x >= 2,
{
    if x < 2 {
        assert((x + 1) * (x + 1) <= 4) by (nonlinear_arith)
            requires
                x <= 1,
        ;
    }
}

/// The square root rounded down, by Newton's method on integers.
pub fn sqrt(y: U256) -> (r: U256)
    ensures
        is_sqrt(y@, r@),
        r@ == isqrt(y@),
{
    let r = sqrt_newton(y);
    proof {
        lemma_sqrt_unique(y@, r@, isqrt(y@));
    }
    r
}

/// Newton's method: from half the number plus one, each step takes the mean
/// of the guess and the number divided by it, until the guess stops falling.
fn sqrt_newton(y: U256) -> (r: U256)
    ensures
        is_sqrt(y@, r@),
{
    if U256::from_u64(3).lt(&y) {
        proof {
            crate::uint::lemma_u256_bound(y);
            lemma_first_guess(y@);
        }
        let two = U256::from_u64(2);
        let one = U256::from_u64(1);
        let half = y.checked_div(two).unwrap();
        let mut z = y;
        assert((y@ + 1) * (y@ + 1) > y@) by (nonlinear_arith);
        let mut x = half.checked_add(one).unwrap();
        while x.lt(&z)
            invariant
                y@ > 3,
                y@ < pow2_256(),
                two@ == 2,
                (x@ + 1) * (x@ + 1) > y@,
                (z@ + 1) * (z@ + 1) > y@,
                x@ <= y@ / 2 + 1,
                z@ == y@ && x@ == y@ / 2 + 1 || z@ > 0 && x@ == (y@ / z@ + z@) / 2,
            decreases z@,
        {
            z = x;
            proof {
                lemma_guess_at_least_two(y@, z@);
                lemma_div_is_ordered_by_denominator(y@ as int, 2, z@ as int);
                lemma_newton_step(y@, z@);
            }
            let quotient = y.checked_div(z).unwrap();
            let sum = quotient.checked_add(z).unwrap();
            x = sum.checked_div(two).unwrap();
        }
        proof {
            lemma_newton_stop(y@, z@);
            assert(z@ != y@ || x@ != y@ / 2 + 1);
        }
        z
    } else if !y.is_zero() {
        assert(1nat * 1nat == 1 && 2nat * 2nat == 4) by (nonlinear_arith);
        U256::from_u64(1)
    } else {
        assert(0nat * 0nat == 0 && 1nat * 1nat == 1) by (nonlinear_arith);
        U256::zero()
    }
}

/// The smaller of two amounts.
pub fn min(a: U256, b: U256) -> (r: U256)
    ensures
        r@ == min_nat(a@, b@),
        r == a || r == b,
{
    if a.lt(&b) {
        a
    } else {
        b
    }
}

/// A pool as plain numbers.
pub ghost struct PoolState {
    pub token0: Address,
    pub token1: Address,
    pub factory: Address,
    pub reserve0: nat,
    pub reserve1: nat,
    pub block_timestamp_last: nat,
    pub lp_total_supply: nat,
    pub lp_balances: Map<Address, nat>,
    pub lp_allowances: Map<Grant, nat>,
    pub locked: bool,
}

/// One pool: the reserves of its two tokens and the ledger of its shares.
pub struct Pair {
    pub token0: Address,
    pub token1: Address,
    pub factory: Address,
    pub reserve0: U256,
    pub reserve1: U256,
    pub block_timestamp_last: u64,
    pub lp_total_supply: U256,
    pub lp_balances: AccountMap<U256>,
    pub lp_allowances: AllowanceMap<U256>,
    pub locked: bool,
}

impl View for Pair {
    type V = PoolState;

    open spec fn view(&self) -> PoolState {
        PoolState {
            token0: self.token0,
            token1: self.token1,
            factory: self.factory,
            reserve0: self.reserve0@,
            reserve1: self.reserve1@,
            block_timestamp_last: self.block_timestamp_last as nat,
            lp_total_supply: self.lp_total_supply@,
            lp_balances: self.lp_balances@.map_values(|v: U256| v@),
            lp_allowances: self.lp_allowances@.map_values(|v: U256| v@),
            locked: self.locked,
        }
    }
}

/// The address whose shares nobody can spend: thirty-two zero bytes.
pub open spec fn burn_address() -> Address {
    Address::spec_zero()
}

/// What came in of one token: the balance above what the reserve keeps after
/// the output left, or nothing.
pub open spec fn amount_in(balance: nat, reserve: nat, amount_out: nat) -> nat {
    if balance > reserve - amount_out {
        (balance - (reserve - amount_out)) as nat
    } else {
        0
    }
}

/// A balance in thousandths, less three thousandths of what came in.
pub open spec fn adjusted_balance(balance: nat, amount_in: nat) -> int {
    balance * 1000 - amount_in * 3
}

/// Whether the fee-adjusted product of the new balances is no smaller than
/// the product of the old reserves.
pub open spec fn k_holds(
    reserve0: nat,
    reserve1: nat,
    balance0: nat,
    balance1: nat,
    amount0_in: nat,
    amount1_in: nat,
) -> bool {
    adjusted_balance(balance0, amount0_in) * adjusted_balance(balance1, amount1_in) >= reserve0
        * reserve1 * 1000 * 1000
}

impl PoolState {
    /// The shares that an account holds.
    pub open spec fn balance_of(self, who: Address) -> nat {
        if self.lp_balances.contains_key(who) {
            self.lp_balances[who]
        } else {
            0
        }
    }

    /// Whether shares can be issued: the balance and the total stay in range.
    pub open spec fn credit_fits(self, who: Address, amount: nat) -> bool {
        &&& self.balance_of(who) + amount < pow2_256()
        &&& self.lp_total_supply + amount < pow2_256()
    }

    /// The pool after shares are issued to an account.
    pub open spec fn credit(self, who: Address, amount: nat) -> PoolState {
        PoolState {
            lp_balances: self.lp_balances.insert(who, self.balance_of(who) + amount),
            lp_total_supply: self.lp_total_supply + amount,
            ..self
        }
    }

    /// Why shares cannot be taken back, or `None` where they can.
    pub open spec fn debit_error(self, who: Address, amount: nat) -> Option<PairError> {
        if self.balance_of(who) < amount {
            Some(PairError::InsufficientBalance)
        } else if self.lp_total_supply < amount {
            Some(PairError::Overflow)
        } else {
            None
        }
    }

    /// The pool after shares are taken back from an account.
    pub open spec fn debit(self, who: Address, amount: nat) -> PoolState {
        PoolState {
            lp_balances: self.lp_balances.insert(who, (self.balance_of(who) - amount) as nat),
            lp_total_supply: (self.lp_total_supply - amount) as nat,
            ..self
        }
    }

    /// Why a transfer of shares fails, or `None` where it succeeds.
    pub open spec fn transfer_error(self, sender: Address, recipient: Address, amount: nat)
        -> Option<PairError> {
        if self.balance_of(sender) < amount {
            Some(PairError::InsufficientBalance)
        } else if sender != recipient && self.balance_of(recipient) + amount >= pow2_256() {
            Some(PairError::Overflow)
        } else {
            None
        }
    }

    /// The pool after shares moved from one account to another.
    pub open spec fn after_transfer(self, sender: Address, recipient: Address, amount: nat)
        -> PoolState {
        let taken = self.lp_balances.insert(sender, (self.balance_of(sender) - amount) as nat);
        let recipient_before = if sender == recipient {
            (self.balance_of(sender) - amount) as nat
        } else {
            self.balance_of(recipient)
        };
        PoolState { lp_balances: taken.insert(recipient, recipient_before + amount), ..self }
    }

    /// The shares that a spender may still move for an owner.
    pub open spec fn allowance(self, owner: Address, spender: Address) -> nat {
        if self.lp_allowances.contains_key(Grant { owner, spender }) {
            self.lp_allowances[Grant { owner, spender }]
        } else {
            0
        }
    }

    /// The pool after an allowance of shares is set.
    pub open spec fn after_approve(self, owner: Address, spender: Address, amount: nat)
        -> PoolState {
        PoolState {
            lp_allowances: self.lp_allowances.insert(Grant { owner, spender }, amount),
            ..self
        }
    }

    /// Why a transfer of shares by a spender fails, or `None` where it succeeds.
    pub open spec fn transfer_from_error(
        self,
        spender: Address,
        owner: Address,
        recipient: Address,
        amount: nat,
    ) -> Option<PairError> {
        if self.allowance(owner, spender) < amount {
            Some(PairError::InsufficientAllowance)
        } else {
            self.transfer_error(owner, recipient, amount)
        }
    }

    /// The pool after shares moved on a spender's allowance.
    pub open spec fn after_transfer_from(
        self,
        spender: Address,
        owner: Address,
        recipient: Address,
        amount: nat,
    ) -> PoolState {
        self.after_approve(
            owner,
            spender,
            (self.allowance(owner, spender) - amount) as nat,
        ).after_transfer(owner, recipient, amount)
    }

    /// The pool with new reserves.
    pub open spec fn with_reserves(self, balance0: nat, balance1: nat) -> PoolState {
        PoolState { reserve0: balance0, reserve1: balance1, block_timestamp_last: 0, ..self }
    }

    /// The shares that a deposit earns: for the first deposit the root of the
    /// product of the amounts less the locked minimum, later the smaller of
    /// the two amounts' proportions of the shares in issue.
    pub open spec fn mint_liquidity(self, balance0: nat, balance1: nat) -> nat {
        let amount0 = (balance0 - self.reserve0) as nat;
        let amount1 = (balance1 - self.reserve1) as nat;
        if self.lp_total_supply == 0 {
            (isqrt(amount0 * amount1) - 1000) as nat
        } else {
            min_nat(
                amount0 * self.lp_total_supply / self.reserve0,
                amount1 * self.lp_total_supply / self.reserve1,
            )
        }
    }

    /// Whether the shares of a deposit can be computed.
    pub open spec fn mint_fits(self, balance0: nat, balance1: nat) -> bool {
        let amount0 = (balance0 - self.reserve0) as nat;
        let amount1 = (balance1 - self.reserve1) as nat;
        &&& self.reserve0 <= balance0
        &&& self.reserve1 <= balance1
        &&& if self.lp_total_supply == 0 {
            amount0 * amount1 < pow2_256()
        } else {
            &&& self.reserve0 != 0
            &&& self.reserve1 != 0
            &&& amount0 * self.lp_total_supply < pow2_256()
            &&& amount1 * self.lp_total_supply < pow2_256()
        }
    }

    /// The pool after the locked minimum is issued, where this is the first deposit.
    pub open spec fn with_minimum_locked(self) -> PoolState {
        if self.lp_total_supply == 0 {
            self.credit(burn_address(), 1000)
        } else {
            self
        }
    }

    /// Whether a deposit earns nothing: the first one where the root of the
    /// product of the amounts is not above the locked minimum, a later one
    /// where the smaller proportion rounds down to nothing.
    pub open spec fn mint_earns_nothing(self, balance0: nat, balance1: nat) -> bool {
        if self.lp_total_supply == 0 {
            isqrt(((balance0 - self.reserve0) * (balance1 - self.reserve1)) as nat) <= 1000
        } else {
            self.mint_liquidity(balance0, balance1) == 0
        }
    }

    /// Why a deposit fails, or `None` where it succeeds.
    pub open spec fn mint_error(self, to: Address, balance0: nat, balance1: nat) -> Option<
        PairError,
    > {
        if self.locked {
            Some(PairError::Locked)
        } else if !self.mint_fits(balance0, balance1) {
            Some(PairError::Overflow)
        } else if self.mint_earns_nothing(balance0, balance1) {
            Some(PairError::InsufficientLiquidityMinted)
        } else if self.lp_total_supply == 0 && !self.credit_fits(burn_address(), 1000) {
            Some(PairError::Overflow)
        } else if !self.with_minimum_locked().credit_fits(
            to,
            self.mint_liquidity(balance0, balance1),
        ) {
            Some(PairError::Overflow)
        } else {
            None
        }
    }

    /// The pool after a deposit.
    pub open spec fn after_mint(self, to: Address, balance0: nat, balance1: nat) -> PoolState {
        self.with_minimum_locked().credit(
            to,
            self.mint_liquidity(balance0, balance1),
        ).with_reserves(balance0, balance1)
    }

    /// The amount of one token that shares redeem.
    pub open spec fn burn_amount(self, liquidity: nat, balance: nat) -> nat {
        liquidity * balance / self.lp_total_supply
    }

    /// Why a redemption fails, or `None` where it succeeds.
    pub open spec fn burn_error(self, pool: Address, balance0: nat, balance1: nat) -> Option<
        PairError,
    > {
        let liquidity = self.balance_of(pool);
        if self.locked {
            Some(PairError::Locked)
        } else if self.lp_total_supply == 0 || liquidity * balance0 >= pow2_256() || liquidity
            * balance1 >= pow2_256() {
            Some(PairError::Overflow)
        } else if self.burn_amount(liquidity, balance0) == 0 || self.burn_amount(
            liquidity,
            balance1,
        ) == 0 {
            Some(PairError::InsufficientLiquidityBurned)
        } else {
            self.debit_error(pool, liquidity)
        }
    }

    /// The pool after a redemption, with the lock held.
    pub open spec fn after_burn(self, pool: Address) -> PoolState {
        PoolState { locked: true, ..self.debit(pool, self.balance_of(pool)) }
    }

    /// Why a trade cannot be opened, or `None` where it can.
    pub open spec fn swap_error(self, amount0_out: nat, amount1_out: nat) -> Option<PairError> {
        if self.locked {
            Some(PairError::Locked)
        } else if amount0_out == 0 && amount1_out == 0 {
            Some(PairError::InsufficientOutputAmount)
        } else if amount0_out >= self.reserve0 || amount1_out >= self.reserve1 {
            Some(PairError::InsufficientLiquidity)
        } else {
            None
        }
    }

    /// What came in of the first token.
    pub open spec fn amount0_in(self, amount0_out: nat, balance0: nat) -> nat {
        amount_in(balance0, self.reserve0, amount0_out)
    }

    /// What came in of the second token.
    pub open spec fn amount1_in(self, amount1_out: nat, balance1: nat) -> nat {
        amount_in(balance1, self.reserve1, amount1_out)
    }

    /// Whether every step of the product check fits in 256 bits.
    pub open spec fn k_check_fits(
        self,
        amount0_out: nat,
        amount1_out: nat,
        balance0: nat,
        balance1: nat,
    ) -> bool {
        let in0 = self.amount0_in(amount0_out, balance0);
        let in1 = self.amount1_in(amount1_out, balance1);
        &&& balance0 * 1000 < pow2_256()
        &&& balance1 * 1000 < pow2_256()
        &&& in0 * 3 < pow2_256()
        &&& in1 * 3 < pow2_256()
        &&& adjusted_balance(balance0, in0) >= 0
        &&& adjusted_balance(balance1, in1) >= 0
        &&& self.reserve0 * self.reserve1 * 1000 * 1000 < pow2_256()
        &&& adjusted_balance(balance0, in0) * adjusted_balance(balance1, in1) < pow2_256()
    }

    /// Why a trade cannot be settled, or `None` where it can. A trade is
    /// settled only while it is open: the lock is held, and the outputs are
    /// such as a trade is opened with.
    pub open spec fn settle_swap_error(
        self,
        amount0_out: nat,
        amount1_out: nat,
        balance0: nat,
        balance1: nat,
    ) -> Option<PairError> {
        let in0 = self.amount0_in(amount0_out, balance0);
        let in1 = self.amount1_in(amount1_out, balance1);
        if !self.locked {
            Some(PairError::Locked)
        } else if amount0_out == 0 && amount1_out == 0 {
            Some(PairError::InsufficientOutputAmount)
        } else if amount0_out >= self.reserve0 || amount1_out >= self.reserve1 {
            Some(PairError::InsufficientLiquidity)
        } else if in0 == 0 && in1 == 0 {
            Some(PairError::InsufficientInputAmount)
        } else if !self.k_check_fits(amount0_out, amount1_out, balance0, balance1) {
            Some(PairError::Overflow)
        } else if !k_holds(self.reserve0, self.reserve1, balance0, balance1, in0, in1) {
            Some(PairError::K)
        } else {
            None
        }
    }
}

impl Pair {
    /// A new pool with empty reserves and no shares in issue.
    pub fn new(token0: Address, token1: Address, factory: Address) -> (r: Pair)
        ensures
            r@ == (PoolState {
                token0,
                token1,
                factory,
                reserve0: 0,
                reserve1: 0,
                block_timestamp_last: 0,
                lp_total_supply: 0,
                lp_balances: Map::empty(),
                lp_allowances: Map::empty(),
                locked: false,
            }),
    {
        let r = Pair {
            token0,
            token1,
            factory,
            reserve0: U256::zero(),
            reserve1: U256::zero(),
            block_timestamp_last: 0,
            lp_total_supply: U256::zero(),
            lp_balances: AccountMap::new(),
            lp_allowances: AllowanceMap::new(),
            locked: false,
        };
        assert(r@.lp_balances =~= Map::empty());
        assert(r@.lp_allowances =~= Map::empty());
        r
    }

    /// The name of the pool's shares.
    pub fn name(&self) -> (r: String)
        ensures
            r@ == LP_NAME@,
    {
        String::from_str(LP_NAME)
    }

    /// The symbol of the pool's shares.
    pub fn symbol(&self) -> (r: String)
        ensures
            r@ == LP_SYMBOL@,
    {
        String::from_str(LP_SYMBOL)
    }

    /// The decimals in which shares are given.
    pub fn decimals(&self) -> (r: u8)
        ensures
            r == LP_DECIMALS,
    {
        LP_DECIMALS
    }

    /// The first token of the pair.
    pub fn token0(&self) -> (r: Address)
        ensures
            r == self@.token0,
    {
        self.token0
    }

    /// The second token of the pair.
    pub fn token1(&self) -> (r: Address)
        ensures
            r == self@.token1,
    {
        self.token1
    }

    /// The factory that made the pool.
    pub fn factory(&self) -> (r: Address)
        ensures
            r == self@.factory,
    {
        self.factory
    }

    /// The two reserves and the time of their last update.
    pub fn get_reserves(&self) -> (r: (U256, U256, u64))
        ensures
            r.0@ == self@.reserve0,
            r.1@ == self@.reserve1,
            r.2 == self@.block_timestamp_last,
    {
        (self.reserve0, self.reserve1, self.block_timestamp_last)
    }

    /// The shares in issue.
    pub fn total_supply(&self) -> (r: U256)
        ensures
            r@ == self@.lp_total_supply,
    {
        self.lp_total_supply
    }

    /// The shares that an account holds.
    pub fn balance_of(&self, owner: &Address) -> (r: U256)
        ensures
            r@ == self@.balance_of(*owner),
    {
        match self.lp_balances.get(owner) {
            Some(v) => v,
            None => U256::zero(),
        }
    }

    /// Whether a guarded operation is under way.
    pub fn is_locked(&self) -> (r: bool)
        ensures
            r == self@.locked,
    {
        self.locked
    }

    /// Takes the lock; fails with `Locked` where it is held.
    pub fn lock(&mut self) -> (r: Result<(), PairError>)
        ensures
            match r {
                Ok(()) => !old(self)@.locked && final(self)@ == (PoolState {
                    locked: true,
                    ..old(self)@
                }),
                Err(e) => e == PairError::Locked && old(self)@.locked && final(self)@ == old(self)@,
            },
    {
        if self.locked {
            return Err(PairError::Locked);
        }
        self.locked = true;
        Ok(())
    }

    /// Releases the lock.
    pub fn unlock(&mut self)
        ensures
            final(self)@ == (PoolState { locked: false, ..old(self)@ }),
    {
        self.locked = false;
    }

    /// Issues shares to an account; `Overflow` where a total leaves its range.
    fn mint_lp(&mut self, to: Address, amount: U256) -> (r: Result<(), PairError>)
        ensures
            match r {
                Ok(()) => old(self)@.credit_fits(to, amount@) && final(self)@
                    == old(self)@.credit(to, amount@),
                Err(e) => e == PairError::Overflow && !old(self)@.credit_fits(to, amount@)
                    && final(self)@ == old(self)@,
            },
    {
        let balance = match self.balance_of(&to).checked_add(amount) {
            Some(v) => v,
            None => { return Err(PairError::Overflow); },
        };
        let total = match self.lp_total_supply.checked_add(amount) {
            Some(v) => v,
            None => { return Err(PairError::Overflow); },
        };
        self.lp_balances.insert(to, balance);
        self.lp_total_supply = total;
        proof {
            assert(self@.lp_balances =~= old(self)@.credit(to, amount@).lp_balances);
        }
        Ok(())
    }

    /// Takes shares back from an account.
    fn burn_lp(&mut self, from: Address, amount: U256) -> (r: Result<(), PairError>)
        ensures
            match r {
                Ok(()) => old(self)@.debit_error(from, amount@) is None && final(self)@
                    == old(self)@.debit(from, amount@),
                Err(e) => old(self)@.debit_error(from, amount@) == Some(e) && final(self)@
                    == old(self)@,
            },
    {
        let balance = match self.balance_of(&from).checked_sub(amount) {
            Some(v) => v,
            None => { return Err(PairError::InsufficientBalance); },
        };
        let total = match self.lp_total_supply.checked_sub(amount) {
            Some(v) => v,
            None => { return Err(PairError::Overflow); },
        };
        self.lp_balances.insert(from, balance);
        self.lp_total_supply = total;
        proof {
            assert(self@.lp_balances =~= old(self)@.debit(from, amount@).lp_balances);
        }
        Ok(())
    }

    /// Moves shares from one account to another.
    pub fn transfer(&mut self, sender: Address, recipient: Address, amount: U256) -> (r: Result<
        (),
        PairError,
    >)
        ensures
            match r {
                Ok(()) => old(self)@.transfer_error(sender, recipient, amount@) is None
                    && final(self)@ == old(self)@.after_transfer(sender, recipient, amount@),
                Err(e) => old(self)@.transfer_error(sender, recipient, amount@) == Some(e)
                    && final(self)@ == old(self)@,
            },
    {
        let sender_balance = match self.balance_of(&sender).checked_sub(amount) {
            Some(v) => v,
            None => { return Err(PairError::InsufficientBalance); },
        };
        let recipient_before = if sender.same(&recipient) {
            sender_balance
        } else {
            self.balance_of(&recipient)
        };
        let recipient_balance = match recipient_before.checked_add(amount) {
            Some(v) => v,
            None => { return Err(PairError::Overflow); },
        };
        self.lp_balances.insert(sender, sender_balance);
        self.lp_balances.insert(recipient, recipient_balance);
        proof {
            assert(self@.lp_balances =~= old(self)@.after_transfer(
                sender,
                recipient,
                amount@,
            ).lp_balances);
        }
        Ok(())
    }

    /// The shares that a spender may still move for an owner.
    pub fn allowance(&self, owner: &Address, spender: &Address) -> (r: U256)
        ensures
            r@ == self@.allowance(*owner, *spender),
    {
        match self.lp_allowances.get(&Grant { owner: *owner, spender: *spender }) {
            Some(v) => v,
            None => U256::zero(),
        }
    }

    /// Lets a spender move up to `amount` of the caller's shares.
    pub fn approve(&mut self, caller: Address, spender: Address, amount: U256)
        ensures
            final(self)@ == old(self)@.after_approve(caller, spender, amount@),
    {
        self.lp_allowances.insert(Grant { owner: caller, spender }, amount);
        proof {
            assert(self@.lp_allowances =~= old(self)@.after_approve(
                caller,
                spender,
                amount@,
            ).lp_allowances);
        }
    }

    /// Moves an owner's shares to a recipient on the caller's allowance,
    /// which shrinks by the amount.
    pub fn transfer_from(
        &mut self,
        caller: Address,
        owner: Address,
        recipient: Address,
        amount: U256,
    ) -> (r: Result<(), PairError>)
        ensures
            match r {
                Ok(()) => old(self)@.transfer_from_error(caller, owner, recipient, amount@)
                    is None && final(self)@ == old(self)@.after_transfer_from(
                    caller,
                    owner,
                    recipient,
                    amount@,
                ),
                Err(e) => old(self)@.transfer_from_error(caller, owner, recipient, amount@)
                    == Some(e) && final(self)@ == old(self)@,
            },
    {
        let left = match self.allowance(&owner, &caller).checked_sub(amount) {
            Some(v) => v,
            None => { return Err(PairError::InsufficientAllowance); },
        };
        // The balances are checked before anything is written, so that a
        // failure leaves the allowance as it was.
        let sender_balance = match self.balance_of(&owner).checked_sub(amount) {
            Some(v) => v,
            None => { return Err(PairError::InsufficientBalance); },
        };
        let recipient_before = if owner.same(&recipient) {
            sender_balance
        } else {
            self.balance_of(&recipient)
        };
        if recipient_before.checked_add(amount).is_none() {
            return Err(PairError::Overflow);
        }
        self.approve(owner, caller, left);
        self.transfer(owner, recipient, amount)
    }

    /// Sets the reserves.
    fn update_reserves(&mut self, balance0: U256, balance1: U256)
        ensures
            final(self)@ == old(self)@.with_reserves(balance0@, balance1@),
    {
        self.reserve0 = balance0;
        self.reserve1 = balance1;
        self.block_timestamp_last = 0;
    }

    /// Takes the balances that the pool's account holds as the new reserves.
    pub fn sync(&mut self, balance0: U256, balance1: U256)
        ensures
            final(self)@ == old(self)@.with_reserves(balance0@, balance1@),
    {
        self.update_reserves(balance0, balance1);
    }

    /// What the pool's account holds above the reserves of each token: the
    /// host pays these amounts to whoever asked.
    pub fn skim(&self, balance0: U256, balance1: U256) -> (r: (U256, U256))
        ensures
            r.0@ == (if balance0@ > self@.reserve0 {
                balance0@ - self@.reserve0
            } else {
                0
            }),
            r.1@ == (if balance1@ > self@.reserve1 {
                balance1@ - self@.reserve1
            } else {
                0
            }),
    {
        let excess0 = match balance0.checked_sub(self.reserve0) {
            Some(v) => v,
            None => U256::zero(),
        };
        let excess1 = match balance1.checked_sub(self.reserve1) {
            Some(v) => v,
            None => U256::zero(),
        };
        (excess0, excess1)
    }

    /// The shares that a deposit earns.
    fn mint_shares(&self, balance0: U256, balance1: U256) -> (r: Result<U256, PairError>)
        ensures
            match r {
                Ok(liquidity) => {
                    &&& self@.mint_fits(balance0@, balance1@)
                    &&& !self@.mint_earns_nothing(balance0@, balance1@)
                    &&& liquidity@ == self@.mint_liquidity(balance0@, balance1@)
                },
                Err(e) => e == (if self@.mint_fits(balance0@, balance1@) {
                    PairError::InsufficientLiquidityMinted
                } else {
                    PairError::Overflow
                }) && (!self@.mint_fits(balance0@, balance1@) || self@.mint_earns_nothing(
                    balance0@,
                    balance1@,
                )),
            },
    {
        let amount0 = match balance0.checked_sub(self.reserve0) {
            Some(v) => v,
            None => { return Err(PairError::Overflow); },
        };
        let amount1 = match balance1.checked_sub(self.reserve1) {
            Some(v) => v,
            None => { return Err(PairError::Overflow); },
        };
        let liquidity = if self.lp_total_supply.is_zero() {
            let product = match amount0.checked_mul(amount1) {
                Some(v) => v,
                None => { return Err(PairError::Overflow); },
            };
            match sqrt(product).checked_sub(U256::from_u64(MINIMUM_LIQUIDITY)) {
                Some(v) => v,
                None => { return Err(PairError::InsufficientLiquidityMinted); },
            }
        } else {
            let scaled0 = match amount0.checked_mul(self.lp_total_supply) {
                Some(v) => v,
                None => { return Err(PairError::Overflow); },
            };
            let scaled1 = match amount1.checked_mul(self.lp_total_supply) {
                Some(v) => v,
                None => { return Err(PairError::Overflow); },
            };
            let liquidity0 = match scaled0.checked_div(self.reserve0) {
                Some(v) => v,
                None => { return Err(PairError::Overflow); },
            };
            let liquidity1 = match scaled1.checked_div(self.reserve1) {
                Some(v) => v,
                None => { return Err(PairError::Overflow); },
            };
            min(liquidity0, liquidity1)
        };
        if liquidity.is_zero() {
            return Err(PairError::InsufficientLiquidityMinted);
        }
        Ok(liquidity)
    }

    /// Issues shares for what was deposited: the balances that the pool's
    /// account holds above the reserves. The first deposit locks
    /// `MINIMUM_LIQUIDITY` shares at the zero address. Returns the shares
    /// issued to `to`; the lock is taken and released within the call.
    pub fn mint(&mut self, to: Address, balance0: U256, balance1: U256) -> (r: Result<
        U256,
        PairError,
    >)
        ensures
            match r {
                Ok(liquidity) => {
                    &&& old(self)@.mint_error(to, balance0@, balance1@) is None
                    &&& final(self)@ == old(self)@.after_mint(to, balance0@, balance1@)
                    &&& liquidity@ == old(self)@.mint_liquidity(balance0@, balance1@)
                },
                Err(e) => old(self)@.mint_error(to, balance0@, balance1@) == Some(e) && final(self)@
                    == old(self)@,
            },
    {
        if self.locked {
            return Err(PairError::Locked);
        }
        let liquidity = match self.mint_shares(balance0, balance1) {
            Ok(v) => v,
            Err(e) => { return Err(e); },
        };
        if self.lp_total_supply.is_zero() {
            let minimum = U256::from_u64(MINIMUM_LIQUIDITY);
            let burn = Address::zero();
            // Both issues are checked before either is written, so that a
            // failure leaves the ledger as it was.
            let locked_balance = match self.balance_of(&burn).checked_add(minimum) {
                Some(v) => v,
                None => { return Err(PairError::Overflow); },
            };
            let to_before = if to.same(&burn) {
                locked_balance
            } else {
                self.balance_of(&to)
            };
            if to_before.checked_add(liquidity).is_none() || minimum.checked_add(
                liquidity,
            ).is_none() {
                return Err(PairError::Overflow);
            }
            let ghost before = self@;
            match self.mint_lp(burn, minimum) {
                Ok(()) => {},
                Err(e) => { return Err(e); },
            }
            assert(self@ == before.with_minimum_locked());
        }
        match self.mint_lp(to, liquidity) {
            Ok(()) => {},
            Err(e) => { return Err(e); },
        }
        self.update_reserves(balance0, balance1);
        Ok(liquidity)
    }

    /// Redeems the shares that the pool's own account holds for their part of
    /// the balances. On success the shares are gone and the lock is held: the
    /// host pays the two returned amounts out, calls `sync` with the balances
    /// that are left, and releases the lock.
    pub fn burn(&mut self, pool: Address, balance0: U256, balance1: U256) -> (r: Result<
        (U256, U256),
        PairError,
    >)
        ensures
            match r {
                Ok((amount0, amount1)) => {
                    &&& old(self)@.burn_error(pool, balance0@, balance1@) is None
                    &&& final(self)@ == old(self)@.after_burn(pool)
                    &&& amount0@ == old(self)@.burn_amount(old(self)@.balance_of(pool), balance0@)
                    &&& amount1@ == old(self)@.burn_amount(old(self)@.balance_of(pool), balance1@)
                },
                Err(e) => old(self)@.burn_error(pool, balance0@, balance1@) == Some(e)
                    && final(self)@ == old(self)@,
            },
    {
        if self.locked {
            return Err(PairError::Locked);
        }
        let liquidity = self.balance_of(&pool);
        let total_supply = self.lp_total_supply;
        if total_supply.is_zero() {
            return Err(PairError::Overflow);
        }
        let scaled0 = match liquidity.checked_mul(balance0) {
            Some(v) => v,
            None => { return Err(PairError::Overflow); },
        };
        let scaled1 = match liquidity.checked_mul(balance1) {
            Some(v) => v,
            None => { return Err(PairError::Overflow); },
        };
        let amount0 = match scaled0.checked_div(total_supply) {
            Some(v) => v,
            None => { return Err(PairError::Overflow); },
        };
        let amount1 = match scaled1.checked_div(total_supply) {
            Some(v) => v,
            None => { return Err(PairError::Overflow); },
        };
        if amount0.is_zero() || amount1.is_zero() {
            return Err(PairError::InsufficientLiquidityBurned);
        }
        match self.burn_lp(pool, liquidity) {
            Ok(()) => {},
            Err(e) => { return Err(e); },
        }
        self.locked = true;
        Ok((amount0, amount1))
    }

    /// Opens a trade that pays out the given amounts. On success the lock is
    /// held and nothing else has changed: the host pays the outputs to the
    /// recipient, then calls `settle_swap` with the balances that the pool's
    /// account holds afterwards.
    pub fn swap(&mut self, amount0_out: U256, amount1_out: U256) -> (r: Result<(), PairError>)
        ensures
            match r {
                Ok(()) => old(self)@.swap_error(amount0_out@, amount1_out@) is None
                    && final(self)@ == (PoolState { locked: true, ..old(self)@ }),
                Err(e) => old(self)@.swap_error(amount0_out@, amount1_out@) == Some(e)
                    && final(self)@ == old(self)@,
            },
    {
        if self.locked {
            return Err(PairError::Locked);
        }
        if amount0_out.is_zero() && amount1_out.is_zero() {
            return Err(PairError::InsufficientOutputAmount);
        }
        if !amount0_out.lt(&self.reserve0) || !amount1_out.lt(&self.reserve1) {
            return Err(PairError::InsufficientLiquidity);
        }
        self.locked = true;
        Ok(())
    }

    /// What came in of one token whose output is within the reserve.
    fn inferred_input(balance: U256, reserve: U256, amount_out: U256) -> (r: U256)
        requires
            amount_out@ <= reserve@,
        ensures
            r@ == amount_in(balance@, reserve@, amount_out@),
    {
        let kept = reserve.checked_sub(amount_out).unwrap();
        match balance.checked_sub(kept) {
            Some(v) => v,
            None => U256::zero(),
        }
    }

    /// A balance in thousandths less three thousandths of what came in, or
    /// `None` where a step leaves 256 bits.
    fn adjust_balance(balance: U256, amount_in: U256) -> (r: Option<U256>)
        ensures
            r is Some <==> balance@ * 1000 < pow2_256() && amount_in@ * 3 < pow2_256()
                && adjusted_balance(balance@, amount_in@) >= 0,
            r is Some ==> r->Some_0@ == adjusted_balance(balance@, amount_in@),
    {
        let scaled = match balance.checked_mul(U256::from_u64(1000)) {
            Some(v) => v,
            None => { return None; },
        };
        let fee = match amount_in.checked_mul(U256::from_u64(3)) {
            Some(v) => v,
            None => { return None; },
        };
        scaled.checked_sub(fee)
    }

    /// Settles a trade whose outputs are paid: infers what came in from the
    /// balances, checks the fee-adjusted product against the old reserves,
    /// takes the balances as the new reserves and releases the lock. Returns
    /// the two inferred inputs. Fails with `Locked` where no trade is open:
    /// the lock is not held.
    pub fn settle_swap(
        &mut self,
        amount0_out: U256,
        amount1_out: U256,
        balance0: U256,
        balance1: U256,
    ) -> (r: Result<(U256, U256), PairError>)
        ensures
            match r {
                Ok((amount0_in, amount1_in)) => {
                    &&& old(self)@.settle_swap_error(
                        amount0_out@,
                        amount1_out@,
                        balance0@,
                        balance1@,
                    ) is None
                    &&& amount0_in@ == old(self)@.amount0_in(amount0_out@, balance0@)
                    &&& amount1_in@ == old(self)@.amount1_in(amount1_out@, balance1@)
                    &&& final(self)@ == (PoolState {
                        locked: false,
                        ..old(self)@.with_reserves(balance0@, balance1@)
                    })
                    &&& k_holds(
                        old(self)@.reserve0,
                        old(self)@.reserve1,
                        final(self)@.reserve0,
                        final(self)@.reserve1,
                        amount0_in@,
                        amount1_in@,
                    )
                },
                Err(e) => old(self)@.settle_swap_error(
                    amount0_out@,
                    amount1_out@,
                    balance0@,
                    balance1@,
                ) == Some(e) && final(self)@ == old(self)@,
            },
    {
        if !self.locked {
            return Err(PairError::Locked);
        }
        if amount0_out.is_zero() && amount1_out.is_zero() {
            return Err(PairError::InsufficientOutputAmount);
        }
        if !amount0_out.lt(&self.reserve0) || !amount1_out.lt(&self.reserve1) {
            return Err(PairError::InsufficientLiquidity);
        }
        let amount0_in = Self::inferred_input(balance0, self.reserve0, amount0_out);
        let amount1_in = Self::inferred_input(balance1, self.reserve1, amount1_out);
        if amount0_in.is_zero() && amount1_in.is_zero() {
            return Err(PairError::InsufficientInputAmount);
        }
        let balance0_adjusted = match Self::adjust_balance(balance0, amount0_in) {
            Some(v) => v,
            None => { return Err(PairError::Overflow); },
        };
        let balance1_adjusted = match Self::adjust_balance(balance1, amount1_in) {
            Some(v) => v,
            None => { return Err(PairError::Overflow); },
        };
        let thousand = U256::from_u64(1000);
        let product = match self.reserve0.checked_mul(self.reserve1) {
            Some(v) => v,
            None => { return Err(PairError::Overflow); },
        };
        let product_scaled = match product.checked_mul(thousand) {
            Some(v) => v,
            None => { return Err(PairError::Overflow); },
        };
        let k_before = match product_scaled.checked_mul(thousand) {
            Some(v) => v,
            None => { return Err(PairError::Overflow); },
        };
        let k_after = match balance0_adjusted.checked_mul(balance1_adjusted) {
            Some(v) => v,
            None => { return Err(PairError::Overflow); },
        };
        if k_after.lt(&k_before) {
            return Err(PairError::K);
        }
        self.update_reserves(balance0, balance1);
        self.locked = false;
        Ok((amount0_in, amount1_in))
    }
}

impl PoolState {
    /// Whether the shares in issue are the sum of all holdings, the locked
    /// minimum included.
    pub open spec fn shares_accounted(self) -> bool {
        self.lp_balances.dom().finite() && ledger_sum(self.lp_balances) == self.lp_total_supply
    }
}

/// A trade that was opened is not refused at settlement for how it was
/// opened: between `swap` and `settle_swap` only the lock has changed, and
/// what is left to fail is the input, the arithmetic and the product.
pub proof fn lemma_opened_swap_settles(
    pool: PoolState,
    amount0_out: nat,
    amount1_out: nat,
    balance0: nat,
    balance1: nat,
)
    requires
        pool.swap_error(amount0_out, amount1_out) is None,
    ensures
        ({
            let open = PoolState { locked: true, ..pool };
            let outcome = open.settle_swap_error(amount0_out, amount1_out, balance0, balance1);
            &&& outcome != Some(PairError::Locked)
            &&& outcome != Some(PairError::InsufficientOutputAmount)
            &&& outcome != Some(PairError::InsufficientLiquidity)
        }),
{
}

/// Issuing shares keeps them accounted.
proof fn lemma_credit_accounts_shares(pool: PoolState, who: Address, amount: nat)
    requires
        pool.shares_accounted(),
    ensures
        pool.credit(who, amount).shares_accounted(),
{
    lemma_ledger_sum_insert(pool.lp_balances, who, pool.balance_of(who) + amount);
}

/// A pool without shares has them accounted, and a deposit keeps them so.
pub proof fn lemma_mint_accounts_shares(pool: PoolState, to: Address, balance0: nat, balance1: nat)
    requires
        pool.shares_accounted(),
    ensures
        pool.after_mint(to, balance0, balance1).shares_accounted(),
{
    if pool.lp_total_supply == 0 {
        lemma_credit_accounts_shares(pool, burn_address(), 1000);
    }
    lemma_credit_accounts_shares(
        pool.with_minimum_locked(),
        to,
        pool.mint_liquidity(balance0, balance1),
    );
}

/// A redemption keeps the shares accounted.
pub proof fn lemma_burn_accounts_shares(
    pool: PoolState,
    holder: Address,
    balance0: nat,
    balance1: nat,
)
    requires
        pool.shares_accounted(),
        pool.burn_error(holder, balance0, balance1) is None,
    ensures
        pool.after_burn(holder).shares_accounted(),
{
    lemma_ledger_sum_insert(pool.lp_balances, holder, 0);
}

/// A transfer of shares, on an allowance or not, keeps them accounted.
pub proof fn lemma_transfer_accounts_shares(
    pool: PoolState,
    spender: Address,
    sender: Address,
    recipient: Address,
    amount: nat,
)
    requires
        pool.shares_accounted(),
        pool.transfer_error(sender, recipient, amount) is None,
    ensures
        pool.after_transfer(sender, recipient, amount).shares_accounted(),
        pool.after_transfer_from(spender, sender, recipient, amount).shares_accounted(),
{
    let left = (pool.balance_of(sender) - amount) as nat;
    let taken = pool.lp_balances.insert(sender, left);
    lemma_ledger_sum_insert(pool.lp_balances, sender, left);
    let recipient_before = if sender == recipient {
        left
    } else {
        pool.balance_of(recipient)
    };
    lemma_ledger_sum_insert(taken, recipient, recipient_before + amount);
}

/// A new pool has its shares accounted: there are none.
pub proof fn lemma_new_pool_accounts_shares(pool: PoolState)
    requires
        pool.lp_total_supply == 0,
        pool.lp_balances == Map::<Address, nat>::empty(),
    ensures
        pool.shares_accounted(),
{
    lemma_ledger_sum_empty::<Address>();
}

} // verus!
