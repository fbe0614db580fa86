//! The router: the arithmetic of trades against constant-product pools, the
//! amounts along a path of pools, and the plans that the host carries out.
//!
//! Every trade pays a fee of three thousandths of what goes in, so only 997
//! thousandths of an input count towards the output.

use crate::account::Address;
use crate::error::RouterError;
use crate::uint::{pow2_256, U256};
use vstd::arithmetic::div_mod::{lemma_fundamental_div_mod, lemma_mod_bound};
use vstd::prelude::*;

verus! {

/// The amount of the other token that is worth `amount_a` at the pool's
/// ratio, without a fee. Zero where the amount or its reserve is zero.
pub open spec fn quote_of(amount_a: nat, reserve_a: nat, reserve_b: nat) -> nat {
    if amount_a == 0 || reserve_a == 0 {
        0
    } else {
        amount_a * reserve_b / reserve_a
    }
}

/// Whether `quote_of` can be computed in 256 bits.
pub open spec fn quote_fits(amount_a: nat, reserve_a: nat, reserve_b: nat) -> bool {
    amount_a == 0 || reserve_a == 0 || amount_a * reserve_b < pow2_256()
}

/// The most that a pool pays out for `amount_in`. Zero where the amount or a
/// reserve is zero.
pub open spec fn amount_out_of(amount_in: nat, reserve_in: nat, reserve_out: nat) -> nat {
    if amount_in == 0 || reserve_in == 0 || reserve_out == 0 {
        0
    } else {
        (amount_in * 997 * reserve_out) / (reserve_in * 1000 + amount_in * 997)
    }
}

/// Whether `amount_out_of` can be computed in 256 bits.
pub open spec fn amount_out_fits(amount_in: nat, reserve_in: nat, reserve_out: nat) -> bool {
    amount_in == 0 || reserve_in == 0 || reserve_out == 0 || {
        &&& amount_in * 997 * reserve_out < pow2_256()
        &&& reserve_in * 1000 + amount_in * 997 < pow2_256()
    }
}

/// The input that a pool asks for `amount_out`: the quotient rounded down,
/// plus one. Zero where the amount or a reserve is zero.
pub open spec fn amount_in_of(amount_out: nat, reserve_in: nat, reserve_out: nat) -> nat {
    if amount_out == 0 || reserve_in == 0 || reserve_out == 0 {
        0
    } else {
        (reserve_in * amount_out * 1000) / (((reserve_out - amount_out) * 997) as nat) + 1
    }
}

/// Whether `amount_in_of` can be computed in 256 bits: the output is below
/// its reserve and every step fits.
pub open spec fn amount_in_fits(amount_out: nat, reserve_in: nat, reserve_out: nat) -> bool {
    amount_out == 0 || reserve_in == 0 || reserve_out == 0 || {
        &&& amount_out < reserve_out
        &&& reserve_in * amount_out * 1000 < pow2_256()
        &&& (reserve_out - amount_out) * 997 < pow2_256()
        &&& amount_in_of(amount_out, reserve_in, reserve_out) < pow2_256()
    }
}

/// `quote_of`, or `None` where `quote_fits` fails.
pub fn checked_quote(amount_a: U256, reserve_a: U256, reserve_b: U256) -> (r: Option<U256>)
    ensures
        r is Some <==> quote_fits(amount_a@, reserve_a@, reserve_b@),
        r is Some ==> r->Some_0@ == quote_of(amount_a@, reserve_a@, reserve_b@),
{
    if amount_a.is_zero() || reserve_a.is_zero() {
        return Some(U256::zero());
    }
    let product = match amount_a.checked_mul(reserve_b) {
        Some(v) => v,
        None => { return None; },
    };
    product.checked_div(reserve_a)
}

/// The amount of the other token that is worth `amount_a` at the pool's ratio.
pub fn quote(amount_a: U256, reserve_a: U256, reserve_b: U256) -> (r: U256)
    requires
        quote_fits(amount_a@, reserve_a@, reserve_b@),
    ensures
        r@ == quote_of(amount_a@, reserve_a@, reserve_b@),
{
    checked_quote(amount_a, reserve_a, reserve_b).unwrap()
}

/// `amount_out_of`, or `None` where `amount_out_fits` fails.
pub fn checked_amount_out(amount_in: U256, reserve_in: U256, reserve_out: U256) -> (r: Option<
    U256,
>)
    ensures
        r is Some <==> amount_out_fits(amount_in@, reserve_in@, reserve_out@),
        r is Some ==> r->Some_0@ == amount_out_of(amount_in@, reserve_in@, reserve_out@),
{
    if amount_in.is_zero() || reserve_in.is_zero() || reserve_out.is_zero() {
        return Some(U256::zero());
    }
    let amount_in_with_fee = match amount_in.checked_mul(U256::from_u64(997)) {
        Some(v) => v,
        None => {
            proof {
                lemma_product_grows(amount_in@ * 997, reserve_out@);
            }
            return None;
        },
    };
    let numerator = match amount_in_with_fee.checked_mul(reserve_out) {
        Some(v) => v,
        None => { return None; },
    };
    let reserve_scaled = match reserve_in.checked_mul(U256::from_u64(1000)) {
        Some(v) => v,
        None => { return None; },
    };
    let denominator = match reserve_scaled.checked_add(amount_in_with_fee) {
        Some(v) => v,
        None => { return None; },
    };
    numerator.checked_div(denominator)
}

/// The most that a pool pays out for `amount_in`.
pub fn get_amount_out(amount_in: U256, reserve_in: U256, reserve_out: U256) -> (r: U256)
    requires
        amount_out_fits(amount_in@, reserve_in@, reserve_out@),
    ensures
        r@ == amount_out_of(amount_in@, reserve_in@, reserve_out@),
{
    checked_amount_out(amount_in, reserve_in, reserve_out).unwrap()
}

/// `amount_in_of`, or `None` where `amount_in_fits` fails. The input that
/// is asked for an output buys at least that output.
pub fn checked_amount_in(amount_out: U256, reserve_in: U256, reserve_out: U256) -> (r: Option<
    U256,
>)
    ensures
        r is Some <==> amount_in_fits(amount_out@, reserve_in@, reserve_out@),
        r is Some ==> r->Some_0@ == amount_in_of(amount_out@, reserve_in@, reserve_out@),
        r is Some ==> amount_out_of(r->Some_0@, reserve_in@, reserve_out@) >= amount_out@
            || reserve_in@ == 0 || reserve_out@ == 0,
{
    if amount_out.is_zero() || reserve_in.is_zero() || reserve_out.is_zero() {
        return Some(U256::zero());
    }
    proof {
        if amount_out@ < reserve_out@ {
            lemma_amount_in_buys_amount_out(amount_out@, reserve_in@, reserve_out@);
        }
    }
    let product = match reserve_in.checked_mul(amount_out) {
        Some(v) => v,
        None => {
            proof {
                lemma_product_grows(reserve_in@ * amount_out@, 1000);
            }
            return None;
        },
    };
    let numerator = match product.checked_mul(U256::from_u64(1000)) {
        Some(v) => v,
        None => { return None; },
    };
    let left = match reserve_out.checked_sub(amount_out) {
        Some(v) => v,
        None => { return None; },
    };
    let denominator = match left.checked_mul(U256::from_u64(997)) {
        Some(v) => v,
        None => { return None; },
    };
    let quotient = match numerator.checked_div(denominator) {
        Some(v) => v,
        None => { return None; },
    };
    quotient.checked_add(U256::from_u64(1))
}

/// The input that a pool asks for `amount_out`; it buys at least that
/// output from a pool with reserves of both tokens.
pub fn get_amount_in(amount_out: U256, reserve_in: U256, reserve_out: U256) -> (r: U256)
    requires
        amount_in_fits(amount_out@, reserve_in@, reserve_out@),
    ensures
        r@ == amount_in_of(amount_out@, reserve_in@, reserve_out@),
        amount_out_of(r@, reserve_in@, reserve_out@) >= amount_out@ || reserve_in@ == 0
            || reserve_out@ == 0,
{
    checked_amount_in(amount_out, reserve_in, reserve_out).unwrap()
}

/// A product with a positive factor is no smaller than the other factor.
proof fn lemma_product_grows(a: nat, b: nat)
    requires
        b > 0,
    ensures
        a * b >= a,
{
    assert(a * b >= a) by (nonlinear_arith)
        requires
            b >= 1,
            a >= 0,
    ;
}

/// A quotient rounded down is at least `k` exactly where the dividend is at
/// least `k` times the divisor.
pub proof fn lemma_quotient_at_least(a: nat, d: nat, k: nat)
    requires
        d > 0,
    ensures
        a / d >= k <==> a >= k * d,
{
    let q = a / d;
    let rest = a % d;
    lemma_fundamental_div_mod(a as int, d as int);
    lemma_mod_bound(a as int, d as int);
    assert(a == d * q + rest);
    if q >= k {
        assert(d * q >= k * d) by (nonlinear_arith)
            requires
                q >= k,
                d > 0,
        ;
    } else {
        assert(d * q + d <= k * d) by (nonlinear_arith)
            requires
                q + 1 <= k,
                d > 0,
        ;
    }
}

/// What a pool pays out stays below its reserve.
pub proof fn lemma_amount_out_below_reserve(amount_in: nat, reserve_in: nat, reserve_out: nat)
    requires
        reserve_out > 0,
    ensures
        amount_out_of(amount_in, reserve_in, reserve_out) < reserve_out,
{
    if amount_in != 0 && reserve_in != 0 {
        let numerator = amount_in * 997 * reserve_out;
        let denominator = reserve_in * 1000 + amount_in * 997;
        assert(numerator < reserve_out * denominator) by (nonlinear_arith)
            requires
                numerator == amount_in * 997 * reserve_out,
                denominator == reserve_in * 1000 + amount_in * 997,
                reserve_in > 0,
                reserve_out > 0,
        ;
        lemma_quotient_at_least(numerator, denominator, reserve_out);
    }
}

/// Paying what the pool asks for an output buys at least that output:
/// rounding the input up never leaves the trader short and never costs the
/// pool.
pub proof fn lemma_amount_in_buys_amount_out(amount_out: nat, reserve_in: nat, reserve_out: nat)
    requires
        amount_out > 0,
        reserve_in > 0,
        amount_out < reserve_out,
    ensures
        amount_out_of(amount_in_of(amount_out, reserve_in, reserve_out), reserve_in, reserve_out)
            >= amount_out,
{
    let d = ((reserve_out - amount_out) * 997) as nat;
    let a = reserve_in * amount_out * 1000;
    let q = a / d;
    let x = q + 1;
    assert(d > 0) by (nonlinear_arith)
        requires
            d == (reserve_out - amount_out) * 997,
            amount_out < reserve_out,
    ;
    lemma_quotient_at_least(a, d, x);
    assert(a < x * d);
    let numerator = x * 997 * reserve_out;
    let denominator = reserve_in * 1000 + x * 997;
    assert(numerator >= amount_out * denominator) by (nonlinear_arith)
        requires
            a < x * d,
            a == reserve_in * amount_out * 1000,
            d == (reserve_out - amount_out) * 997,
            numerator == x * 997 * reserve_out,
            denominator == reserve_in * 1000 + x * 997,
    ;
    assert(denominator > 0);
    lemma_quotient_at_least(numerator, denominator, amount_out);
}

/// The input that the pool asks for what `amount_in` buys is at least
/// `amount_in` exactly where that input buys something and is no overpayment:
/// one unit less would buy less, or the pool's quotient for one unit less is
/// exact. (An input that buys nothing, or more than its output needs, is
/// answered with a smaller one.)
pub proof fn lemma_amount_in_of_amount_out(amount_in: nat, reserve_in: nat, reserve_out: nat)
    requires
        amount_in > 0,
        reserve_in > 0,
        reserve_out > 0,
    ensures
        ({
            let out = amount_out_of(amount_in, reserve_in, reserve_out);
            amount_in_of(out, reserve_in, reserve_out) >= amount_in <==> out > 0 && (amount_out_of(
                (amount_in - 1) as nat,
                reserve_in,
                reserve_out,
            ) < out || reserve_in * out * 1000 == (amount_in - 1) * ((reserve_out - out) * 997))
        }),
{
    let out = amount_out_of(amount_in, reserve_in, reserve_out);
    lemma_amount_out_below_reserve(amount_in, reserve_in, reserve_out);
    if out > 0 {
        let d = ((reserve_out - out) * 997) as nat;
        let a = reserve_in * out * 1000;
        let less = (amount_in - 1) as nat;
        assert(d > 0) by (nonlinear_arith)
            requires
                d == (reserve_out - out) * 997,
                out < reserve_out,
        ;
        lemma_quotient_at_least(a, d, less);
        assert(amount_in_of(out, reserve_in, reserve_out) >= amount_in <==> a >= less * d);
        if less > 0 {
            let numerator = less * 997 * reserve_out;
            let denominator = reserve_in * 1000 + less * 997;
            lemma_quotient_at_least(numerator, denominator, out);
            assert(numerator >= out * denominator <==> less * d >= a) by (nonlinear_arith)
                requires
                    a == reserve_in * out * 1000,
                    d == (reserve_out - out) * 997,
                    numerator == less * 997 * reserve_out,
                    denominator == reserve_in * 1000 + less * 997,
            ;
        } else {
            assert(less * d == 0) by (nonlinear_arith)
                requires
                    less == 0,
            ;
        }
    }
}

/// What the router knows of a pool: its address, its first token and its reserves.
#[derive(Clone, Copy, Debug)]
pub struct Pool {
    pub pair: Address,
    pub token0: Address,
    pub reserve0: U256,
    pub reserve1: U256,
}

/// The reserves of a pool with that of `token_a` first.
pub open spec fn reserves_sorted(token_a: Address, pool: Pool) -> (nat, nat) {
    if token_a == pool.token0 {
        (pool.reserve0@, pool.reserve1@)
    } else {
        (pool.reserve1@, pool.reserve0@)
    }
}

/// The reserves of a pool with that of `token_a` first.
pub fn get_reserves_sorted(token_a: &Address, pool: &Pool) -> (r: (U256, U256))
    ensures
        (r.0@, r.1@) == reserves_sorted(*token_a, *pool),
{
    if token_a.same(&pool.token0) {
        (pool.reserve0, pool.reserve1)
    } else {
        (pool.reserve1, pool.reserve0)
    }
}

/// The pool for the hop from the `i`-th token of a path to the next, if the
/// host found one.
pub open spec fn hop_pool(pools: Seq<Option<Pool>>, i: int) -> Option<Pool> {
    if 0 <= i < pools.len() {
        pools[i]
    } else {
        None
    }
}

/// Amounts as numbers.
pub open spec fn amounts_view(amounts: Seq<U256>) -> Seq<nat> {
    amounts.map_values(|a: U256| a@)
}

/// The amounts along the first `hops` hops of a path, from a given input:
/// each is what the pool of its hop pays out for the one before. Fails at the
/// first hop whose pool is missing or whose output cannot be computed.
pub open spec fn amounts_out_of(
    amount_in: nat,
    path: Seq<Address>,
    pools: Seq<Option<Pool>>,
    hops: nat,
) -> Result<Seq<nat>, RouterError>
    decreases hops,
{
    if hops == 0 {
        Ok(seq![amount_in])
    } else {
        match amounts_out_of(amount_in, path, pools, (hops - 1) as nat) {
            Err(e) => Err(e),
            Ok(amounts) => match hop_pool(pools, hops - 1) {
                None => Err(RouterError::PairNotFound),
                Some(pool) => {
                    let reserves = reserves_sorted(path[hops - 1], pool);
                    if amount_out_fits(amounts.last(), reserves.0, reserves.1) {
                        Ok(amounts.push(amount_out_of(amounts.last(), reserves.0, reserves.1)))
                    } else {
                        Err(RouterError::InsufficientLiquidity)
                    }
                },
            },
        }
    }
}

/// The amounts along a path from its `from`-th token on, for a given output:
/// each is what the pool of its hop asks for the one after. Fails at the last
/// hop whose pool is missing or whose input cannot be computed.
pub open spec fn amounts_in_of(
    amount_out: nat,
    path: Seq<Address>,
    pools: Seq<Option<Pool>>,
    from: nat,
) -> Result<Seq<nat>, RouterError>
    decreases path.len() - from,
{
    if from + 1 >= path.len() {
        Ok(seq![amount_out])
    } else {
        match amounts_in_of(amount_out, path, pools, from + 1) {
            Err(e) => Err(e),
            Ok(rest) => match hop_pool(pools, from as int) {
                None => Err(RouterError::PairNotFound),
                Some(pool) => {
                    let reserves = reserves_sorted(path[from as int], pool);
                    if amount_in_fits(rest[0], reserves.0, reserves.1) {
                        Ok(seq![amount_in_of(rest[0], reserves.0, reserves.1)] + rest)
                    } else {
                        Err(RouterError::InsufficientLiquidity)
                    }
                },
            },
        }
    }
}

/// A failure at some hop is the failure of every longer walk.
pub proof fn lemma_amounts_out_failure(
    amount_in: nat,
    path: Seq<Address>,
    pools: Seq<Option<Pool>>,
    hops: nat,
    more: nat,
)
    requires
        amounts_out_of(amount_in, path, pools, hops) is Err,
        hops <= more,
    ensures
        amounts_out_of(amount_in, path, pools, more) == amounts_out_of(
            amount_in,
            path,
            pools,
            hops,
        ),
    decreases more,
{
    if hops < more {
        lemma_amounts_out_failure(amount_in, path, pools, hops, (more - 1) as nat);
    }
}

/// A walk that succeeds found a pool at each of its hops and has one amount
/// more than hops.
pub proof fn lemma_amounts_out_success(
    amount_in: nat,
    path: Seq<Address>,
    pools: Seq<Option<Pool>>,
    hops: nat,
)
    requires
        amounts_out_of(amount_in, path, pools, hops) is Ok,
    ensures
        amounts_out_of(amount_in, path, pools, hops)->Ok_0.len() == hops + 1,
        amounts_out_of(amount_in, path, pools, hops)->Ok_0[0] == amount_in,
        forall|i: int| 0 <= i < hops ==> (#[trigger] hop_pool(pools, i)) is Some,
    decreases hops,
{
    if hops > 0 {
        lemma_amounts_out_success(amount_in, path, pools, (hops - 1) as nat);
    }
}

/// A failure at some hop is the failure of every walk that starts earlier.
pub proof fn lemma_amounts_in_failure(
    amount_out: nat,
    path: Seq<Address>,
    pools: Seq<Option<Pool>>,
    from: nat,
    earlier: nat,
)
    requires
        amounts_in_of(amount_out, path, pools, from) is Err,
        earlier <= from,
    ensures
        amounts_in_of(amount_out, path, pools, earlier) == amounts_in_of(
            amount_out,
            path,
            pools,
            from,
        ),
    decreases from - earlier,
{
    if earlier < from {
        lemma_amounts_in_failure(amount_out, path, pools, from, earlier + 1);
    }
}

/// A backward walk that succeeds found a pool at each of its hops and has one
/// amount for each token from its start on.
pub proof fn lemma_amounts_in_success(
    amount_out: nat,
    path: Seq<Address>,
    pools: Seq<Option<Pool>>,
    from: nat,
)
    requires
        amounts_in_of(amount_out, path, pools, from) is Ok,
        from < path.len(),
    ensures
        amounts_in_of(amount_out, path, pools, from)->Ok_0.len() == path.len() - from,
        amounts_in_of(amount_out, path, pools, from)->Ok_0.last() == amount_out,
        forall|i: int| from <= i < path.len() - 1 ==> (#[trigger] hop_pool(pools, i)) is Some,
    decreases path.len() - from,
{
    if from + 1 < path.len() {
        lemma_amounts_in_success(amount_out, path, pools, from + 1);
    }
}

/// Whether each amount after the first is what the pool of its hop pays out
/// for the amount before, at the pool's reserves with that of the hop's
/// input token first.
pub open spec fn chains_forward(amounts: Seq<nat>, path: Seq<Address>, pools: Seq<Option<Pool>>)
    -> bool {
    forall|i: int|
        0 <= i < amounts.len() - 1 ==> {
            &&& (#[trigger] hop_pool(pools, i)) is Some
            &&& amounts[i + 1] == amount_out_of(
                amounts[i],
                reserves_sorted(path[i], hop_pool(pools, i)->Some_0).0,
                reserves_sorted(path[i], hop_pool(pools, i)->Some_0).1,
            )
        }
}

/// Whether each amount before the last is what the pool of its hop asks for
/// the amount after, at the pool's reserves with that of the hop's input
/// token first. `from` is the place in the path of the first amount.
pub open spec fn chains_backward(
    amounts: Seq<nat>,
    path: Seq<Address>,
    pools: Seq<Option<Pool>>,
    from: int,
) -> bool {
    forall|i: int|
        0 <= i < amounts.len() - 1 ==> {
            &&& (#[trigger] hop_pool(pools, from + i)) is Some
            &&& amounts[i] == amount_in_of(
                amounts[i + 1],
                reserves_sorted(path[from + i], hop_pool(pools, from + i)->Some_0).0,
                reserves_sorted(path[from + i], hop_pool(pools, from + i)->Some_0).1,
            )
        }
}

/// The amounts of a forward walk are chained hop by hop: none is computed
/// from the ends of the path alone.
pub proof fn lemma_amounts_out_chain(
    amount_in: nat,
    path: Seq<Address>,
    pools: Seq<Option<Pool>>,
    hops: nat,
)
    requires
        amounts_out_of(amount_in, path, pools, hops) is Ok,
    ensures
        amounts_out_of(amount_in, path, pools, hops)->Ok_0.len() == hops + 1,
        chains_forward(amounts_out_of(amount_in, path, pools, hops)->Ok_0, path, pools),
    decreases hops,
{
    if hops > 0 {
        lemma_amounts_out_chain(amount_in, path, pools, (hops - 1) as nat);
        let before = amounts_out_of(amount_in, path, pools, (hops - 1) as nat)->Ok_0;
        let amounts = amounts_out_of(amount_in, path, pools, hops)->Ok_0;
        assert forall|i: int| 0 <= i < amounts.len() - 1 implies {
            &&& (#[trigger] hop_pool(pools, i)) is Some
            &&& amounts[i + 1] == amount_out_of(
                amounts[i],
                reserves_sorted(path[i], hop_pool(pools, i)->Some_0).0,
                reserves_sorted(path[i], hop_pool(pools, i)->Some_0).1,
            )
        } by {
            if i < hops - 1 {
                assert(hop_pool(pools, i) is Some);
                assert(amounts[i] == before[i] && amounts[i + 1] == before[i + 1]);
            }
        }
    }
}

/// The amounts of a backward walk are chained hop by hop.
pub proof fn lemma_amounts_in_chain(
    amount_out: nat,
    path: Seq<Address>,
    pools: Seq<Option<Pool>>,
    from: nat,
)
    requires
        amounts_in_of(amount_out, path, pools, from) is Ok,
        from < path.len(),
    ensures
        amounts_in_of(amount_out, path, pools, from)->Ok_0.len() == path.len() - from,
        chains_backward(
            amounts_in_of(amount_out, path, pools, from)->Ok_0,
            path,
            pools,
            from as int,
        ),
    decreases path.len() - from,
{
    if from + 1 < path.len() {
        lemma_amounts_in_chain(amount_out, path, pools, from + 1);
        let rest = amounts_in_of(amount_out, path, pools, from + 1)->Ok_0;
        let amounts = amounts_in_of(amount_out, path, pools, from)->Ok_0;
        assert forall|i: int| 0 <= i < amounts.len() - 1 implies {
            &&& (#[trigger] hop_pool(pools, from + i)) is Some
            &&& amounts[i] == amount_in_of(
                amounts[i + 1],
                reserves_sorted(path[from + i], hop_pool(pools, from + i)->Some_0).0,
                reserves_sorted(path[from + i], hop_pool(pools, from + i)->Some_0).1,
            )
        } by {
            if i > 0 {
                assert(hop_pool(pools, (from + 1) + (i - 1)) is Some);
                assert(amounts[i] == rest[i - 1] && amounts[i + 1] == rest[i]);
            }
        }
    }
}

/// The pool for a hop, if the host found one.
fn pool_at(pools: &Vec<Option<Pool>>, i: usize) -> (r: Option<Pool>)
    ensures
        r == hop_pool(pools@, i as int),
{
    if i < pools.len() {
        pools[i]
    } else {
        None
    }
}

/// The amounts along a whole path, or why they cannot be had.
pub open spec fn path_amounts_out(amount_in: nat, path: Seq<Address>, pools: Seq<Option<Pool>>)
    -> Result<Seq<nat>, RouterError> {
    if path.len() < 2 {
        Err(RouterError::InvalidPath)
    } else {
        amounts_out_of(amount_in, path, pools, (path.len() - 1) as nat)
    }
}

/// The amounts along a whole path for a given output, or why they cannot be had.
pub open spec fn path_amounts_in(amount_out: nat, path: Seq<Address>, pools: Seq<Option<Pool>>)
    -> Result<Seq<nat>, RouterError> {
    if path.len() < 2 {
        Err(RouterError::InvalidPath)
    } else {
        amounts_in_of(amount_out, path, pools, 0)
    }
}

/// Whether an outcome is the given amounts or the given failure.
pub open spec fn amounts_match(
    outcome: Result<Vec<U256>, RouterError>,
    expected: Result<Seq<nat>, RouterError>,
) -> bool {
    match outcome {
        Ok(amounts) => expected == Ok::<Seq<nat>, RouterError>(amounts_view(amounts@)),
        Err(e) => expected == Err::<Seq<nat>, RouterError>(e),
    }
}

/// The amounts along a path for a given input: the input itself, then what
/// each pool in turn pays out for the amount before. `pools` holds, for each
/// hop, the pool that the host found for it. A path of fewer than two tokens
/// is refused with `InvalidPath`.
pub fn get_amounts_out(amount_in: U256, path: &Vec<Address>, pools: &Vec<Option<Pool>>) -> (r:
    Result<Vec<U256>, RouterError>)
    ensures
        amounts_match(r, path_amounts_out(amount_in@, path@, pools@)),
        r is Ok ==> r->Ok_0@.len() == path@.len() && r->Ok_0@[0] == amount_in,
        r is Ok ==> chains_forward(amounts_view(r->Ok_0@), path@, pools@),
        path@.len() < 2 ==> r == Err::<Vec<U256>, RouterError>(RouterError::InvalidPath),
{
    let n = path.len();
    if n < 2 {
        return Err(RouterError::InvalidPath);
    }
    let mut amounts: Vec<U256> = Vec::new();
    amounts.push(amount_in);
    assert(amounts_view(amounts@) =~= seq![amount_in@]);
    let mut i: usize = 0;
    while i < n - 1
        invariant
            n == path.len(),
            n >= 2,
            0 <= i <= n - 1,
            amounts.len() == i + 1,
            amounts@[0] == amount_in,
            amounts_out_of(amount_in@, path@, pools@, i as nat) == Ok::<Seq<nat>, RouterError>(
                amounts_view(amounts@),
            ),
        decreases n - 1 - i,
    {
        let ghost before = amounts_view(amounts@);
        let pool = match pool_at(pools, i) {
            Some(pool) => pool,
            None => {
                proof {
                    lemma_amounts_out_failure(
                        amount_in@,
                        path@,
                        pools@,
                        (i + 1) as nat,
                        (n - 1) as nat,
                    );
                }
                return Err(RouterError::PairNotFound);
            },
        };
        let (reserve_in, reserve_out) = get_reserves_sorted(&path[i], &pool);
        assert(before.last() == amounts@[i as int]@);
        let next = match checked_amount_out(amounts[i], reserve_in, reserve_out) {
            Some(v) => v,
            None => {
                proof {
                    lemma_amounts_out_failure(
                        amount_in@,
                        path@,
                        pools@,
                        (i + 1) as nat,
                        (n - 1) as nat,
                    );
                }
                return Err(RouterError::InsufficientLiquidity);
            },
        };
        amounts.push(next);
        assert(amounts_view(amounts@) =~= before.push(next@));
        i += 1;
    }
    proof {
        lemma_amounts_out_chain(amount_in@, path@, pools@, (n - 1) as nat);
    }
    Ok(amounts)
}

/// The amounts along a path for a given output: the output itself last, and
/// before each amount what the pool of that hop asks for it.
pub fn get_amounts_in(amount_out: U256, path: &Vec<Address>, pools: &Vec<Option<Pool>>) -> (r:
    Result<Vec<U256>, RouterError>)
    ensures
        amounts_match(r, path_amounts_in(amount_out@, path@, pools@)),
        r is Ok ==> r->Ok_0@.len() == path@.len() && r->Ok_0@[path@.len() - 1] == amount_out,
        r is Ok ==> chains_backward(amounts_view(r->Ok_0@), path@, pools@, 0),
        path@.len() < 2 ==> r == Err::<Vec<U256>, RouterError>(RouterError::InvalidPath),
{
    let n = path.len();
    if n < 2 {
        return Err(RouterError::InvalidPath);
    }
    let mut amounts: Vec<U256> = Vec::new();
    let mut k: usize = 0;
    while k < n
        invariant
            0 <= k <= n,
            amounts.len() == k,
        decreases n - k,
    {
        amounts.push(U256::zero());
        k += 1;
    }
    amounts[n - 1] = amount_out;
    assert(amounts_view(amounts@.subrange(n - 1, n as int)) =~= seq![amount_out@]);
    let mut i: usize = n - 1;
    while i > 0
        invariant
            n == path.len(),
            n >= 2,
            0 <= i <= n - 1,
            amounts.len() == n,
            amounts@[n - 1] == amount_out,
            amounts_in_of(amount_out@, path@, pools@, i as nat) == Ok::<Seq<nat>, RouterError>(
                amounts_view(amounts@.subrange(i as int, n as int)),
            ),
        decreases i,
    {
        let ghost rest = amounts_view(amounts@.subrange(i as int, n as int));
        let pool = match pool_at(pools, i - 1) {
            Some(pool) => pool,
            None => {
                proof {
                    lemma_amounts_in_failure(amount_out@, path@, pools@, (i - 1) as nat, 0);
                }
                return Err(RouterError::PairNotFound);
            },
        };
        let (reserve_in, reserve_out) = get_reserves_sorted(&path[i - 1], &pool);
        assert(rest[0] == amounts@[i as int]@);
        let needed = match checked_amount_in(amounts[i], reserve_in, reserve_out) {
            Some(v) => v,
            None => {
                proof {
                    lemma_amounts_in_failure(amount_out@, path@, pools@, (i - 1) as nat, 0);
                }
                return Err(RouterError::InsufficientLiquidity);
            },
        };
        amounts[i - 1] = needed;
        assert(amounts_view(amounts@.subrange(i - 1, n as int)) =~= seq![needed@] + rest);
        i -= 1;
    }
    assert(amounts@.subrange(0, n as int) =~= amounts@);
    proof {
        lemma_amounts_in_chain(amount_out@, path@, pools@, 0);
    }
    Ok(amounts)
}

/// One call of a pool's trade: which pool, what it pays out of each of its
/// tokens, and to whom.
#[derive(Clone, Copy, Debug)]
pub struct SwapStep {
    pub pair: Address,
    pub amount0_out: U256,
    pub amount1_out: U256,
    pub recipient: Address,
}

/// A trade along a path: the amounts at each token of the path, the pool
/// that the trader's input is paid into, and the pools' trades in order.
#[derive(Debug)]
pub struct SwapPlan {
    pub amounts: Vec<U256>,
    pub first_pair: Address,
    pub steps: Vec<SwapStep>,
}

/// Whether a step is the trade of the `i`-th hop: the pool of that hop pays
/// the next amount out of the token that is not the hop's input, to the pool
/// of the next hop or, at the last hop, to the final recipient.
pub open spec fn is_step_of(
    step: SwapStep,
    path: Seq<Address>,
    pools: Seq<Option<Pool>>,
    amounts: Seq<U256>,
    to: Address,
    i: int,
) -> bool {
    let pool = pools[i]->Some_0;
    &&& step.pair == pool.pair
    &&& step.amount0_out@ == (if path[i] == pool.token0 {
        0
    } else {
        amounts[i + 1]@
    })
    &&& step.amount1_out@ == (if path[i] == pool.token0 {
        amounts[i + 1]@
    } else {
        0
    })
    &&& step.recipient == (if i + 2 < path.len() {
        pools[i + 1]->Some_0.pair
    } else {
        to
    })
}

/// Whether a plan carries the given amounts along the path: the input goes
/// to the first pool, and there is one step for each hop.
pub open spec fn is_plan_of(
    plan: SwapPlan,
    path: Seq<Address>,
    pools: Seq<Option<Pool>>,
    to: Address,
) -> bool {
    &&& path.len() >= 2
    &&& plan.amounts@.len() == path.len()
    &&& plan.steps@.len() == path.len() - 1
    &&& plan.first_pair == pools[0]->Some_0.pair
    &&& forall|i: int|
        0 <= i < path.len() - 1 ==> is_step_of(
            #[trigger] plan.steps@[i],
            path,
            pools,
            plan.amounts@,
            to,
            i,
        )
}

/// The steps of a trade along a path whose pools are all there.
fn plan_swaps(path: &Vec<Address>, pools: &Vec<Option<Pool>>, amounts: Vec<U256>, to: Address)
    -> (plan: SwapPlan)
    requires
        path.len() >= 2,
        amounts.len() == path.len(),
        forall|i: int| 0 <= i < path.len() - 1 ==> (#[trigger] hop_pool(pools@, i)) is Some,
    ensures
        plan.amounts == amounts,
        is_plan_of(plan, path@, pools@, to),
{
    let n = path.len();
    let mut steps: Vec<SwapStep> = Vec::new();
    let mut i: usize = 0;
    while i < n - 1
        invariant
            n == path.len(),
            n >= 2,
            amounts.len() == n,
            0 <= i <= n - 1,
            steps.len() == i,
            forall|j: int| 0 <= j < n - 1 ==> (#[trigger] hop_pool(pools@, j)) is Some,
            forall|j: int|
                0 <= j < i ==> is_step_of(#[trigger] steps@[j], path@, pools@, amounts@, to, j),
        decreases n - 1 - i,
    {
        assert(hop_pool(pools@, i as int) is Some);
        let pool = pool_at(pools, i).unwrap();
        let amount_out = amounts[i + 1];
        let (amount0_out, amount1_out) = if path[i].same(&pool.token0) {
            (U256::zero(), amount_out)
        } else {
            (amount_out, U256::zero())
        };
        let recipient = if i + 2 < n {
            assert(hop_pool(pools@, i + 1) is Some);
            pool_at(pools, i + 1).unwrap().pair
        } else {
            to
        };
        steps.push(SwapStep { pair: pool.pair, amount0_out, amount1_out, recipient });
        i += 1;
    }
    assert(hop_pool(pools@, 0) is Some);
    let first_pair = pool_at(pools, 0).unwrap().pair;
    SwapPlan { amounts, first_pair, steps }
}

/// The amounts of a trade of an exact input, or why it fails: the path's
/// amounts, refused with `InsufficientOutputAmount` where the last is below
/// the trader's minimum.
pub open spec fn exact_input_amounts(
    amount_in: nat,
    amount_out_min: nat,
    path: Seq<Address>,
    pools: Seq<Option<Pool>>,
) -> Result<Seq<nat>, RouterError> {
    match path_amounts_out(amount_in, path, pools) {
        Err(e) => Err(e),
        Ok(amounts) => if amounts.last() < amount_out_min {
            Err(RouterError::InsufficientOutputAmount)
        } else {
            Ok(amounts)
        },
    }
}

/// The amounts of a trade for an exact output, or why it fails: the path's
/// amounts, refused with `ExcessiveInputAmount` where the first is above the
/// trader's maximum.
pub open spec fn exact_output_amounts(
    amount_out: nat,
    amount_in_max: nat,
    path: Seq<Address>,
    pools: Seq<Option<Pool>>,
) -> Result<Seq<nat>, RouterError> {
    match path_amounts_in(amount_out, path, pools) {
        Err(e) => Err(e),
        Ok(amounts) => if amounts[0] > amount_in_max {
            Err(RouterError::ExcessiveInputAmount)
        } else {
            Ok(amounts)
        },
    }
}

/// Whether an outcome is a plan for the given amounts or the given failure.
pub open spec fn plan_matches(
    outcome: Result<SwapPlan, RouterError>,
    expected: Result<Seq<nat>, RouterError>,
    path: Seq<Address>,
    pools: Seq<Option<Pool>>,
    to: Address,
) -> bool {
    match outcome {
        Ok(plan) => expected == Ok::<Seq<nat>, RouterError>(amounts_view(plan.amounts@))
            && is_plan_of(plan, path, pools, to),
        Err(e) => expected == Err::<Seq<nat>, RouterError>(e),
    }
}

/// Plans the trade of an exact input along a path. The host moves the input
/// from the trader to the first pool and then has each pool trade in turn,
/// every pool paying the next one, the last one paying `to`.
pub fn swap_exact_tokens_for_tokens(
    amount_in: U256,
    amount_out_min: U256,
    path: &Vec<Address>,
    pools: &Vec<Option<Pool>>,
    to: Address,
) -> (r: Result<SwapPlan, RouterError>)
    ensures
        plan_matches(
            r,
            exact_input_amounts(amount_in@, amount_out_min@, path@, pools@),
            path@,
            pools@,
            to,
        ),
{
    let amounts = match get_amounts_out(amount_in, path, pools) {
        Ok(v) => v,
        Err(e) => { return Err(e); },
    };
    proof {
        lemma_amounts_out_success(amount_in@, path@, pools@, (path.len() - 1) as nat);
    }
    assert(amounts_view(amounts@).last() == amounts@[amounts.len() - 1]@);
    if amounts[amounts.len() - 1].lt(&amount_out_min) {
        return Err(RouterError::InsufficientOutputAmount);
    }
    Ok(plan_swaps(path, pools, amounts, to))
}

/// Plans the trade for an exact output along a path. The host moves the
/// first amount from the trader to the first pool and then has each pool
/// trade in turn, every pool paying the next one, the last one paying `to`.
pub fn swap_tokens_for_exact_tokens(
    amount_out: U256,
    amount_in_max: U256,
    path: &Vec<Address>,
    pools: &Vec<Option<Pool>>,
    to: Address,
) -> (r: Result<SwapPlan, RouterError>)
    ensures
        plan_matches(
            r,
            exact_output_amounts(amount_out@, amount_in_max@, path@, pools@),
            path@,
            pools@,
            to,
        ),
{
    let amounts = match get_amounts_in(amount_out, path, pools) {
        Ok(v) => v,
        Err(e) => { return Err(e); },
    };
    proof {
        lemma_amounts_in_success(amount_out@, path@, pools@, 0);
    }
    assert(amounts_view(amounts@)[0] == amounts@[0]@);
    if amount_in_max.lt(&amounts[0]) {
        return Err(RouterError::ExcessiveInputAmount);
    }
    Ok(plan_swaps(path, pools, amounts, to))
}

/// The amounts of the two tokens to deposit, or why none will do: into an
/// empty pool what the depositor wishes; else all of the first token with
/// its worth of the second, where that is within the wish and not below the
/// minimum; else all of the second token with its worth of the first, under
/// the same conditions.
pub open spec fn liquidity_amounts(
    amount_a_desired: nat,
    amount_b_desired: nat,
    amount_a_min: nat,
    amount_b_min: nat,
    reserve_a: nat,
    reserve_b: nat,
) -> Result<(nat, nat), RouterError> {
    let amount_b_optimal = quote_of(amount_a_desired, reserve_a, reserve_b);
    let amount_a_optimal = quote_of(amount_b_desired, reserve_b, reserve_a);
    if reserve_a == 0 && reserve_b == 0 {
        Ok((amount_a_desired, amount_b_desired))
    } else if !quote_fits(amount_a_desired, reserve_a, reserve_b) {
        Err(RouterError::InsufficientLiquidity)
    } else if amount_b_optimal <= amount_b_desired {
        if amount_b_optimal < amount_b_min {
            Err(RouterError::InsufficientBAmount)
        } else {
            Ok((amount_a_desired, amount_b_optimal))
        }
    } else if !quote_fits(amount_b_desired, reserve_b, reserve_a) {
        Err(RouterError::InsufficientLiquidity)
    } else if amount_a_optimal > amount_a_desired || amount_a_optimal < amount_a_min {
        Err(RouterError::InsufficientAAmount)
    } else {
        Ok((amount_a_optimal, amount_b_desired))
    }
}

/// Whether an outcome is the given pair of amounts or the given failure.
pub open spec fn pair_matches(
    outcome: Result<(U256, U256), RouterError>,
    expected: Result<(nat, nat), RouterError>,
) -> bool {
    match outcome {
        Ok((a, b)) => expected == Ok::<(nat, nat), RouterError>((a@, b@)),
        Err(e) => expected == Err::<(nat, nat), RouterError>(e),
    }
}

/// The amounts of the two tokens to deposit at the pool's ratio, within the
/// depositor's wishes and minimums.
pub fn calculate_liquidity_amounts(
    amount_a_desired: U256,
    amount_b_desired: U256,
    amount_a_min: U256,
    amount_b_min: U256,
    reserve_a: U256,
    reserve_b: U256,
) -> (r: Result<(U256, U256), RouterError>)
    ensures
        pair_matches(
            r,
            liquidity_amounts(
                amount_a_desired@,
                amount_b_desired@,
                amount_a_min@,
                amount_b_min@,
                reserve_a@,
                reserve_b@,
            ),
        ),
{
    if reserve_a.is_zero() && reserve_b.is_zero() {
        return Ok((amount_a_desired, amount_b_desired));
    }
    let amount_b_optimal = match checked_quote(amount_a_desired, reserve_a, reserve_b) {
        Some(v) => v,
        None => { return Err(RouterError::InsufficientLiquidity); },
    };
    if !amount_b_desired.lt(&amount_b_optimal) {
        if amount_b_optimal.lt(&amount_b_min) {
            return Err(RouterError::InsufficientBAmount);
        }
        Ok((amount_a_desired, amount_b_optimal))
    } else {
        let amount_a_optimal = match checked_quote(amount_b_desired, reserve_b, reserve_a) {
            Some(v) => v,
            None => { return Err(RouterError::InsufficientLiquidity); },
        };
        if amount_a_desired.lt(&amount_a_optimal) {
            return Err(RouterError::InsufficientAAmount);
        }
        if amount_a_optimal.lt(&amount_a_min) {
            return Err(RouterError::InsufficientAAmount);
        }
        Ok((amount_a_optimal, amount_b_desired))
    }
}

/// What a deposit hands to the host: the pool, and the amounts of the two
/// tokens to move from the depositor into it before the pool issues shares.
#[derive(Clone, Copy, Debug)]
pub struct LiquidityPlan {
    pub pair: Address,
    pub amount_a: U256,
    pub amount_b: U256,
}

/// Plans a deposit into the pool of two tokens: `PairNotFound` where the
/// host found no pool, else the amounts of `calculate_liquidity_amounts` at
/// the pool's reserves, that of `token_a` first.
pub fn add_liquidity(
    token_a: &Address,
    pool: Option<Pool>,
    amount_a_desired: U256,
    amount_b_desired: U256,
    amount_a_min: U256,
    amount_b_min: U256,
) -> (r: Result<LiquidityPlan, RouterError>)
    ensures
        match r {
            Ok(plan) => pool is Some && plan.pair == pool->Some_0.pair && liquidity_amounts(
                amount_a_desired@,
                amount_b_desired@,
                amount_a_min@,
                amount_b_min@,
                reserves_sorted(*token_a, pool->Some_0).0,
                reserves_sorted(*token_a, pool->Some_0).1,
            ) == Ok::<(nat, nat), RouterError>((plan.amount_a@, plan.amount_b@)),
            Err(e) => if pool is None {
                e == RouterError::PairNotFound
            } else {
                liquidity_amounts(
                    amount_a_desired@,
                    amount_b_desired@,
                    amount_a_min@,
                    amount_b_min@,
                    reserves_sorted(*token_a, pool->Some_0).0,
                    reserves_sorted(*token_a, pool->Some_0).1,
                ) == Err::<(nat, nat), RouterError>(e)
            },
        },
{
    let pool = match pool {
        Some(pool) => pool,
        None => { return Err(RouterError::PairNotFound); },
    };
    let (reserve_a, reserve_b) = get_reserves_sorted(token_a, &pool);
    match calculate_liquidity_amounts(
        amount_a_desired,
        amount_b_desired,
        amount_a_min,
        amount_b_min,
        reserve_a,
        reserve_b,
    ) {
        Ok((amount_a, amount_b)) => Ok(LiquidityPlan { pair: pool.pair, amount_a, amount_b }),
        Err(e) => Err(e),
    }
}

/// The amounts that a redemption paid out, that of `token_a` first, or why
/// they will not do: below the minimum of the first token
/// `InsufficientAAmount`, else below that of the second `InsufficientBAmount`.
pub open spec fn removed_amounts(
    token_a: Address,
    token0: Address,
    amount0: nat,
    amount1: nat,
    amount_a_min: nat,
    amount_b_min: nat,
) -> Result<(nat, nat), RouterError> {
    let amount_a = if token_a == token0 {
        amount0
    } else {
        amount1
    };
    let amount_b = if token_a == token0 {
        amount1
    } else {
        amount0
    };
    if amount_a < amount_a_min {
        Err(RouterError::InsufficientAAmount)
    } else if amount_b < amount_b_min {
        Err(RouterError::InsufficientBAmount)
    } else {
        Ok((amount_a, amount_b))
    }
}

/// Checks what a pool paid out for redeemed shares against the minimums
/// and says which amount is of which token. The host has moved the shares
/// into the pool and had it redeem them before.
pub fn remove_liquidity(
    token_a: &Address,
    token0: &Address,
    amount0: U256,
    amount1: U256,
    amount_a_min: U256,
    amount_b_min: U256,
) -> (r: Result<(U256, U256), RouterError>)
    ensures
        pair_matches(
            r,
            removed_amounts(
                *token_a,
                *token0,
                amount0@,
                amount1@,
                amount_a_min@,
                amount_b_min@,
            ),
        ),
{
    let (amount_a, amount_b) = if token_a.same(token0) {
        (amount0, amount1)
    } else {
        (amount1, amount0)
    };
    if amount_a.lt(&amount_a_min) {
        return Err(RouterError::InsufficientAAmount);
    }
    if amount_b.lt(&amount_b_min) {
        return Err(RouterError::InsufficientBAmount);
    }
    Ok((amount_a, amount_b))
}

} // verus!
