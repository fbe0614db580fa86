//! The registry of pools: which pool trades which two tokens.
//!
//! A pool is filed under the bytewise exclusive-or of its two tokens'
//! addresses, so that it is found whichever token is named first.

use crate::account::{AccountMap, Address};
use crate::encoding::{hex_digit, hex_encode, hex_of};
use crate::error::FactoryError;
use vstd::prelude::*;

verus! {

/// The bytes of an address.
pub fn key_to_bytes(key: &Address) -> (r: [u8; 32])
    ensures
        r == key.bytes,
{
    key.bytes
}

/// The bytewise exclusive-or of two byte strings of thirty-two bytes.
pub open spec fn xor_bytes(a: Seq<u8>, b: Seq<u8>) -> Seq<u8> {
    Seq::new(32, |i: int| a[i] ^ b[i])
}

/// The key under which the pool of two tokens is filed: the address whose
/// bytes are the exclusive-or of theirs.
pub open spec fn pair_id_of(token_a: Address, token_b: Address) -> Address {
    choose|id: Address| id.bytes@ == xor_bytes(token_a.bytes@, token_b.bytes@)
}

/// The key under which the pool of two tokens is filed.
pub fn pair_id(token_a: &Address, token_b: &Address) -> (r: Address)
    ensures
        r.bytes@ == xor_bytes(token_a.bytes@, token_b.bytes@),
        r == pair_id_of(*token_a, *token_b),
{
    let bytes_a = key_to_bytes(token_a);
    let bytes_b = key_to_bytes(token_b);
    let mut xored = [0u8; 32];
    let mut i: usize = 0;
    while i < 32
        invariant
            0 <= i <= 32,
            forall|j: int| 0 <= j < i ==> xored@[j] == bytes_a@[j] ^ bytes_b@[j],
        decreases 32 - i,
    {
        xored[i] = bytes_a[i] ^ bytes_b[i];
        i += 1;
    }
    assert(xored@ =~= xor_bytes(token_a.bytes@, token_b.bytes@));
    let id = Address::new(xored);
    assert(id.bytes =~= pair_id_of(*token_a, *token_b).bytes);
    id
}

/// The text of the key under which the pool of two tokens is filed:
/// sixty-four hexadecimal digits.
pub fn pair_key(token_a: &Address, token_b: &Address) -> (text: String)
    ensures
        text@ == hex_of(xor_bytes(token_a.bytes@, token_b.bytes@)),
{
    let id = pair_id(token_a, token_b);
    hex_encode(id.bytes.as_slice())
}

/// The key of a pool does not depend on which token is named first.
pub proof fn lemma_pair_id_symmetric(token_a: Address, token_b: Address)
    ensures
        pair_id_of(token_a, token_b) == pair_id_of(token_b, token_a),
{
    lemma_xor_symmetric(token_a.bytes@, token_b.bytes@);
}

/// The exclusive-or of two byte strings does not depend on their order.
proof fn lemma_xor_symmetric(a: Seq<u8>, b: Seq<u8>)
    ensures
        xor_bytes(a, b) == xor_bytes(b, a),
{
    assert forall|i: int| 0 <= i < 32 implies #[trigger] xor_bytes(a, b)[i] == xor_bytes(
        b,
        a,
    )[i] by {
        let x = a[i];
        let y = b[i];
        assert(x ^ y == y ^ x) by (bit_vector);
    }
    assert(xor_bytes(a, b) =~= xor_bytes(b, a));
}

/// Whether a byte string comes before another of the same length in the
/// order of the dictionary: at the first place where they differ it has
/// the smaller byte.
pub open spec fn bytes_before(a: Seq<u8>, b: Seq<u8>) -> bool {
    exists|i: int| differ_first_at(a, b, i) && a[i] < b[i]
}

/// Whether two byte strings differ at a place and agree before it.
pub open spec fn differ_first_at(a: Seq<u8>, b: Seq<u8>, i: int) -> bool {
    &&& 0 <= i < a.len()
    &&& i < b.len()
    &&& a[i] != b[i]
    &&& forall|j: int| 0 <= j < i ==> a[j] == b[j]
}

/// Two byte strings differ first at one place at most.
proof fn lemma_first_difference_unique(a: Seq<u8>, b: Seq<u8>, i: int, j: int)
    requires
        differ_first_at(a, b, i),
        differ_first_at(a, b, j),
    ensures
        i == j,
{
}

/// Whether a text comes before another of the same length in the order of
/// the dictionary.
pub open spec fn text_before(a: Seq<char>, b: Seq<char>) -> bool {
    exists|i: int| text_differs_first_at(a, b, i) && a[i] < b[i]
}

/// Whether two texts differ at a place and agree before it.
pub open spec fn text_differs_first_at(a: Seq<char>, b: Seq<char>, i: int) -> bool {
    &&& 0 <= i < a.len()
    &&& i < b.len()
    &&& a[i] != b[i]
    &&& forall|j: int| 0 <= j < i ==> a[j] == b[j]
}

/// The digits of a byte tell it from every other byte, and order as the
/// bytes do: by the high half first.
proof fn lemma_hex_digits_of_bytes(x: u8, y: u8)
    ensures
        x == y <==> hex_digit(x >> 4) == hex_digit(y >> 4) && hex_digit(x & 0x0f) == hex_digit(
            y & 0x0f,
        ),
        x < y ==> hex_digit(x >> 4) < hex_digit(y >> 4) || (hex_digit(x >> 4) == hex_digit(y >> 4)
            && hex_digit(x & 0x0f) < hex_digit(y & 0x0f)),
{
    let xh = x >> 4;
    let xl = x & 0x0f;
    let yh = y >> 4;
    let yl = y & 0x0f;
    assert(xh < 16 && xl < 16 && yh < 16 && yl < 16) by (bit_vector)
        requires
            xh == x >> 4,
            xl == x & 0x0f,
            yh == y >> 4,
            yl == y & 0x0f,
    ;
    assert(x == y <==> xh == yh && xl == yl) by (bit_vector)
        requires
            xh == x >> 4,
            xl == x & 0x0f,
            yh == y >> 4,
            yl == y & 0x0f,
    ;
    assert(x < y ==> xh < yh || (xh == yh && xl < yl)) by (bit_vector)
        requires
            xh == x >> 4,
            xl == x & 0x0f,
            yh == y >> 4,
            yl == y & 0x0f,
    ;
}

/// Where a byte string comes before another, so does its hexadecimal form,
/// and the forms differ first within the digits of the first differing byte.
proof fn lemma_hex_before(a: Seq<u8>, b: Seq<u8>, i: int) -> (k: int)
    requires
        differ_first_at(a, b, i),
        a[i] < b[i],
    ensures
        text_differs_first_at(hex_of(a), hex_of(b), k),
        hex_of(a)[k] < hex_of(b)[k],
{
    lemma_hex_digits_of_bytes(a[i], b[i]);
    let k = if hex_digit(a[i] >> 4) < hex_digit(b[i] >> 4) {
        2 * i
    } else {
        2 * i + 1
    };
    assert forall|j: int| 0 <= j < k implies hex_of(a)[j] == hex_of(b)[j] by {
        if j / 2 < i {
            assert(a[j / 2] == b[j / 2]);
        }
    }
    k
}

/// The hexadecimal forms of two byte strings of the same length come in the
/// order of the byte strings.
pub proof fn lemma_hex_keeps_order(a: Seq<u8>, b: Seq<u8>)
    requires
        a.len() == b.len(),
    ensures
        bytes_before(a, b) <==> text_before(hex_of(a), hex_of(b)),
{
    if bytes_before(a, b) {
        let i = choose|i: int| differ_first_at(a, b, i) && a[i] < b[i];
        let k = lemma_hex_before(a, b, i);
    }
    if text_before(hex_of(a), hex_of(b)) {
        let k = choose|k: int|
            text_differs_first_at(hex_of(a), hex_of(b), k) && hex_of(a)[k] < hex_of(b)[k];
        let i = k / 2;
        lemma_hex_digits_of_bytes(a[i], b[i]);
        assert(a[i] != b[i]);
        assert forall|j: int| 0 <= j < i implies a[j] == b[j] by {
            lemma_hex_digits_of_bytes(a[j], b[j]);
            assert(hex_of(a)[2 * j] == hex_of(b)[2 * j]);
            assert(hex_of(a)[2 * j + 1] == hex_of(b)[2 * j + 1]);
        }
        assert(differ_first_at(a, b, i));
        if b[i] < a[i] {
            assert(differ_first_at(b, a, i));
            let w = lemma_hex_before(b, a, i);
            assert(text_differs_first_at(hex_of(a), hex_of(b), w));
            assert(w == k);
        }
    }
}

/// Whether the first address comes before the second in the order of their bytes.
pub fn address_before(a: &Address, b: &Address) -> (r: bool)
    ensures
        r == bytes_before(a.bytes@, b.bytes@),
{
    let mut i: usize = 0;
    while i < 32
        invariant
            0 <= i <= 32,
            forall|j: int| 0 <= j < i ==> a.bytes@[j] == b.bytes@[j],
        decreases 32 - i,
    {
        if a.bytes[i] != b.bytes[i] {
            assert(differ_first_at(a.bytes@, b.bytes@, i as int));
            proof {
                if bytes_before(a.bytes@, b.bytes@) {
                    let k = choose|k: int|
                        differ_first_at(a.bytes@, b.bytes@, k) && a.bytes@[k] < b.bytes@[k];
                    lemma_first_difference_unique(a.bytes@, b.bytes@, k, i as int);
                }
            }
            return a.bytes[i] < b.bytes[i];
        }
        i += 1;
    }
    proof {
        if bytes_before(a.bytes@, b.bytes@) {
            let k = choose|k: int|
                differ_first_at(a.bytes@, b.bytes@, k) && a.bytes@[k] < b.bytes@[k];
            assert(a.bytes@[k] == b.bytes@[k]);
        }
    }
    false
}

/// Two tokens in canonical order: the one whose hexadecimal form, and so
/// whose bytes, come first in the order of the dictionary is first.
pub fn sort_tokens(token_a: Address, token_b: Address) -> (r: (Address, Address))
    ensures
        r == (if text_before(hex_of(token_a.bytes@), hex_of(token_b.bytes@)) {
            (token_a, token_b)
        } else {
            (token_b, token_a)
        }),
        r == (if bytes_before(token_a.bytes@, token_b.bytes@) {
            (token_a, token_b)
        } else {
            (token_b, token_a)
        }),
{
    proof {
        lemma_hex_keeps_order(token_a.bytes@, token_b.bytes@);
    }
    if address_before(&token_a, &token_b) {
        (token_a, token_b)
    } else {
        (token_b, token_a)
    }
}

/// The registry as plain values.
pub ghost struct FactoryState {
    pub fee_to: Address,
    pub fee_to_setter: Address,
    pub pairs: Map<Address, Address>,
    pub all_pairs: Seq<Address>,
    pub initialized: bool,
}

/// The registry of pools.
pub struct Factory {
    pub fee_to: Address,
    pub fee_to_setter: Address,
    pub pairs: AccountMap<Address>,
    pub all_pairs: Vec<Address>,
    pub initialized: bool,
}

impl View for Factory {
    type V = FactoryState;

    open spec fn view(&self) -> FactoryState {
        FactoryState {
            fee_to: self.fee_to,
            fee_to_setter: self.fee_to_setter,
            pairs: self.pairs@,
            all_pairs: self.all_pairs@,
            initialized: self.initialized,
        }
    }
}

impl FactoryState {
    /// The pool filed under a key, if there is one.
    pub open spec fn pair_under(self, id: Address) -> Option<Address> {
        if self.pairs.contains_key(id) {
            Some(self.pairs[id])
        } else {
            None
        }
    }

    /// Whether the caller may name the recipient of the fees.
    pub open spec fn may_set(self, caller: Address) -> bool {
        caller == self.fee_to_setter
    }

    /// Why a pool cannot be filed, or `None` where it can.
    pub open spec fn create_pair_error(self, token_a: Address, token_b: Address) -> Option<
        FactoryError,
    > {
        if token_a == token_b {
            Some(FactoryError::IdenticalAddresses)
        } else if self.pair_under(pair_id_of(token_a, token_b)) is Some {
            Some(FactoryError::PairExists)
        } else {
            None
        }
    }
}

impl Factory {
    /// A new registry without pools; the deployer receives the fees and may
    /// name another recipient.
    pub fn new(deployer: Address) -> (r: Factory)
        ensures
            r@ == (FactoryState {
                fee_to: deployer,
                fee_to_setter: deployer,
                pairs: Map::empty(),
                all_pairs: Seq::empty(),
                initialized: false,
            }),
    {
        Factory {
            fee_to: deployer,
            fee_to_setter: deployer,
            pairs: AccountMap::new(),
            all_pairs: Vec::new(),
            initialized: false,
        }
    }

    /// Marks the registry as set up; fails with `AlreadyInitialized` the second time.
    pub fn init(&mut self) -> (r: Result<(), FactoryError>)
        ensures
            match r {
                Ok(()) => !old(self)@.initialized && final(self)@ == (FactoryState {
                    initialized: true,
                    ..old(self)@
                }),
                Err(e) => e == FactoryError::AlreadyInitialized && old(self)@.initialized
                    && final(self)@ == old(self)@,
            },
    {
        if self.initialized {
            return Err(FactoryError::AlreadyInitialized);
        }
        self.initialized = true;
        Ok(())
    }

    /// The account that receives the fees.
    pub fn fee_to(&self) -> (r: Address)
        ensures
            r == self@.fee_to,
    {
        self.fee_to
    }

    /// The account that may name the recipient of the fees.
    pub fn fee_to_setter(&self) -> (r: Address)
        ensures
            r == self@.fee_to_setter,
    {
        self.fee_to_setter
    }

    /// The number of pools.
    pub fn all_pairs_length(&self) -> (r: u64)
        ensures
            r == self@.all_pairs.len(),
    {
        self.all_pairs.len() as u64
    }

    /// The pool of two tokens, whichever is named first.
    fn read_pair(&self, token_a: &Address, token_b: &Address) -> (r: Option<Address>)
        ensures
            r == self@.pair_under(pair_id_of(*token_a, *token_b)),
    {
        let id = pair_id(token_a, token_b);
        self.pairs.get(&id)
    }

    /// The pool of two tokens, whichever is named first.
    pub fn get_pair(&self, token_a: &Address, token_b: &Address) -> (r: Option<Address>)
        ensures
            r == self@.pair_under(pair_id_of(*token_a, *token_b)),
            r == self@.pair_under(pair_id_of(*token_b, *token_a)),
    {
        proof {
            lemma_pair_id_symmetric(*token_a, *token_b);
        }
        self.read_pair(token_a, token_b)
    }

    /// The pool at a place in the order of creation.
    pub fn all_pairs(&self, index: u64) -> (r: Result<Option<Address>, FactoryError>)
        ensures
            match r {
                Ok(pair) => index < self@.all_pairs.len() && pair == Some(
                    self@.all_pairs[index as int],
                ),
                Err(e) => e == FactoryError::IndexOutOfBounds && index >= self@.all_pairs.len(),
            },
    {
        if index >= self.all_pairs.len() as u64 {
            return Err(FactoryError::IndexOutOfBounds);
        }
        Ok(Some(self.all_pairs[index as usize]))
    }

    /// Files a pool for two tokens: `IdenticalAddresses` where they are the
    /// same, `PairExists` where a pool is filed under their key already.
    pub fn create_pair(&mut self, token_a: Address, token_b: Address, pair: Address) -> (r:
        Result<Address, FactoryError>)
        ensures
            match r {
                Ok(filed) => {
                    &&& filed == pair
                    &&& old(self)@.create_pair_error(token_a, token_b) is None
                    &&& final(self)@ == (FactoryState {
                        pairs: old(self)@.pairs.insert(pair_id_of(token_a, token_b), pair),
                        all_pairs: old(self)@.all_pairs.push(pair),
                        ..old(self)@
                    })
                },
                Err(e) => old(self)@.create_pair_error(token_a, token_b) == Some(e)
                    && final(self)@ == old(self)@,
            },
    {
        if token_a.same(&token_b) {
            return Err(FactoryError::IdenticalAddresses);
        }
        let (token0, token1) = sort_tokens(token_a, token_b);
        proof {
            lemma_pair_id_symmetric(token_a, token_b);
        }
        if self.read_pair(&token0, &token1).is_some() {
            return Err(FactoryError::PairExists);
        }
        let id = pair_id(&token0, &token1);
        self.pairs.insert(id, pair);
        self.all_pairs.push(pair);
        Ok(pair)
    }

    /// Names the recipient of the fees; only the setter may.
    pub fn set_fee_to(&mut self, caller: Address, fee_to: Address) -> (r: Result<(), FactoryError>)
        ensures
            match r {
                Ok(()) => old(self)@.may_set(caller) && final(self)@ == (FactoryState {
                    fee_to,
                    ..old(self)@
                }),
                Err(e) => e == FactoryError::Unauthorized && !old(self)@.may_set(caller)
                    && final(self)@ == old(self)@,
            },
    {
        if !caller.same(&self.fee_to_setter) {
            return Err(FactoryError::Unauthorized);
        }
        self.fee_to = fee_to;
        Ok(())
    }

    /// Hands the right to name the recipient of the fees to another account;
    /// only the setter may.
    pub fn set_fee_to_setter(&mut self, caller: Address, fee_to_setter: Address) -> (r: Result<
        (),
        FactoryError,
    >)
        ensures
            match r {
                Ok(()) => old(self)@.may_set(caller) && final(self)@ == (FactoryState {
                    fee_to_setter,
                    ..old(self)@
                }),
                Err(e) => e == FactoryError::Unauthorized && !old(self)@.may_set(caller)
                    && final(self)@ == old(self)@,
            },
    {
        if !caller.same(&self.fee_to_setter) {
            return Err(FactoryError::Unauthorized);
        }
        self.fee_to_setter = fee_to_setter;
        Ok(())
    }
}

} // verus!
