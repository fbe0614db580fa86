//! Fixed-width unsigned integers of 256 and 512 bits.
//!
//! A value is held as its 64-bit words, least significant first, which is the
//! layout of `casper_types::U256` and `casper_types::U512`. Its view is the
//! natural number that the words spell. Addition, subtraction, multiplication,
//! division and ordering are done by `casper_types`; what they return is
//! stated here over the views and believed, not proved.

use vstd::prelude::*;

verus! {

/// The number of values a 64-bit word can take.
pub open spec fn pow2_64() -> nat {
    0x1_0000_0000_0000_0000nat
}

/// The number of values a 256-bit word can take.
pub open spec fn pow2_256() -> nat {
    0x1_0000_0000_0000_0000_0000_0000_0000_0000_0000_0000_0000_0000_0000_0000_0000_0000nat
}

/// The number of values a 512-bit word can take.
pub open spec fn pow2_512() -> nat {
    0x1_0000_0000_0000_0000_0000_0000_0000_0000_0000_0000_0000_0000_0000_0000_0000_0000_0000_0000_0000_0000_0000_0000_0000_0000_0000_0000_0000_0000_0000_0000_0000_0000nat
}

/// The smaller of two numbers.
pub open spec fn min_nat(a: nat, b: nat) -> nat {
    if a < b {
        a
    } else {
        b
    }
}

/// The number spelled by four 64-bit words, least significant first.
pub open spec fn words4_value(w: Seq<u64>) -> nat {
    (w[0] as nat)
        + (w[1] as nat)
        * 0x1_0000_0000_0000_0000nat
        + (w[2] as nat)
        * 0x1_0000_0000_0000_0000_0000_0000_0000_0000nat
        + (w[3] as nat)
        * 0x1_0000_0000_0000_0000_0000_0000_0000_0000_0000_0000_0000_0000nat
}

/// The number spelled by eight 64-bit words, least significant first.
pub open spec fn words8_value(w: Seq<u64>) -> nat {
    (w[0] as nat)
        + (w[1] as nat)
        * 0x1_0000_0000_0000_0000nat
        + (w[2] as nat)
        * 0x1_0000_0000_0000_0000_0000_0000_0000_0000nat
        + (w[3] as nat)
        * 0x1_0000_0000_0000_0000_0000_0000_0000_0000_0000_0000_0000_0000nat
        + (w[4] as nat)
        * 0x1_0000_0000_0000_0000_0000_0000_0000_0000_0000_0000_0000_0000_0000_0000_0000_0000nat
        + (w[5] as nat)
        * 0x1_0000_0000_0000_0000_0000_0000_0000_0000_0000_0000_0000_0000_0000_0000_0000_0000_0000_0000_0000_0000nat
        + (w[6] as nat)
        * 0x1_0000_0000_0000_0000_0000_0000_0000_0000_0000_0000_0000_0000_0000_0000_0000_0000_0000_0000_0000_0000_0000_0000_0000_0000nat
        + (w[7] as nat)
        * 0x1_0000_0000_0000_0000_0000_0000_0000_0000_0000_0000_0000_0000_0000_0000_0000_0000_0000_0000_0000_0000_0000_0000_0000_0000_0000_0000_0000_0000nat
}

/// A 256-bit unsigned integer.
#[derive(Clone, Copy, PartialEq, Eq, Debug)]
pub struct U256 {
    pub limbs: [u64; 4],
}

/// A 512-bit unsigned integer.
#[derive(Clone, Copy, PartialEq, Eq, Debug)]
pub struct U512 {
    pub limbs: [u64; 8],
}

impl View for U256 {
    type V = nat;

    open spec fn view(&self) -> nat {
        words4_value(self.limbs@)
    }
}

impl View for U512 {
    type V = nat;

    open spec fn view(&self) -> nat {
        words8_value(self.limbs@)
    }
}

/// Every 256-bit value lies below 2^256.
pub proof fn lemma_u256_bound(x: U256)
    ensures
        x@ < pow2_256(),
{
}

/// Every 512-bit value lies below 2^512.
pub proof fn lemma_u512_bound(x: U512)
    ensures
        x@ < pow2_512(),
{
}

/// A number splits in one way into a part below a modulus and a multiple of
/// the modulus.
proof fn lemma_split_unique(low_a: nat, high_a: nat, low_b: nat, high_b: nat, modulus: nat)
    requires
        low_a < modulus,
        low_b < modulus,
        low_a + high_a * modulus == low_b + high_b * modulus,
    ensures
        low_a == low_b,
        high_a == high_b,
{
    if high_a < high_b {
        assert(high_b * modulus >= high_a * modulus + modulus) by (nonlinear_arith)
            requires
                high_a + 1 <= high_b,
        ;
    }
    if high_b < high_a {
        assert(high_a * modulus >= high_b * modulus + modulus) by (nonlinear_arith)
            requires
                high_b + 1 <= high_a,
        ;
    }
}

/// The number spelled by the words from a place on, in units of the place.
spec fn words_from(w: Seq<u64>, place: int) -> nat
    decreases w.len() - place,
{
    if 0 <= place < w.len() {
        (w[place] as nat) + words_from(w, place + 1) * pow2_64()
    } else {
        0
    }
}

/// Words that spell the same number from a place on are the same from there on.
proof fn lemma_words_from_unique(a: Seq<u64>, b: Seq<u64>, place: int)
    requires
        a.len() == b.len(),
        0 <= place,
        words_from(a, place) == words_from(b, place),
    ensures
        forall|i: int| place <= i < a.len() ==> a[i] == b[i],
    decreases a.len() - place,
{
    if place < a.len() {
        lemma_split_unique(
            a[place] as nat,
            words_from(a, place + 1),
            b[place] as nat,
            words_from(b, place + 1),
            pow2_64(),
        );
        lemma_words_from_unique(a, b, place + 1);
    }
}

/// Four words spell the number of their places.
proof fn lemma_words4_from(w: Seq<u64>)
    requires
        w.len() == 4,
    ensures
        words_from(w, 0) == words4_value(w),
{
    reveal_with_fuel(words_from, 5);
}

/// Eight words spell the number of their places.
proof fn lemma_words8_from(w: Seq<u64>)
    requires
        w.len() == 8,
    ensures
        words_from(w, 0) == words8_value(w),
{
    reveal_with_fuel(words_from, 5);
    let high = words_from(w, 4);
    assert(high == (w[4] as nat) + (w[5] as nat) * 0x1_0000_0000_0000_0000nat + (w[6] as nat)
        * 0x1_0000_0000_0000_0000_0000_0000_0000_0000nat + (w[7] as nat)
        * 0x1_0000_0000_0000_0000_0000_0000_0000_0000_0000_0000_0000_0000nat);
    assert(words_from(w, 0) == (w[0] as nat) + (w[1] as nat) * 0x1_0000_0000_0000_0000nat + (
    w[2] as nat) * 0x1_0000_0000_0000_0000_0000_0000_0000_0000nat + (w[3] as nat)
        * 0x1_0000_0000_0000_0000_0000_0000_0000_0000_0000_0000_0000_0000nat + high * pow2_256());
}

/// Two 512-bit integers with the same value have the same words.
pub proof fn lemma_u512_same_value(x: U512, y: U512)
    requires
        x@ == y@,
    ensures
        x == y,
{
    lemma_words8_from(x.limbs@);
    lemma_words8_from(y.limbs@);
    lemma_words_from_unique(x.limbs@, y.limbs@, 0);
    assert(x.limbs =~= y.limbs);
}

/// Two 256-bit integers with the same value have the same words.
pub proof fn lemma_u256_same_value(x: U256, y: U256)
    requires
        x@ == y@,
    ensures
        x == y,
{
    lemma_words4_from(x.limbs@);
    lemma_words4_from(y.limbs@);
    lemma_words_from_unique(x.limbs@, y.limbs@, 0);
    assert(x.limbs =~= y.limbs);
}

impl U256 {
    /// Zero.
    pub fn zero() -> (r: U256)
        ensures
            r@ == 0,
    {
        U256 { limbs: [0u64; 4] }
    }

    /// The value of a 64-bit integer.
    pub fn from_u64(value: u64) -> (r: U256)
        ensures
            r@ == value,
    {
        U256 { limbs: [value, 0, 0, 0] }
    }

    /// The value of a 128-bit integer.
    pub fn from_u128(value: u128) -> (r: U256)
        ensures
            r@ == value,
    {
        let low: u64 = (value & 0xffff_ffff_ffff_ffff) as u64;
        let high: u64 = (value >> 64) as u64;
        assert(value == (value & 0xffff_ffff_ffff_ffff) + (value >> 64) * 0x1_0000_0000_0000_0000)
            by (bit_vector);
        assert((value & 0xffff_ffff_ffff_ffff) <= 0xffff_ffff_ffff_ffff) by (bit_vector);
        assert((value >> 64) <= 0xffff_ffff_ffff_ffff) by (bit_vector);
        U256 { limbs: [low, high, 0, 0] }
    }

    /// Whether the value is zero.
    pub fn is_zero(&self) -> (r: bool)
        ensures
            r == (self@ == 0),
    {
        let mut i: usize = 0;
        while i < 4
            invariant
                0 <= i <= 4,
                forall|j: int| 0 <= j < i ==> self.limbs@[j] == 0,
            decreases 4 - i,
        {
            if self.limbs[i] != 0 {
                return false;
            }
            i += 1;
        }
        true
    }

    /// The sum, where it fits in 256 bits.
    ///
    /// Calls `casper_types::U256::checked_add`, which adds word by word with
    /// carry and answers `None` when a carry leaves the highest word.
    #[verifier::external_body]
    pub(crate) fn checked_add(self, other: U256) -> (r: Option<U256>)
        ensures
            r is Some <==> self@ + other@ < pow2_256(),
            r is Some ==> r->Some_0@ == self@ + other@,
    {
        match casper_types::U256(self.limbs).checked_add(casper_types::U256(other.limbs)) {
            Some(v) => Some(U256 { limbs: v.0 }),
            None => None,
        }
    }

    /// The difference, where it is not negative.
    ///
    /// Calls `casper_types::U256::checked_sub`, which subtracts word by word
    /// with borrow and answers `None` when a borrow leaves the highest word.
    #[verifier::external_body]
    pub(crate) fn checked_sub(self, other: U256) -> (r: Option<U256>)
        ensures
            r is Some <==> other@ <= self@,
            r is Some ==> r->Some_0@ == self@ - other@,
    {
        match casper_types::U256(self.limbs).checked_sub(casper_types::U256(other.limbs)) {
            Some(v) => Some(U256 { limbs: v.0 }),
            None => None,
        }
    }

    /// The product, where it fits in 256 bits.
    ///
    /// Calls `casper_types::U256::checked_mul`, which multiplies in full
    /// width and answers `None` when a word of the upper half is set.
    #[verifier::external_body]
    pub(crate) fn checked_mul(self, other: U256) -> (r: Option<U256>)
        ensures
            r is Some <==> self@ * other@ < pow2_256(),
            r is Some ==> r->Some_0@ == self@ * other@,
    {
        match casper_types::U256(self.limbs).checked_mul(casper_types::U256(other.limbs)) {
            Some(v) => Some(U256 { limbs: v.0 }),
            None => None,
        }
    }

    /// The quotient rounded down, where the divisor is not zero.
    ///
    /// Calls `casper_types::U256::checked_div`, which answers `None` for a
    /// zero divisor and otherwise the quotient of its `div_mod`.
    #[verifier::external_body]
    pub(crate) fn checked_div(self, other: U256) -> (r: Option<U256>)
        ensures
            r is Some <==> other@ != 0,
            r is Some ==> r->Some_0@ == self@ / other@,
    {
        match casper_types::U256(self.limbs).checked_div(casper_types::U256(other.limbs)) {
            Some(v) => Some(U256 { limbs: v.0 }),
            None => None,
        }
    }

    /// Whether this value is the smaller one.
    ///
    /// Calls `<` of `casper_types::U256`, which compares the words from the
    /// most significant down.
    #[verifier::external_body]
    pub(crate) fn lt(&self, other: &U256) -> (r: bool)
        ensures
            r == (self@ < other@),
    {
        casper_types::U256(self.limbs) < casper_types::U256(other.limbs)
    }

    /// The same value in 512 bits.
    pub fn to_u512(&self) -> (r: U512)
        ensures
            r@ == self@,
    {
        let l = &self.limbs;
        U512 { limbs: [l[0], l[1], l[2], l[3], 0, 0, 0, 0] }
    }
}

impl U512 {
    /// Zero.
    pub fn zero() -> (r: U512)
        ensures
            r@ == 0,
    {
        U512 { limbs: [0u64; 8] }
    }

    /// The value of a 64-bit integer.
    pub fn from_u64(value: u64) -> (r: U512)
        ensures
            r@ == value,
    {
        U512 { limbs: [value, 0, 0, 0, 0, 0, 0, 0] }
    }

    /// The value of a 128-bit integer.
    pub fn from_u128(value: u128) -> (r: U512)
        ensures
            r@ == value,
    {
        let low: u64 = (value & 0xffff_ffff_ffff_ffff) as u64;
        let high: u64 = (value >> 64) as u64;
        assert(value == (value & 0xffff_ffff_ffff_ffff) + (value >> 64) * 0x1_0000_0000_0000_0000)
            by (bit_vector);
        assert((value & 0xffff_ffff_ffff_ffff) <= 0xffff_ffff_ffff_ffff) by (bit_vector);
        assert((value >> 64) <= 0xffff_ffff_ffff_ffff) by (bit_vector);
        U512 { limbs: [low, high, 0, 0, 0, 0, 0, 0] }
    }

    /// Whether the value is zero.
    pub fn is_zero(&self) -> (r: bool)
        ensures
            r == (self@ == 0),
    {
        let mut i: usize = 0;
        while i < 8
            invariant
                0 <= i <= 8,
                forall|j: int| 0 <= j < i ==> self.limbs@[j] == 0,
            decreases 8 - i,
        {
            if self.limbs[i] != 0 {
                return false;
            }
            i += 1;
        }
        true
    }

    /// The sum, where it fits in 512 bits.
    ///
    /// Calls `casper_types::U512::checked_add`, which adds word by word with
    /// carry and answers `None` when a carry leaves the highest word.
    #[verifier::external_body]
    pub(crate) fn checked_add(self, other: U512) -> (r: Option<U512>)
        ensures
            r is Some <==> self@ + other@ < pow2_512(),
            r is Some ==> r->Some_0@ == self@ + other@,
    {
        match casper_types::U512(self.limbs).checked_add(casper_types::U512(other.limbs)) {
            Some(v) => Some(U512 { limbs: v.0 }),
            None => None,
        }
    }

    /// The difference, where it is not negative.
    ///
    /// Calls `casper_types::U512::checked_sub`, which subtracts word by word
    /// with borrow and answers `None` when a borrow leaves the highest word.
    #[verifier::external_body]
    pub(crate) fn checked_sub(self, other: U512) -> (r: Option<U512>)
        ensures
            r is Some <==> other@ <= self@,
            r is Some ==> r->Some_0@ == self@ - other@,
    {
        match casper_types::U512(self.limbs).checked_sub(casper_types::U512(other.limbs)) {
            Some(v) => Some(U512 { limbs: v.0 }),
            None => None,
        }
    }

    /// The product, where it fits in 512 bits.
    ///
    /// Calls `casper_types::U512::checked_mul`, which multiplies in full
    /// width and answers `None` when a word of the upper half is set.
    #[verifier::external_body]
    pub(crate) fn checked_mul(self, other: U512) -> (r: Option<U512>)
        ensures
            r is Some <==> self@ * other@ < pow2_512(),
            r is Some ==> r->Some_0@ == self@ * other@,
    {
        match casper_types::U512(self.limbs).checked_mul(casper_types::U512(other.limbs)) {
            Some(v) => Some(U512 { limbs: v.0 }),
            None => None,
        }
    }

    /// The quotient rounded down, where the divisor is not zero.
    ///
    /// Calls `casper_types::U512::checked_div`, which answers `None` for a
    /// zero divisor and otherwise the quotient of its `div_mod`.
    #[verifier::external_body]
    pub(crate) fn checked_div(self, other: U512) -> (r: Option<U512>)
        ensures
            r is Some <==> other@ != 0,
            r is Some ==> r->Some_0@ == self@ / other@,
    {
        match casper_types::U512(self.limbs).checked_div(casper_types::U512(other.limbs)) {
            Some(v) => Some(U512 { limbs: v.0 }),
            None => None,
        }
    }

    /// Whether this value is the smaller one.
    ///
    /// Calls `<` of `casper_types::U512`, which compares the words from the
    /// most significant down.
    #[verifier::external_body]
    pub(crate) fn lt(&self, other: &U512) -> (r: bool)
        ensures
            r == (self@ < other@),
    {
        casper_types::U512(self.limbs) < casper_types::U512(other.limbs)
    }

    /// The same value in 64 bits, where it fits.
    pub fn to_u64(&self) -> (r: Option<u64>)
        ensures
            r is Some <==> self@ < pow2_64(),
            r is Some ==> r->Some_0 == self@,
    {
        let l = &self.limbs;
        if l[1] == 0 && l[2] == 0 && l[3] == 0 && l[4] == 0 && l[5] == 0 && l[6] == 0 && l[7]
            == 0 {
            Some(l[0])
        } else {
            None
        }
    }

    /// The same value in 256 bits, where it fits.
    pub fn to_u256(&self) -> (r: Option<U256>)
        ensures
            r is Some <==> self@ < pow2_256(),
            r is Some ==> r->Some_0@ == self@,
    {
        let l = &self.limbs;
        if l[4] == 0 && l[5] == 0 && l[6] == 0 && l[7] == 0 {
            Some(U256 { limbs: [l[0], l[1], l[2], l[3]] })
        } else {
            None
        }
    }
}

} // verus!
