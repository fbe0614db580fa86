//! Account identifiers and the ledgers keyed by them.

use vstd::prelude::*;

verus! {

/// The 32 bytes that identify an account or a contract.
#[derive(Clone, Copy, PartialEq, Eq, Debug)]
pub struct Address {
    pub bytes: [u8; 32],
}

impl Address {
    /// The address made of the given bytes.
    pub fn new(bytes: [u8; 32]) -> (r: Address)
        ensures
            r.bytes == bytes,
    {
        Address { bytes }
    }

    /// The address of thirty-two zero bytes.
    pub open spec fn spec_zero() -> Address {
        Address { bytes: vstd::array::spec_array_fill_for_copy_type(0u8) }
    }

    /// The address of thirty-two zero bytes.
    #[verifier::when_used_as_spec(spec_zero)]
    pub fn zero() -> (r: Address)
        ensures
            r == Address::spec_zero(),
    {
        Address { bytes: [0u8; 32] }
    }

    /// Whether two addresses are the same.
    pub fn same(&self, other: &Address) -> (r: bool)
        ensures
            r == (*self == *other),
    {
        let mut i: usize = 0;
        while i < 32
            invariant
                0 <= i <= 32,
                forall|j: int| 0 <= j < i ==> self.bytes@[j] == other.bytes@[j],
            decreases 32 - i,
        {
            if self.bytes[i] != other.bytes[i] {
                return false;
            }
            i += 1;
        }
        assert(self.bytes =~= other.bytes);
        true
    }
}

/// Whether the first entry for the key is at the given place.
pub open spec fn first_entry_at<K, V>(entries: Seq<(K, V)>, who: K, i: int) -> bool {
    &&& 0 <= i < entries.len()
    &&& entries[i].0 == who
    &&& forall|j: int| 0 <= j < i ==> entries[j].0 != who
}

/// The map that a list of entries spells: each key has the value of its
/// first entry.
pub open spec fn entries_map<K, V>(entries: Seq<(K, V)>) -> Map<K, V> {
    Map::new(
        |who: K| exists|i: int| first_entry_at(entries, who, i),
        |who: K| entries[choose|i: int| first_entry_at(entries, who, i)].1,
    )
}

/// What a ledger can be keyed by: a value that can be told from another.
pub trait LedgerKey: Copy {
    /// Whether two keys are the same.
    fn key_eq(&self, other: &Self) -> (r: bool)
        ensures
            r == (*self == *other),
    ;
}

impl LedgerKey for Address {
    fn key_eq(&self, other: &Address) -> (r: bool) {
        self.same(other)
    }
}

/// An owner of funds and an account that may spend them.
#[derive(Clone, Copy, PartialEq, Eq, Debug)]
pub struct Grant {
    pub owner: Address,
    pub spender: Address,
}

impl LedgerKey for Grant {
    fn key_eq(&self, other: &Grant) -> (r: bool) {
        self.owner.same(&other.owner) && self.spender.same(&other.spender)
    }
}

/// A ledger from keys to values.
pub struct Ledger<K, V> {
    entries: Vec<(K, V)>,
}

/// A ledger keyed by account.
pub type AccountMap<V> = Ledger<Address, V>;

/// A ledger keyed by an owner and a spender.
pub type AllowanceMap<V> = Ledger<Grant, V>;

impl<K, V> View for Ledger<K, V> {
    type V = Map<K, V>;

    closed spec fn view(&self) -> Map<K, V> {
        entries_map(self.entries@)
    }
}

impl<K, V> Ledger<K, V> {
    /// A ledger holds finitely many keys.
    pub proof fn lemma_finite(&self)
        ensures
            self@.dom().finite(),
    {
        lemma_entries_finite(self.entries@);
    }
}

impl<K: LedgerKey, V: Copy> Ledger<K, V> {
    /// The empty ledger.
    pub fn new() -> (r: Ledger<K, V>)
        ensures
            r@ == Map::<K, V>::empty(),
    {
        let r = Ledger { entries: Vec::new() };
        assert(r@ =~= Map::<K, V>::empty());
        r
    }

    /// The place of the first entry for a key, if there is one.
    fn position(&self, who: &K) -> (r: Option<usize>)
        ensures
            match r {
                Some(i) => first_entry_at(self.entries@, *who, i as int),
                None => forall|i: int| !first_entry_at(self.entries@, *who, i),
            },
    {
        let mut i: usize = 0;
        while i < self.entries.len()
            invariant
                0 <= i <= self.entries@.len(),
                forall|j: int| 0 <= j < i ==> self.entries@[j].0 != *who,
            decreases self.entries@.len() - i,
        {
            if self.entries[i].0.key_eq(who) {
                return Some(i);
            }
            i += 1;
        }
        None
    }

    /// The value held for a key, if there is one.
    pub fn get(&self, who: &K) -> (r: Option<V>)
        ensures
            r == (if self@.contains_key(*who) {
                Some(self@[*who])
            } else {
                None
            }),
    {
        match self.position(who) {
            Some(i) => {
                proof {
                    lemma_first_entry_unique(
                        self.entries@,
                        *who,
                        i as int,
                        choose|k: int| first_entry_at(self.entries@, *who, k),
                    );
                }
                Some(self.entries[i].1)
            },
            None => None,
        }
    }

    /// Sets the value held for a key.
    pub fn insert(&mut self, who: K, value: V)
        ensures
            final(self)@ == old(self)@.insert(who, value),
    {
        let ghost before = self.entries@;
        match self.position(&who) {
            Some(i) => {
                self.entries[i] = (who, value);
                proof {
                    assert(self.entries@ == before.update(i as int, (who, value)));
                    lemma_entries_updated(before, i as int, value);
                }
            },
            None => {
                self.entries.push((who, value));
                proof {
                    assert(self.entries@ == before.push((who, value)));
                    lemma_entries_pushed(before, who, value);
                }
            },
        }
    }
}

/// A key has at most one first entry.
proof fn lemma_first_entry_unique<K, V>(entries: Seq<(K, V)>, who: K, i: int, j: int)
    requires
        first_entry_at(entries, who, i),
        first_entry_at(entries, who, j),
    ensures
        i == j,
{
}

/// Replacing the value of a first entry sets that key in the map.
proof fn lemma_entries_updated<K, V>(entries: Seq<(K, V)>, i: int, value: V)
    requires
        first_entry_at(entries, entries[i].0, i),
    ensures
        entries_map(entries.update(i, (entries[i].0, value))) == entries_map(entries).insert(
            entries[i].0,
            value,
        ),
{
    let who = entries[i].0;
    let after = entries.update(i, (who, value));
    let left = entries_map(after);
    let right = entries_map(entries).insert(who, value);
    assert forall|a: K, k: int| first_entry_at(after, a, k) <==> first_entry_at(
        entries,
        a,
        k,
    ) by {
        if first_entry_at(after, a, k) {
            assert forall|j: int| 0 <= j < k implies entries[j].0 != a by {
                assert(after[j].0 != a);
            }
        }
        if first_entry_at(entries, a, k) {
            assert forall|j: int| 0 <= j < k implies after[j].0 != a by {
                assert(entries[j].0 != a);
            }
        }
    }
    assert forall|a: K| left.contains_key(a) <==> right.contains_key(a) by {
        if left.contains_key(a) {
            let k = choose|k: int| first_entry_at(after, a, k);
            assert(first_entry_at(entries, a, k));
        }
        if right.contains_key(a) {
            if a == who {
                assert(first_entry_at(after, a, i));
            } else {
                let k = choose|k: int| first_entry_at(entries, a, k);
                assert(first_entry_at(after, a, k));
            }
        }
    }
    assert forall|a: K| left.contains_key(a) implies left[a] == right[a] by {
        let k = choose|k: int| first_entry_at(after, a, k);
        if a == who {
            lemma_first_entry_unique(after, a, k, i);
        } else {
            let m = choose|m: int| first_entry_at(entries, a, m);
            assert(first_entry_at(entries, a, k));
            lemma_first_entry_unique(entries, a, k, m);
        }
    }
    assert(left =~= right);
}

/// Appending an entry for a key that has none sets that key in the map.
proof fn lemma_entries_pushed<K, V>(entries: Seq<(K, V)>, who: K, value: V)
    requires
        forall|i: int| !first_entry_at(entries, who, i),
    ensures
        entries_map(entries.push((who, value))) == entries_map(entries).insert(who, value),
{
    let after = entries.push((who, value));
    let left = entries_map(after);
    let right = entries_map(entries).insert(who, value);
    let n = entries.len() as int;
    assert forall|j: int| 0 <= j < n implies entries[j].0 != who by {
        lemma_no_first_entry(entries, who, j);
    }
    assert forall|a: K, k: int| 0 <= k < n implies (first_entry_at(after, a, k)
        <==> first_entry_at(entries, a, k)) by {
        if first_entry_at(after, a, k) {
            assert forall|j: int| 0 <= j < k implies entries[j].0 != a by {
                assert(after[j].0 != a);
            }
        }
        if first_entry_at(entries, a, k) {
            assert forall|j: int| 0 <= j < k implies after[j].0 != a by {
                assert(entries[j].0 != a);
            }
        }
    }
    assert(first_entry_at(after, who, n)) by {
        assert forall|j: int| 0 <= j < n implies after[j].0 != who by {
            assert(entries[j].0 != who);
        }
    }
    assert forall|a: K| left.contains_key(a) <==> right.contains_key(a) by {
        if left.contains_key(a) {
            let k = choose|k: int| first_entry_at(after, a, k);
            if k < n {
                assert(first_entry_at(entries, a, k));
            }
        }
        if right.contains_key(a) && a != who {
            let k = choose|k: int| first_entry_at(entries, a, k);
            assert(first_entry_at(after, a, k));
        }
    }
    assert forall|a: K| left.contains_key(a) implies left[a] == right[a] by {
        let k = choose|k: int| first_entry_at(after, a, k);
        if a == who {
            lemma_first_entry_unique(after, a, k, n);
        } else {
            let m = choose|m: int| first_entry_at(entries, a, m);
            assert(first_entry_at(entries, a, k));
            lemma_first_entry_unique(entries, a, k, m);
        }
    }
    assert(left =~= right);
}

/// A list of entries spells a map of finitely many keys.
proof fn lemma_entries_finite<K, V>(entries: Seq<(K, V)>)
    ensures
        entries_map(entries).dom().finite(),
{
    let keys = entries.map_values(|entry: (K, V)| entry.0);
    vstd::seq_lib::seq_to_set_is_finite(keys);
    assert forall|who: K| entries_map(entries).dom().contains(who) implies keys.to_set().contains(
        who,
    ) by {
        let i = choose|i: int| first_entry_at(entries, who, i);
        assert(keys[i] == who);
    }
    vstd::set_lib::lemma_len_subset(entries_map(entries).dom(), keys.to_set());
}

/// Where a key has no first entry it has no entry at all.
proof fn lemma_no_first_entry<K, V>(entries: Seq<(K, V)>, who: K, j: int)
    requires
        forall|i: int| !first_entry_at(entries, who, i),
        0 <= j < entries.len(),
    ensures
        entries[j].0 != who,
    decreases j,
{
    if entries[j].0 == who {
        if forall|k: int| 0 <= k < j ==> entries[k].0 != who {
            assert(first_entry_at(entries, who, j));
        } else {
            let k = choose|k: int| 0 <= k < j && entries[k].0 == who;
            lemma_no_first_entry(entries, who, k);
        }
    }
}

/// The sum of the amounts of a ledger that holds finitely many.
pub open spec fn ledger_sum<K>(ledger: Map<K, nat>) -> nat
    decreases ledger.dom().len(),
    when ledger.dom().finite()
{
    if ledger.dom().len() == 0 {
        0
    } else {
        let key = ledger.dom().choose();
        ledger[key] + ledger_sum(ledger.remove(key))
    }
}

/// The amount that a ledger holds for a key, zero where it holds none.
pub open spec fn ledger_amount<K>(ledger: Map<K, nat>, key: K) -> nat {
    if ledger.contains_key(key) {
        ledger[key]
    } else {
        0
    }
}

/// The sum of a ledger is the amount of any one key and the sum of the rest.
pub proof fn lemma_ledger_sum_remove<K>(ledger: Map<K, nat>, key: K)
    requires
        ledger.dom().finite(),
        ledger.contains_key(key),
    ensures
        ledger_sum(ledger) == ledger[key] + ledger_sum(ledger.remove(key)),
    decreases ledger.dom().len(),
{
    let first = ledger.dom().choose();
    assert(ledger.dom().len() != 0) by {
        if ledger.dom().len() == 0 {
            assert(ledger.dom() =~= Set::<K>::empty());
        }
    }
    if first != key {
        let without_first = ledger.remove(first);
        let without_key = ledger.remove(key);
        assert(ledger.dom().contains(first)) by {
            vstd::set_lib::axiom_is_empty(ledger.dom());
        }
        lemma_ledger_sum_remove(without_first, key);
        lemma_ledger_sum_remove(without_key, first);
        assert(without_first.remove(key) =~= without_key.remove(first));
    }
}

/// Setting the amount of a key changes the sum by the difference.
pub proof fn lemma_ledger_sum_insert<K>(ledger: Map<K, nat>, key: K, amount: nat)
    requires
        ledger.dom().finite(),
    ensures
        ledger.insert(key, amount).dom().finite(),
        ledger_sum(ledger.insert(key, amount)) + ledger_amount(ledger, key) == ledger_sum(ledger)
            + amount,
{
    let after = ledger.insert(key, amount);
    lemma_ledger_sum_remove(after, key);
    if ledger.contains_key(key) {
        lemma_ledger_sum_remove(ledger, key);
        assert(after.remove(key) =~= ledger.remove(key));
    } else {
        assert(after.remove(key) =~= ledger);
    }
}

/// The empty ledger sums to nothing.
pub proof fn lemma_ledger_sum_empty<K>()
    ensures
        ledger_sum(Map::<K, nat>::empty()) == 0,
        Map::<K, nat>::empty().dom().finite(),
{
    assert(Map::<K, nat>::empty().dom() =~= Set::<K>::empty());
}

} // verus!
