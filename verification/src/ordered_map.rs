//! A small map that keeps its entries in the order in which their keys first came, and the
//! accumulation and saturating subtraction of maps of counters.
use vstd::prelude::*;
use vstd::std_specs::cmp::PartialEqSpecImpl;

verus! {

/// A type whose values can key an [`OrderedMap`]: two keys are the same entry exactly when
/// their identities are equal.
pub trait MapKey: Sized {
    /// What a key is known by in specifications.
    type Ident;

    spec fn ident(&self) -> Self::Ident;

    fn same_key(&self, other: &Self) -> (same: bool)
        ensures
            same == (self.ident() == other.ident()),
    ;

    fn clone_key(&self) -> (copy: Self)
        ensures
            copy.ident() == self.ident(),
    ;
}

impl MapKey for String {
    type Ident = Seq<char>;

    open spec fn ident(&self) -> Seq<char> {
        self@
    }

    fn same_key(&self, other: &Self) -> (same: bool) {
        *self == *other
    }

    fn clone_key(&self) -> (copy: Self) {
        self.clone()
    }
}

/// A value that an [`OrderedMap`] can accumulate and subtract: a count, or a group of counts.
pub trait Counter: Sized {
    /// The sum of the two values can be represented.
    spec fn fits(&self, other: &Self) -> bool;

    /// The sum of the two values.
    spec fn sum(&self, other: &Self) -> Self;

    /// What is left of `self` once `other` is taken from it, where no count goes below zero.
    spec fn difference(&self, other: &Self) -> Self;

    /// Every count of the value is zero.
    spec fn is_spent(&self) -> bool;

    fn can_add(&self, other: &Self) -> (fits: bool)
        ensures
            fits == self.fits(other),
    ;

    fn add_counter(&self, other: &Self) -> (total: Self)
        requires
            self.fits(other),
        ensures
            total == self.sum(other),
    ;

    fn sub_counter(&self, other: &Self) -> (left: Self)
        ensures
            left == self.difference(other),
    ;

    fn spent(&self) -> (spent: bool)
        ensures
            spent == self.is_spent(),
    ;

    fn clone_counter(&self) -> (copy: Self)
        ensures
            copy == *self,
    ;

    fn same_counter(&self, other: &Self) -> (same: bool)
        ensures
            same == (*self == *other),
    ;
}

impl Counter for usize {
    open spec fn fits(&self, other: &Self) -> bool {
        *self + *other <= usize::MAX
    }

    open spec fn sum(&self, other: &Self) -> Self {
        (*self + *other) as usize
    }

    open spec fn difference(&self, other: &Self) -> Self {
        if *self >= *other {
            (*self - *other) as usize
        } else {
            0
        }
    }

    open spec fn is_spent(&self) -> bool {
        *self == 0
    }

    fn can_add(&self, other: &Self) -> (fits: bool) {
        *self <= usize::MAX - *other
    }

    fn add_counter(&self, other: &Self) -> (total: Self) {
        *self + *other
    }

    fn sub_counter(&self, other: &Self) -> (left: Self) {
        if *self >= *other {
            *self - *other
        } else {
            0
        }
    }

    fn spent(&self) -> (spent: bool) {
        *self == 0
    }

    fn clone_counter(&self) -> (copy: Self) {
        *self
    }

    fn same_counter(&self, other: &Self) -> (same: bool) {
        *self == *other
    }
}

/// The map that holds the entries of both maps, and the sum of both values where both
/// have the key.
pub open spec fn merged<I, V: Counter>(a: Map<I, V>, b: Map<I, V>) -> Map<I, V> {
    Map::new(
        |key: I| a.contains_key(key) || b.contains_key(key),
        |key: I|
            if a.contains_key(key) && b.contains_key(key) {
                a[key].sum(&b[key])
            } else if a.contains_key(key) {
                a[key]
            } else {
                b[key]
            },
    )
}

/// The sums that [`merged`] takes can all be represented.
pub open spec fn mergeable<I, V: Counter>(a: Map<I, V>, b: Map<I, V>) -> bool {
    forall|key: I| a.contains_key(key) && b.contains_key(key) ==> (#[trigger] a[key]).fits(&b[key])
}

/// What is left of the value that `a` holds for `key` once the value that `b` holds for it,
/// if any, is taken from it.
pub open spec fn remaining<I, V: Counter>(a: Map<I, V>, b: Map<I, V>, key: I) -> V {
    if b.contains_key(key) {
        a[key].difference(&b[key])
    } else {
        a[key]
    }
}

/// The map that holds what is left of each entry of `a` once `b` is taken from it, without
/// the entries of which nothing is left.
pub open spec fn subtracted<I, V: Counter>(a: Map<I, V>, b: Map<I, V>) -> Map<I, V> {
    Map::new(
        |key: I| a.contains_key(key) && !remaining(a, b, key).is_spent(),
        |key: I| remaining(a, b, key),
    )
}

/// No two entries of `entries` have the same key.
pub open spec fn distinct_keys<I, V>(entries: Seq<(I, V)>) -> bool {
    forall|i: int, j: int|
        0 <= i < j < entries.len() ==> (#[trigger] entries[i]).0 != (#[trigger] entries[j]).0
}

/// Some entry of `entries` has the key `key`.
pub open spec fn has_key<I, V>(entries: Seq<(I, V)>, key: I) -> bool {
    exists|i: int| 0 <= i < entries.len() && (#[trigger] entries[i]).0 == key
}

/// The position of an entry of `entries` with the key `key`.
pub open spec fn position_of<I, V>(entries: Seq<(I, V)>, key: I) -> int {
    choose|i: int| 0 <= i < entries.len() && (#[trigger] entries[i]).0 == key
}

/// The map that a list of entries stands for.
pub open spec fn map_of<I, V>(entries: Seq<(I, V)>) -> Map<I, V> {
    Map::new(|key: I| has_key(entries, key), |key: I| entries[position_of(entries, key)].1)
}

/// Each entry of a list with distinct keys is an entry of the map it stands for.
pub proof fn lemma_map_of_entry<I, V>(entries: Seq<(I, V)>, i: int)
    requires
        distinct_keys(entries),
        0 <= i < entries.len(),
    ensures
        map_of(entries).contains_key(entries[i].0),
        map_of(entries)[entries[i].0] == entries[i].1,
{
    assert(has_key(entries, entries[i].0));
}

/// A map from keys to values, with the entries kept in the order in which their keys
/// first came.
#[derive(Debug)]
pub struct OrderedMap<K: MapKey, V> {
    entries: Vec<(K, V)>,
}

impl<K: MapKey, V> OrderedMap<K, V> {
    /// The entries, each key by its identity, in the order in which they are kept.
    pub closed spec fn entries(&self) -> Seq<(K::Ident, V)> {
        self.entries@.map_values(|e: (K, V)| (e.0.ident(), e.1))
    }

    #[verifier::type_invariant]
    spec fn keys_are_distinct(&self) -> bool {
        distinct_keys(self.entries())
    }
}

impl<K: MapKey, V> View for OrderedMap<K, V> {
    type V = Map<K::Ident, V>;

    closed spec fn view(&self) -> Map<K::Ident, V> {
        map_of(self.entries())
    }
}

impl<K: MapKey, V> OrderedMap<K, V> {
    /// A map without entries.
    pub fn new() -> (map: Self)
        ensures
            map@ == Map::<K::Ident, V>::empty(),
            map.entries().len() == 0,
    {
        OrderedMap { entries: Vec::new() }
    }

    /// A value of the map is a smaller term than the map, so that a function may recurse
    /// into the values of a map that is part of its argument.
    pub proof fn lemma_value_decreases(&self, key: K::Ident)
        requires
            self@.contains_key(key),
        ensures
            decreases_to!(self => self@[key]),
    {
        let p = position_of(self.entries(), key);
        assert(decreases_to!(self => self.entries@[p].1));
    }

    /// The number of entries.
    pub fn len(&self) -> (n: usize)
        ensures
            n == self.entries().len(),
            n == self@.len(),
            distinct_keys(self.entries()),
            self@ == map_of(self.entries()),
            self@.dom().finite(),
    {
        proof {
            use_type_invariant(self);
            lemma_map_of_len(self.entries());
        }
        self.entries.len()
    }

    /// Whether the map has no entries.
    pub fn is_empty(&self) -> (empty: bool)
        ensures
            empty == (self@.len() == 0),
            empty == (self.entries().len() == 0),
    {
        self.len() == 0
    }

    /// The key of the entry at position `i`.
    pub fn key_at(&self, i: usize) -> (key: &K)
        requires
            i < self.entries().len(),
        ensures
            key.ident() == self.entries()[i as int].0,
            self@.contains_key(key.ident()),
    {
        proof {
            use_type_invariant(self);
            lemma_map_of_entry(self.entries(), i as int);
        }
        &self.entries[i].0
    }

    /// The value of the entry at position `i`.
    pub fn value_at(&self, i: usize) -> (value: &V)
        requires
            i < self.entries().len(),
        ensures
            *value == self.entries()[i as int].1,
            *value == self@[self.entries()[i as int].0],
            decreases_to!(self => *value),
    {
        proof {
            use_type_invariant(self);
            lemma_map_of_entry(self.entries(), i as int);
            self.lemma_value_decreases(self.entries()[i as int].0);
        }
        &self.entries[i].1
    }

    /// The position of the entry with the key `key`, if there is one.
    fn find(&self, key: &K) -> (found: Option<usize>)
        ensures
            match found {
                Some(i) => i < self.entries().len() && self.entries()[i as int].0 == key.ident(),
                None => !has_key(self.entries(), key.ident()),
            },
    {
        let mut i: usize = 0;
        while i < self.entries.len()
            invariant
                i <= self.entries.len(),
                self.entries().len() == self.entries.len(),
                forall|j: int| 0 <= j < i ==> (#[trigger] self.entries()[j]).0 != key.ident(),
            decreases self.entries.len() - i,
        {
            if self.entries[i].0.same_key(key) {
                return Some(i);
            }
            i += 1;
        }
        None
    }

    /// Whether the map has an entry for `key`.
    pub fn contains_key(&self, key: &K) -> (found: bool)
        ensures
            found == self@.contains_key(key.ident()),
    {
        self.find(key).is_some()
    }

    /// The value that the map holds for `key`, if it holds one.
    pub fn get(&self, key: &K) -> (value: Option<&V>)
        ensures
            match value {
                Some(v) => self@.contains_key(key.ident()) && *v == self@[key.ident()],
                None => !self@.contains_key(key.ident()),
            },
    {
        match self.find(key) {
            Some(i) => {
                proof {
                    use_type_invariant(self);
                    lemma_map_of_entry(self.entries(), i as int);
                }
                Some(&self.entries[i].1)
            },
            None => None,
        }
    }

    /// Sets the value for `key`, and returns the value that the map held for it before.
    pub fn insert(&mut self, key: K, value: V) -> (previous: Option<V>)
        ensures
            final(self)@ == old(self)@.insert(key.ident(), value),
            match previous {
                Some(v) => old(self)@.contains_key(key.ident()) && v == old(self)@[key.ident()],
                None => !old(self)@.contains_key(key.ident()),
            },
    {
        proof {
            use_type_invariant(&*self);
        }
        let ghost before = self.entries();
        let found = self.find(&key);
        let mut taken = OrderedMap { entries: Vec::new() };
        std::mem::swap(self, &mut taken);
        let OrderedMap { entries: mut list } = taken;
        let ghost ident = key.ident();
        let previous = match found {
            Some(i) => {
                proof {
                    lemma_map_of_entry(before, i as int);
                    lemma_map_of_update(before, i as int, value);
                }
                let mut slot = (key, value);
                std::mem::swap(&mut list[i], &mut slot);
                Some(slot.1)
            },
            None => {
                proof {
                    lemma_map_of_push(before, ident, value);
                }
                list.push((key, value));
                None
            },
        };
        let ghost after = list@.map_values(|e: (K, V)| (e.0.ident(), e.1));
        proof {
            match found {
                Some(i) => {
                    assert(after =~= before.update(i as int, (ident, value)));
                },
                None => {
                    assert(after =~= before.push((ident, value)));
                },
            }
        }
        *self = OrderedMap { entries: list };
        previous
    }
}

impl<K: MapKey, V> Default for OrderedMap<K, V> {
    /// A map without entries.
    fn default() -> (map: Self)
        ensures
            map@ == Map::<K::Ident, V>::empty(),
    {
        OrderedMap::new()
    }
}

impl<K: MapKey, V: Counter> Clone for OrderedMap<K, V> {
    /// A map with the same entries, in the same order.
    fn clone(&self) -> (copy: Self)
        ensures
            copy@ == self@,
            copy.entries() == self.entries(),
    {
        proof {
            use_type_invariant(self);
        }
        let mut list: Vec<(K, V)> = Vec::new();
        let mut i: usize = 0;
        while i < self.entries.len()
            invariant
                i <= self.entries.len(),
                list.len() == i,
                forall|j: int|
                    0 <= j < i ==> (#[trigger] list[j]).0.ident() == self.entries[j].0.ident()
                        && list[j].1 == self.entries[j].1,
            decreases self.entries.len() - i,
        {
            let key = self.entries[i].0.clone_key();
            let value = self.entries[i].1.clone_counter();
            list.push((key, value));
            i += 1;
        }
        assert(list@.map_values(|e: (K, V)| (e.0.ident(), e.1)) =~= self.entries());
        OrderedMap { entries: list }
    }
}

impl<K: MapKey, V: Counter> PartialEq for OrderedMap<K, V> {
    /// Whether the two maps have the same entries, in whatever order they keep them.
    fn eq(&self, other: &Self) -> (same: bool) {
        let n = self.len();
        if n != other.len() {
            return false;
        }
        let ghost mine = self.entries();
        let mut i: usize = 0;
        while i < n
            invariant
                i <= n,
                n == mine.len(),
                mine == self.entries(),
                distinct_keys(mine),
                self@ == map_of(mine),
                self@.dom().finite(),
                other@.dom().finite(),
                self@.len() == other@.len(),
                forall|j: int|
                    0 <= j < i ==> other@.contains_key((#[trigger] mine[j]).0) && other@[mine[j].0]
                        == mine[j].1,
            decreases n - i,
        {
            let key = self.key_at(i);
            let value = self.value_at(i);
            proof {
                lemma_map_of_entry(mine, i as int);
            }
            match other.get(key) {
                Some(found) => {
                    if !value.same_counter(found) {
                        return false;
                    }
                },
                None => {
                    return false;
                },
            }
            i += 1;
        }
        proof {
            assert forall|key: K::Ident| self@.contains_key(key) implies other@.contains_key(key)
                && other@[key] == self@[key] by {
                let p = position_of(mine, key);
                lemma_map_of_entry(mine, p);
            }
            vstd::set_lib::lemma_subset_equality(self@.dom(), other@.dom());
            assert(self@ =~= other@);
        }
        true
    }
}

impl<K: MapKey, V: Counter> PartialEqSpecImpl for OrderedMap<K, V> {
    open spec fn obeys_eq_spec() -> bool {
        true
    }

    open spec fn eq_spec(&self, other: &Self) -> bool {
        self@ == other@
    }
}

impl<K: MapKey, V: Counter> Eq for OrderedMap<K, V> {}

impl<K: MapKey, V: Counter> OrderedMap<K, V> {
    /// Whether `other` can be merged into this map: whether, for each key that both maps
    /// have, the sum of the two values can be represented.
    pub fn can_merge(&self, other: &Self) -> (fits: bool)
        ensures
            fits == mergeable(self@, other@),
    {
        let n = other.len();
        let ghost theirs = other.entries();
        let mut i: usize = 0;
        while i < n
            invariant
                i <= n,
                n == theirs.len(),
                theirs == other.entries(),
                distinct_keys(theirs),
                other@ == map_of(theirs),
                forall|j: int|
                    0 <= j < i && self@.contains_key((#[trigger] theirs[j]).0) ==> self@[theirs[j].0].fits(
                        &theirs[j].1,
                    ),
            decreases n - i,
        {
            let key = other.key_at(i);
            let value = other.value_at(i);
            proof {
                lemma_map_of_entry(theirs, i as int);
            }
            match self.get(key) {
                Some(current) => {
                    if !current.can_add(value) {
                        return false;
                    }
                },
                None => {},
            }
            i += 1;
        }
        proof {
            assert forall|key: K::Ident|
                self@.contains_key(key) && other@.contains_key(key) implies (#[trigger] self@[key]).fits(
                &other@[key],
            ) by {
                let p = position_of(theirs, key);
                lemma_map_of_entry(theirs, p);
            }
        }
        true
    }

    /// Adds each entry of `other` to this map: to the value that this map holds for the
    /// key, or as a new entry where it holds none.
    pub fn merge_from(&mut self, other: &Self)
        requires
            mergeable(old(self)@, other@),
        ensures
            final(self)@ == merged(old(self)@, other@),
    {
        let n = other.len();
        let ghost theirs = other.entries();
        let ghost mine = self@;
        let mut i: usize = 0;
        while i < n
            invariant
                i <= n,
                n == theirs.len(),
                theirs == other.entries(),
                distinct_keys(theirs),
                other@ == map_of(theirs),
                mergeable(mine, other@),
                self@ == merged(mine, map_of(theirs.take(i as int))),
            decreases n - i,
        {
            let key = other.key_at(i);
            let value = other.value_at(i);
            let ghost ident = key.ident();
            proof {
                lemma_map_of_take_next(theirs, i as int);
                lemma_map_of_entry(theirs, i as int);
            }
            let total = match self.get(key) {
                Some(current) => {
                    current.add_counter(value)
                },
                None => value.clone_counter(),
            };
            self.insert(key.clone_key(), total);
            i += 1;
        }
        assert(theirs.take(n as int) =~= theirs);
    }

    /// Takes each entry of `other` from the entry of this map with the same key, where
    /// there is one, and drops every entry of this map of which nothing is left.
    pub fn subtract(&mut self, other: &Self)
        ensures
            final(self)@ == subtracted(old(self)@, other@),
    {
        let n = self.len();
        let ghost mine = self.entries();
        let mut kept: OrderedMap<K, V> = OrderedMap::new();
        let mut i: usize = 0;
        while i < n
            invariant
                i <= n,
                n == mine.len(),
                mine == self.entries(),
                distinct_keys(mine),
                self@ == map_of(mine),
                kept@ == subtracted(map_of(mine.take(i as int)), other@),
            decreases n - i,
        {
            let key = self.key_at(i);
            let value = self.value_at(i);
            let ghost ident = key.ident();
            proof {
                lemma_map_of_take_next(mine, i as int);
            }
            let left = match other.get(key) {
                Some(taken) => value.sub_counter(taken),
                None => value.clone_counter(),
            };
            if !left.spent() {
                kept.insert(key.clone_key(), left);
            }
            i += 1;
        }
        assert(mine.take(n as int) =~= mine);
        *self = kept;
    }
}

/// The first `i + 1` entries of a list with distinct keys stand for the map of the first
/// `i` entries with the entry at position `i` added, whose key that map does not have.
proof fn lemma_map_of_take_next<I, V>(entries: Seq<(I, V)>, i: int)
    requires
        distinct_keys(entries),
        0 <= i < entries.len(),
    ensures
        distinct_keys(entries.take(i)),
        !map_of(entries.take(i)).contains_key(entries[i].0),
        map_of(entries.take(i + 1)) == map_of(entries.take(i)).insert(
            entries[i].0,
            entries[i].1,
        ),
{
    let front = entries.take(i);
    assert(distinct_keys(front));
    assert(!has_key(front, entries[i].0));
    lemma_map_of_push(front, entries[i].0, entries[i].1);
    assert(front.push((entries[i].0, entries[i].1)) =~= entries.take(i + 1));
}

/// Replacing the value of one entry replaces it in the map.
proof fn lemma_map_of_update<I, V>(entries: Seq<(I, V)>, i: int, value: V)
    requires
        distinct_keys(entries),
        0 <= i < entries.len(),
    ensures
        distinct_keys(entries.update(i, (entries[i].0, value))),
        map_of(entries.update(i, (entries[i].0, value))) == map_of(entries).insert(
            entries[i].0,
            value,
        ),
{
    let key = entries[i].0;
    let after = entries.update(i, (key, value));
    assert(distinct_keys(after));
    assert forall|k: I| has_key(after, k) <==> #[trigger] has_key(entries, k) by {
        if has_key(entries, k) {
            assert(after[position_of(entries, k)].0 == k);
        }
        if has_key(after, k) {
            assert(entries[position_of(after, k)].0 == k);
        }
    }
    assert forall|k: I| has_key(after, k) implies #[trigger] map_of(after)[k] == map_of(
        entries,
    ).insert(key, value)[k] by {
        let p = position_of(after, k);
        lemma_map_of_entry(after, p);
        lemma_map_of_entry(entries, p);
        if k == key {
            lemma_map_of_entry(after, i);
        }
    }
    lemma_map_of_entry(entries, i);
}

/// Appending an entry with a new key adds it to the map.
proof fn lemma_map_of_push<I, V>(entries: Seq<(I, V)>, key: I, value: V)
    requires
        distinct_keys(entries),
        !has_key(entries, key),
    ensures
        distinct_keys(entries.push((key, value))),
        map_of(entries.push((key, value))) == map_of(entries).insert(key, value),
{
    let after = entries.push((key, value));
    assert(distinct_keys(after)) by {
        assert forall|a: int, b: int| 0 <= a < b < after.len() implies (#[trigger] after[a]).0 != (
        #[trigger] after[b]).0 by {
            if b < entries.len() {
                assert(entries[a].0 != entries[b].0);
            } else {
                assert(entries[a].0 != key);
            }
        }
    }
    assert forall|k: I| has_key(after, k) <==> (#[trigger] has_key(entries, k) || k == key) by {
        if has_key(entries, k) {
            assert(after[position_of(entries, k)].0 == k);
        }
        if k == key {
            assert(after[entries.len() as int].0 == k);
        }
        if has_key(after, k) {
            let p = position_of(after, k);
            assert(p < entries.len() ==> entries[p].0 == k);
        }
    }
    assert forall|k: I| has_key(after, k) implies #[trigger] map_of(after)[k] == map_of(
        entries,
    ).insert(key, value)[k] by {
        let p = position_of(after, k);
        lemma_map_of_entry(after, p);
        if p < entries.len() {
            lemma_map_of_entry(entries, p);
        }
    }
}

/// A list of entries with distinct keys stands for a finite map with as many entries.
proof fn lemma_map_of_len<I, V>(entries: Seq<(I, V)>)
    requires
        distinct_keys(entries),
    ensures
        map_of(entries).dom().finite(),
        map_of(entries).len() == entries.len(),
    decreases entries.len(),
{
    if entries.len() == 0 {
        assert(map_of(entries) =~= Map::<I, V>::empty());
    } else {
        let front = entries.drop_last();
        let last = entries.last();
        assert(distinct_keys(front));
        assert(!has_key(front, last.0));
        lemma_map_of_len(front);
        lemma_map_of_push(front, last.0, last.1);
        assert(front.push((last.0, last.1)) =~= entries);
    }
}

} // verus!
