//! How values are read from and written as structural values, shape by shape.
use crate::annotations::decimal::{
    bounded_decimal_value, decimal, decimal_value, lemma_decimal_of_value,
    lemma_decimal_value_of_decimal, parse_decimal, to_decimal,
};
use crate::annotations::json::{items_view, members_view, Json, JsonNumber, JsonValue};
use crate::ordered_map::{distinct_keys, lemma_map_of_entry, map_of, position_of, OrderedMap};
use std::collections::HashMap;
use std::hash::Hash;
use vstd::prelude::*;
use vstd::std_specs::hash::obeys_key_model;

verus! {

/// The shape that a part of a structural value was expected to have where the value was
/// read, and has not.
#[derive(Clone, Copy, Debug, PartialEq, Eq)]
pub enum Shape {
    /// An unsigned integer that is at most the given number.
    Unsigned(u64),
    /// A string.
    Text,
    /// An array.
    List,
    /// An array of two items.
    Pair,
    /// An object.
    Object,
    /// An object with the given number of members.
    Members(usize),
    /// A member of an object: the object has no member of the name that the path ends in.
    Member,
    /// A member that is named by the decimal notation of a number that is at most the
    /// given number: the name that the path ends in is no such name.
    Key(u64),
}

impl Shape {
    /// The part `part` has the shape. Of a member and of a key this says nothing: what is
    /// wrong with them is their name.
    pub open spec fn fits(self, part: Json) -> bool {
        match self {
            Shape::Unsigned(limit) => part.as_unsigned() matches Some(n) && n <= limit,
            Shape::Text => part is String,
            Shape::List => part is Array,
            Shape::Pair => part matches Json::Array(items) && items.len() == 2,
            Shape::Object => part is Object,
            Shape::Members(count) => part matches Json::Object(members) && members.dom().finite()
                && members.len() == count,
            Shape::Member => true,
            Shape::Key(limit) => true,
        }
    }
}

/// The part of `value` that `path` leads to: each step of the path is the name of a member
/// of an object, or the decimal notation of the position of an item of an array.
pub open spec fn at_path(value: Json, path: Seq<Seq<char>>) -> Option<Json>
    decreases path.len(),
{
    if path.len() == 0 {
        Some(value)
    } else {
        match value {
            Json::Object(members) => if members.contains_key(path[0]) {
                at_path(members[path[0]], path.skip(1))
            } else {
                None
            },
            Json::Array(items) => match decimal_value(path[0]) {
                Some(position) => if position < items.len() {
                    at_path(items[position as int], path.skip(1))
                } else {
                    None
                },
                None => None,
            },
            _ => None,
        }
    }
}

/// The path and the expected shape say what is wrong with `value`: the path leads to a
/// part of the value that has not the expected shape; or, for a member, to an object that
/// has no member of the name that the path ends in; or, for a key, to a member whose name
/// is no key.
pub open spec fn explains(value: Json, path: Seq<Seq<char>>, expected: Shape) -> bool {
    match expected {
        Shape::Member => path.len() > 0 && (at_path(value, path.drop_last()) matches Some(
            Json::Object(members),
        ) && !members.contains_key(path.last())),
        Shape::Key(limit) => path.len() > 0 && at_path(value, path) is Some
            && bounded_decimal_value(path.last(), limit as nat) is None,
        _ => at_path(value, path) matches Some(part) && !expected.fits(part),
    }
}

/// What explains a member of an object explains the object, on the path that goes through
/// the member's name.
pub proof fn lemma_explains_member(
    value: Json,
    name: Seq<char>,
    path: Seq<Seq<char>>,
    expected: Shape,
)
    requires
        value matches Json::Object(members) && members.contains_key(name) && explains(
            members[name],
            path,
            expected,
        ),
    ensures
        explains(value, seq![name] + path, expected),
{
    let longer = seq![name] + path;
    assert(longer.skip(1) =~= path);
    if path.len() > 0 {
        assert(longer.drop_last() =~= seq![name] + path.drop_last());
        assert((seq![name] + path.drop_last()).skip(1) =~= path.drop_last());
    }
}

/// What explains an item of an array explains the array, on the path that goes through the
/// item's position.
pub proof fn lemma_explains_item(
    value: Json,
    position: nat,
    path: Seq<Seq<char>>,
    expected: Shape,
)
    requires
        value matches Json::Array(items) && position < items.len() && explains(
            items[position as int],
            path,
            expected,
        ),
    ensures
        explains(value, seq![decimal(position)] + path, expected),
{
    lemma_decimal_value_of_decimal(position);
    let longer = seq![decimal(position)] + path;
    assert(longer.skip(1) =~= path);
    if path.len() > 0 {
        assert(longer.drop_last() =~= seq![decimal(position)] + path.drop_last());
        assert((seq![decimal(position)] + path.drop_last()).skip(1) =~= path.drop_last());
    }
}

/// Why a structural value could not be read: where in the value the shape fails, and which
/// shape was expected there.
#[derive(Clone, Debug, PartialEq, Eq)]
pub struct Mismatch {
    /// The steps from the value to the part that has not the expected shape.
    pub path: Vec<String>,
    pub expected: Shape,
}

/// The steps of a path, each as its text.
pub open spec fn steps(path: Seq<String>) -> Seq<Seq<char>> {
    Seq::new(path.len(), |i: int| path[i]@)
}

impl Mismatch {
    /// The mismatch says what is wrong with `value`.
    pub open spec fn explains(self, value: Json) -> bool {
        explains(value, steps(self.path@), self.expected)
    }

    /// The mismatch of a value that has not the expected shape itself.
    pub fn here(expected: Shape) -> (mismatch: Mismatch)
        ensures
            mismatch.path@.len() == 0,
            mismatch.expected == expected,
    {
        Mismatch { path: Vec::new(), expected }
    }

    /// The mismatch of an object that has no member of the name `name`.
    pub fn missing(name: &str) -> (mismatch: Mismatch)
        ensures
            steps(mismatch.path@) == seq![name@],
            mismatch.expected == Shape::Member,
    {
        let mut path: Vec<String> = Vec::new();
        path.push(String::from_str(name));
        assert(steps(path@) =~= seq![name@]);
        Mismatch { path, expected: Shape::Member }
    }

    /// The mismatch of a value whose part under the step `step` has the mismatch `self`.
    pub fn under(self, step: String) -> (mismatch: Mismatch)
        ensures
            steps(mismatch.path@) == seq![step@] + steps(self.path@),
            mismatch.expected == self.expected,
    {
        let mut path = self.path;
        path.insert(0, step);
        assert(steps(path@) =~= seq![step@] + steps(self.path@));
        Mismatch { path, expected: self.expected }
    }
}

/// A type whose values have one shape as structural values.
///
/// Shapes are read strictly, so that what is read can be written back as it was: a number
/// is an unsigned integer, a list an array, a map an object whose members are named by
/// decimal numbers, a pair an array of two, and a record an object with exactly the members
/// of the record. A member that the record does not name is a mismatch, and so is a record
/// written as an array of its members.
pub trait Schema: Sized {
    /// What a value of the type means.
    type Model;

    spec fn model(&self) -> Self::Model;

    /// What a structural value of the type's shape decodes to, and `None` for a value of
    /// any other shape.
    spec fn decoded(value: Json) -> Option<Self::Model>;

    /// The structural value that stands for a value of the type.
    spec fn encoded(model: Self::Model) -> Json;

    /// Reads a value of the type from a structural value, if the value has the type's shape;
    /// if not, says where in the value the shape fails and which shape was expected there.
    fn deserialize(value: &JsonValue) -> (read: Result<Self, Mismatch>)
        ensures
            match read {
                Ok(x) => Self::decoded(value@) == Some(x.model()),
                Err(mismatch) => Self::decoded(value@) is None && mismatch.explains(value@),
            },
    ;

    /// Writes the value as a structural value.
    fn serialize(&self) -> (value: JsonValue)
        ensures
            value@ == Self::encoded(self.model()),
    ;

    /// Writing what was read from a structural value gives that structural value again.
    proof fn lemma_encoded_decoded(value: Json)
        requires
            Self::decoded(value) is Some,
        ensures
            Self::encoded(Self::decoded(value)->0) == value,
    ;

    /// Reading what was written gives what was written again.
    proof fn lemma_decoded_encoded(model: Self::Model)
        ensures
            Self::decoded(Self::encoded(model)) == Some(model),
    ;
}

impl Schema for u64 {
    type Model = u64;

    open spec fn model(&self) -> u64 {
        *self
    }

    open spec fn decoded(value: Json) -> Option<u64> {
        value.as_unsigned()
    }

    open spec fn encoded(model: u64) -> Json {
        Json::Number(JsonNumber::PosInt(model))
    }

    fn deserialize(value: &JsonValue) -> (read: Result<Self, Mismatch>) {
        match value.as_u64() {
            Some(n) => Ok(n),
            None => Err(Mismatch::here(Shape::Unsigned(u64::MAX))),
        }
    }

    fn serialize(&self) -> (value: JsonValue) {
        JsonValue::Number(JsonNumber::PosInt(*self))
    }

    proof fn lemma_encoded_decoded(value: Json) {
    }

    proof fn lemma_decoded_encoded(model: u64) {
    }
}

impl Schema for usize {
    type Model = usize;

    open spec fn model(&self) -> usize {
        *self
    }

    open spec fn decoded(value: Json) -> Option<usize> {
        match value.as_unsigned() {
            Some(n) => if n <= usize::MAX {
                Some(n as usize)
            } else {
                None
            },
            None => None,
        }
    }

    open spec fn encoded(model: usize) -> Json {
        Json::Number(JsonNumber::PosInt(model as u64))
    }

    fn deserialize(value: &JsonValue) -> (read: Result<Self, Mismatch>) {
        match value.as_u64() {
            Some(n) => if n <= usize::MAX as u64 {
                Ok(n as usize)
            } else {
                Err(Mismatch::here(Shape::Unsigned(usize::MAX as u64)))
            },
            None => Err(Mismatch::here(Shape::Unsigned(usize::MAX as u64))),
        }
    }

    fn serialize(&self) -> (value: JsonValue) {
        JsonValue::Number(JsonNumber::PosInt(*self as u64))
    }

    proof fn lemma_encoded_decoded(value: Json) {
    }

    proof fn lemma_decoded_encoded(model: usize) {
    }
}

impl Schema for String {
    type Model = Seq<char>;

    open spec fn model(&self) -> Seq<char> {
        self@
    }

    open spec fn decoded(value: Json) -> Option<Seq<char>> {
        value.as_text()
    }

    open spec fn encoded(model: Seq<char>) -> Json {
        Json::String(model)
    }

    fn deserialize(value: &JsonValue) -> (read: Result<Self, Mismatch>) {
        match value.as_string() {
            Some(text) => Ok(text.clone()),
            None => Err(Mismatch::here(Shape::Text)),
        }
    }

    fn serialize(&self) -> (value: JsonValue) {
        JsonValue::String(self.clone())
    }

    proof fn lemma_encoded_decoded(value: Json) {
    }

    proof fn lemma_decoded_encoded(model: Seq<char>) {
    }
}

/// Every item of `items` has the shape of `T`.
pub open spec fn all_decode<T: Schema>(items: Seq<Json>) -> bool {
    forall|i: int| 0 <= i < items.len() ==> (#[trigger] T::decoded(items[i])) is Some
}

impl<T: Schema> Schema for Vec<T> {
    type Model = Seq<T::Model>;

    open spec fn model(&self) -> Seq<T::Model> {
        Seq::new(self@.len(), |i: int| self@[i].model())
    }

    open spec fn decoded(value: Json) -> Option<Seq<T::Model>> {
        match value {
            Json::Array(items) => if all_decode::<T>(items) {
                Some(Seq::new(items.len(), |i: int| T::decoded(items[i])->0))
            } else {
                None
            },
            _ => None,
        }
    }

    open spec fn encoded(model: Seq<T::Model>) -> Json {
        Json::Array(Seq::new(model.len(), |i: int| T::encoded(model[i])))
    }

    fn deserialize(value: &JsonValue) -> (read: Result<Self, Mismatch>) {
        let items = match value.as_array() {
            Some(items) => items,
            None => {
                return Err(Mismatch::here(Shape::List));
            },
        };
        let ghost given = items_view(items@);
        let mut list: Vec<T> = Vec::new();
        let mut i: usize = 0;
        while i < items.len()
            invariant
                i <= items.len(),
                list.len() == i,
                given == items_view(items@),
                value@ == Json::Array(given),
                forall|j: int|
                    0 <= j < i ==> (#[trigger] T::decoded(given[j])) == Some(list@[j].model()),
            decreases items.len() - i,
        {
            match T::deserialize(&items[i]) {
                Ok(item) => {
                    list.push(item);
                },
                Err(mismatch) => {
                    assert(T::decoded(given[i as int]) is None);
                    return Err(under_item(value, i, mismatch));
                },
            }
            i += 1;
        }
        Ok(list)
    }

    fn serialize(&self) -> (value: JsonValue) {
        let mut items: Vec<JsonValue> = Vec::new();
        let mut i: usize = 0;
        while i < self.len()
            invariant
                i <= self.len(),
                items.len() == i,
                forall|j: int| 0 <= j < i ==> (#[trigger] items@[j])@ == T::encoded(self@[j].model()),
            decreases self.len() - i,
        {
            items.push(self[i].serialize());
            i += 1;
        }
        assert(items_view(items@) =~= Self::encoded(self.model())->Array_0);
        JsonValue::array(items)
    }

    proof fn lemma_encoded_decoded(value: Json) {
        let items = value->Array_0;
        let model = Self::decoded(value)->0;
        assert forall|i: int| 0 <= i < items.len() implies T::encoded(model[i]) == items[i] by {
            T::lemma_encoded_decoded(items[i]);
        }
        assert(Self::encoded(model)->Array_0 =~= items);
    }

    proof fn lemma_decoded_encoded(model: Seq<T::Model>) {
        let items = Self::encoded(model)->Array_0;
        assert forall|i: int| 0 <= i < items.len() implies (#[trigger] T::decoded(items[i]))
            == Some(model[i]) by {
            T::lemma_decoded_encoded(model[i]);
        }
    }
}

/// An integer type whose values name the members of an object, each by its decimal
/// notation.
pub trait DecimalKey: Sized + Copy + Eq + Hash {
    /// The greatest number that the type holds.
    spec fn limit() -> nat;

    spec fn as_nat(self) -> nat;

    spec fn of_nat(n: nat) -> Self;

    /// The values of the type are the numbers up to the limit, and they can key a hash map.
    proof fn lemma_key_laws()
        ensures
            obeys_key_model::<Self>(),
            Self::limit() <= u64::MAX,
            forall|k: Self| #[trigger] k.as_nat() <= Self::limit() && Self::of_nat(k.as_nat()) == k,
            forall|n: nat| n <= Self::limit() ==> (#[trigger] Self::of_nat(n)).as_nat() == n,
    ;

    fn from_u64(n: u64) -> (key: Option<Self>)
        ensures
            match key {
                Some(k) => n <= Self::limit() && k == Self::of_nat(n as nat),
                None => n > Self::limit(),
            },
    ;

    fn to_u64(self) -> (n: u64)
        ensures
            n == self.as_nat(),
    ;

    fn max_key() -> (n: u64)
        ensures
            n == Self::limit(),
    ;
}

impl DecimalKey for u64 {
    open spec fn limit() -> nat {
        u64::MAX as nat
    }

    open spec fn as_nat(self) -> nat {
        self as nat
    }

    open spec fn of_nat(n: nat) -> u64 {
        n as u64
    }

    proof fn lemma_key_laws() {
        broadcast use vstd::std_specs::hash::group_hash_axioms;

    }

    fn from_u64(n: u64) -> (key: Option<Self>) {
        Some(n)
    }

    fn to_u64(self) -> (n: u64) {
        self
    }

    fn max_key() -> (n: u64) {
        u64::MAX
    }
}

impl DecimalKey for usize {
    open spec fn limit() -> nat {
        usize::MAX as nat
    }

    open spec fn as_nat(self) -> nat {
        self as nat
    }

    open spec fn of_nat(n: nat) -> usize {
        n as usize
    }

    proof fn lemma_key_laws() {
        broadcast use vstd::std_specs::hash::group_hash_axioms;

    }

    fn from_u64(n: u64) -> (key: Option<Self>) {
        if n <= usize::MAX as u64 {
            Some(n as usize)
        } else {
            None
        }
    }

    fn to_u64(self) -> (n: u64) {
        self as u64
    }

    fn max_key() -> (n: u64) {
        usize::MAX as u64
    }
}

/// The name that the key `key` has as a member of an object.
pub open spec fn key_name<K: DecimalKey>(key: K) -> Seq<char> {
    decimal(key.as_nat())
}

/// The key that the member name `name` stands for, if it stands for one.
pub open spec fn name_key<K: DecimalKey>(name: Seq<char>) -> Option<K> {
    match bounded_decimal_value(name, K::limit()) {
        Some(n) => Some(K::of_nat(n)),
        None => None,
    }
}

/// A key is the key that its name stands for, and a name that stands for a key is the name
/// of that key.
pub proof fn lemma_key_names<K: DecimalKey>()
    ensures
        forall|key: K| name_key::<K>(#[trigger] key_name(key)) == Some(key),
        forall|name: Seq<char>|
            (#[trigger] name_key::<K>(name)) is Some ==> key_name(name_key::<K>(name)->0) == name,
{
    K::lemma_key_laws();
    assert forall|key: K| name_key::<K>(#[trigger] key_name(key)) == Some(key) by {
        lemma_decimal_value_of_decimal(key.as_nat());
    }
    assert forall|name: Seq<char>| (#[trigger] name_key::<K>(name)) is Some implies key_name(
        name_key::<K>(name)->0,
    ) == name by {
        lemma_decimal_of_value(name);
    }
}

/// Every member of `members` is named by a key of `K` and has the shape of `T`.
pub open spec fn all_members_decode<K: DecimalKey, T: Schema>(
    members: Map<Seq<char>, Json>,
) -> bool {
    forall|name: Seq<char>| #[trigger]
        members.contains_key(name) ==> name_key::<K>(name) is Some && T::decoded(members[name])
            is Some
}

impl<K: DecimalKey, T: Schema> Schema for HashMap<K, T> {
    type Model = Map<K, T::Model>;

    open spec fn model(&self) -> Map<K, T::Model> {
        Map::new(|key: K| self@.contains_key(key), |key: K| self@[key].model())
    }

    open spec fn decoded(value: Json) -> Option<Map<K, T::Model>> {
        match value {
            Json::Object(members) => if all_members_decode::<K, T>(members) {
                Some(
                    Map::new(
                        |key: K| members.contains_key(key_name(key)),
                        |key: K| T::decoded(members[key_name(key)])->0,
                    ),
                )
            } else {
                None
            },
            _ => None,
        }
    }

    open spec fn encoded(model: Map<K, T::Model>) -> Json {
        Json::Object(
            Map::new(
                |name: Seq<char>| name_key::<K>(name) is Some && model.contains_key(
                    name_key::<K>(name)->0,
                ),
                |name: Seq<char>| T::encoded(model[name_key::<K>(name)->0]),
            ),
        )
    }

    fn deserialize(value: &JsonValue) -> (read: Result<Self, Mismatch>) {
        let members = match value.as_object() {
            Some(members) => members,
            None => {
                return Err(Mismatch::here(Shape::Object));
            },
        };
        proof {
            K::lemma_key_laws();
            lemma_key_names::<K>();
        }
        let n = members.len();
        let ghost entries = members.entries();
        let ghost given = members_view(members@);
        let mut map: HashMap<K, T> = HashMap::new();
        let mut i: usize = 0;
        while i < n
            invariant
                i <= n,
                n == entries.len(),
                entries == members.entries(),
                distinct_keys(entries),
                members@ == map_of(entries),
                given == members_view(members@),
                value@ == Json::Object(given),
                obeys_key_model::<K>(),
                K::limit() <= u64::MAX,
                forall|key: K| name_key::<K>(#[trigger] key_name(key)) == Some(key),
                forall|name: Seq<char>|
                    (#[trigger] name_key::<K>(name)) is Some ==> key_name(name_key::<K>(name)->0)
                        == name,
                forall|j: int|
                    0 <= j < i ==> name_key::<K>((#[trigger] entries[j]).0) is Some && T::decoded(
                        entries[j].1@,
                    ) is Some,
                forall|key: K| #[trigger]
                    map@.contains_key(key) <==> exists|j: int|
                        0 <= j < i && (#[trigger] entries[j]).0 == key_name(key),
                forall|j: int|
                    0 <= j < i ==> map@[name_key::<K>((#[trigger] entries[j]).0)->0].model()
                        == T::decoded(entries[j].1@)->0,
            decreases n - i,
        {
            broadcast use vstd::std_specs::hash::group_hash_axioms;

            let name = members.key_at(i);
            let item = members.value_at(i);
            proof {
                lemma_map_of_entry(entries, i as int);
                assert(given.contains_key(entries[i as int].0));
            }
            let key = match parse_decimal(name.as_str()) {
                Some(number) => match K::from_u64(number) {
                    Some(key) => key,
                    None => {
                        return Err(key_mismatch(value, name, K::max_key()));
                    },
                },
                None => {
                    return Err(key_mismatch(value, name, K::max_key()));
                },
            };
            let x = match T::deserialize(item) {
                Ok(x) => x,
                Err(mismatch) => {
                    return Err(under_member(value, name.as_str(), mismatch));
                },
            };
            assert forall|j: int| 0 <= j < i implies name_key::<K>((#[trigger] entries[j]).0)->0
                != key by {
                assert(entries[j].0 != entries[i as int].0);
            }
            map.insert(key, x);
            i += 1;
        }
        proof {
            assert forall|name: Seq<char>| #[trigger] given.contains_key(name) implies name_key::<
                K,
            >(name) is Some && T::decoded(given[name]) is Some by {
                let p = position_of(entries, name);
                lemma_map_of_entry(entries, p);
            }
            let expected = Self::decoded(value@)->0;
            assert forall|key: K| map.model().contains_key(key) <==> expected.contains_key(
                key,
            ) by {
                if expected.contains_key(key) {
                    let p = position_of(entries, key_name(key));
                }
            }
            assert forall|key: K| map.model().contains_key(key) implies map.model()[key]
                == expected[key] by {
                let j = choose|j: int| 0 <= j < n && (#[trigger] entries[j]).0 == key_name(key);
                lemma_map_of_entry(entries, j);
            }
        }
        Ok(map)
    }

    fn serialize(&self) -> (value: JsonValue) {
        broadcast use vstd::std_specs::hash::group_hash_axioms;

        proof {
            K::lemma_key_laws();
            lemma_key_names::<K>();
        }
        let mut members: OrderedMap<String, JsonValue> = OrderedMap::new();
        for pair in it: self.iter()
            invariant
                obeys_key_model::<K>(),
                forall|key: K| name_key::<K>(#[trigger] key_name(key)) == Some(key),
                forall|name: Seq<char>|
                    (#[trigger] name_key::<K>(name)) is Some ==> key_name(name_key::<K>(name)->0)
                        == name,
                it.seq().no_duplicates(),
                forall|j: int|
                    0 <= j < it.seq().len() ==> self@.contains_key(*(#[trigger] it.seq()[j]).0)
                        && self@[*it.seq()[j].0] == *it.seq()[j].1,
                forall|key: K| #[trigger]
                    self@.contains_key(key) ==> it.seq().contains((&key, &self@[key])),
                forall|name: Seq<char>| #[trigger]
                    members@.contains_key(name) <==> exists|j: int|
                        0 <= j < it.index() && key_name(*(#[trigger] it.seq()[j]).0) == name,
                forall|j: int|
                    0 <= j < it.index() ==> members@[key_name(*(#[trigger] it.seq()[j]).0)]@
                        == T::encoded((*it.seq()[j].1).model()),
        {
            let (key, item) = pair;
            assert forall|j: int| 0 <= j < it.index() implies key_name(
                *(#[trigger] it.seq()[j]).0,
            ) != key_name(*key) by {
                if key_name(*it.seq()[j].0) == key_name(*key) {
                    assert(name_key::<K>(key_name(*it.seq()[j].0)) == Some(*it.seq()[j].0));
                    assert(it.seq()[j] == it.seq()[it.index() as int]);
                }
            }
            members.insert(to_decimal(key.to_u64()), item.serialize());
        }
        proof {
            let expected = Self::encoded(self.model())->Object_0;
            let written = members_view(members@);
            assert forall|name: Seq<char>| written.contains_key(name) <==> expected.contains_key(
                name,
            ) by {
            }
            assert(written =~= expected);
        }
        JsonValue::object(members)
    }

    proof fn lemma_encoded_decoded(value: Json) {
        lemma_key_names::<K>();
        let members = value->Object_0;
        let model = Self::decoded(value)->0;
        let written = Self::encoded(model)->Object_0;
        assert forall|name: Seq<char>| written.contains_key(name) <==> members.contains_key(
            name,
        ) by {
        }
        assert forall|name: Seq<char>| written.contains_key(name) implies written[name]
            == members[name] by {
            T::lemma_encoded_decoded(members[name]);
        }
        assert(written =~= members);
    }

    proof fn lemma_decoded_encoded(model: Map<K, T::Model>) {
        lemma_key_names::<K>();
        let members = Self::encoded(model)->Object_0;
        assert forall|name: Seq<char>| #[trigger] members.contains_key(name) implies name_key::<K>(
            name,
        ) is Some && T::decoded(members[name]) == Some(model[name_key::<K>(name)->0]) by {
            T::lemma_decoded_encoded(model[name_key::<K>(name)->0]);
        }
        let read = Self::decoded(Self::encoded(model))->0;
        assert forall|key: K| read.contains_key(key) <==> model.contains_key(key) by {
        }
    }
}

/// `value` is an object whose members are exactly those that `names` names: none is
/// missing, and none is there that `names` does not name.
pub open spec fn is_record(value: Json, names: Set<Seq<char>>) -> bool {
    value matches Json::Object(members) && members.dom() == names
}

/// The members of `value`, if it is an object with exactly `count` members.
fn record_members(value: &JsonValue, count: usize) -> (found: Result<
    &OrderedMap<String, JsonValue>,
    Mismatch,
>)
    ensures
        match found {
            Ok(members) => {
                &&& value@ == Json::Object(members_view(members@))
                &&& members@.dom().finite()
                &&& members@.len() == count
                &&& members_view(members@).dom() == members@.dom()
            },
            Err(mismatch) => {
                &&& forall|names: Set<Seq<char>>|
                    names.finite() && names.len() == count ==> !is_record(value@, names)
                &&& mismatch.explains(value@)
            },
        },
{
    match value.as_object() {
        Some(members) => {
            let n = members.len();
            assert(members_view(members@).dom() =~= members@.dom());
            if n == count {
                Ok(members)
            } else {
                Err(Mismatch::here(Shape::Members(count)))
            }
        },
        None => Err(Mismatch::here(Shape::Object)),
    }
}

/// The member of the object `value` that is named `name`, if there is one. `members` are
/// the members of `value`.
fn member<'a>(value: &JsonValue, members: &'a OrderedMap<String, JsonValue>, name: &str) -> (found:
    Result<&'a JsonValue, Mismatch>)
    requires
        value@ == Json::Object(members_view(members@)),
    ensures
        match found {
            Ok(part) => members@.contains_key(name@) && *part == members@[name@],
            Err(mismatch) => !members@.contains_key(name@) && mismatch.explains(value@),
        },
{
    let key = String::from_str(name);
    match members.get(&key) {
        Some(part) => Ok(part),
        None => {
            let mismatch = Mismatch::missing(name);
            assert(steps(mismatch.path@).drop_last().len() == 0);
            Err(mismatch)
        },
    }
}

/// The one member of `value`, if it is an object with the member `a` and no other.
pub fn fields1<'a>(value: &'a JsonValue, a: &str) -> (found: Result<&'a JsonValue, Mismatch>)
    ensures
        match found {
            Ok(x) => is_record(value@, set![a@]) && x@ == value@.member(a@),
            Err(mismatch) => !is_record(value@, set![a@]) && mismatch.explains(value@),
        },
{
    assert(set![a@].finite() && set![a@].len() == 1);
    let members = match record_members(value, 1) {
        Ok(found) => found,
        Err(mismatch) => {
            return Err(mismatch);
        },
    };
    let x = match member(value, members, a) {
        Ok(found) => found,
        Err(mismatch) => {
            return Err(mismatch);
        },
    };
    proof {
        vstd::set_lib::lemma_subset_equality(set![a@], members@.dom());
    }
    Ok(x)
}

/// The two members of `value`, if it is an object with the members `a` and `b` and no
/// others.
pub fn fields2<'a>(value: &'a JsonValue, a: &str, b: &str) -> (found: Result<
    (&'a JsonValue, &'a JsonValue),
    Mismatch,
>)
    requires
        a@ != b@,
    ensures
        match found {
            Ok((x, y)) => {
                &&& is_record(value@, set![a@, b@])
                &&& x@ == value@.member(a@)
                &&& y@ == value@.member(b@)
            },
            Err(mismatch) => !is_record(value@, set![a@, b@]) && mismatch.explains(value@),
        },
{
    assert(set![a@, b@].finite() && set![a@, b@].len() == 2);
    let members = match record_members(value, 2) {
        Ok(found) => found,
        Err(mismatch) => {
            return Err(mismatch);
        },
    };
    let x = match member(value, members, a) {
        Ok(found) => found,
        Err(mismatch) => {
            return Err(mismatch);
        },
    };
    let y = match member(value, members, b) {
        Ok(found) => found,
        Err(mismatch) => {
            return Err(mismatch);
        },
    };
    proof {
        vstd::set_lib::lemma_subset_equality(set![a@, b@], members@.dom());
    }
    Ok((x, y))
}

/// The three members of `value`, if it is an object with the members `a`, `b` and `c` and
/// no others.
pub fn fields3<'a>(value: &'a JsonValue, a: &str, b: &str, c: &str) -> (found: Result<
    (&'a JsonValue, &'a JsonValue, &'a JsonValue),
    Mismatch,
>)
    requires
        a@ != b@,
        a@ != c@,
        b@ != c@,
    ensures
        match found {
            Ok((x, y, z)) => {
                &&& is_record(value@, set![a@, b@, c@])
                &&& x@ == value@.member(a@)
                &&& y@ == value@.member(b@)
                &&& z@ == value@.member(c@)
            },
            Err(mismatch) => !is_record(value@, set![a@, b@, c@]) && mismatch.explains(value@),
        },
{
    assert(set![a@, b@, c@].finite() && set![a@, b@, c@].len() == 3);
    let members = match record_members(value, 3) {
        Ok(found) => found,
        Err(mismatch) => {
            return Err(mismatch);
        },
    };
    let x = match member(value, members, a) {
        Ok(found) => found,
        Err(mismatch) => {
            return Err(mismatch);
        },
    };
    let y = match member(value, members, b) {
        Ok(found) => found,
        Err(mismatch) => {
            return Err(mismatch);
        },
    };
    let z = match member(value, members, c) {
        Ok(found) => found,
        Err(mismatch) => {
            return Err(mismatch);
        },
    };
    proof {
        vstd::set_lib::lemma_subset_equality(set![a@, b@, c@], members@.dom());
    }
    Ok((x, y, z))
}

/// The mismatch of an object whose member of the name `name` is named by no key up to
/// `limit`.
pub fn key_mismatch(value: &JsonValue, name: &String, limit: u64) -> (mismatch: Mismatch)
    requires
        value@ matches Json::Object(members) && members.contains_key(name@),
        bounded_decimal_value(name@, limit as nat) is None,
    ensures
        mismatch.explains(value@),
        mismatch.expected == Shape::Key(limit),
        steps(mismatch.path@) == seq![name@],
{
    let mut path: Vec<String> = Vec::new();
    path.push(name.clone());
    proof {
        let walked = steps(path@);
        assert(walked =~= seq![name@]);
        assert(walked.skip(1).len() == 0);
        assert(at_path(value@->Object_0[name@], walked.skip(1)) is Some);
    }
    Mismatch { path, expected: Shape::Key(limit) }
}

/// What one member of a record could not be read as explains the record, on the path that
/// goes through the member's name.
pub fn under_member(value: &JsonValue, name: &str, mismatch: Mismatch) -> (outer: Mismatch)
    requires
        value@ matches Json::Object(members) && members.contains_key(name@) && mismatch.explains(
            members[name@],
        ),
    ensures
        outer.explains(value@),
        outer.expected == mismatch.expected,
        steps(outer.path@) == seq![name@] + steps(mismatch.path@),
{
    proof {
        lemma_explains_member(value@, name@, steps(mismatch.path@), mismatch.expected);
    }
    mismatch.under(String::from_str(name))
}

/// What the item at `position` of an array could not be read as explains the array, on
/// the path that goes through the item's position.
pub fn under_item(value: &JsonValue, position: usize, mismatch: Mismatch) -> (outer: Mismatch)
    requires
        value@ matches Json::Array(items) && position < items.len() && mismatch.explains(
            items[position as int],
        ),
    ensures
        outer.explains(value@),
        outer.expected == mismatch.expected,
        steps(outer.path@) == seq![decimal(position as nat)] + steps(mismatch.path@),
{
    proof {
        lemma_explains_item(value@, position as nat, steps(mismatch.path@), mismatch.expected);
    }
    mismatch.under(to_decimal(position as u64))
}

/// The object with the one member `a`.
pub fn object1(a: &str, x: JsonValue) -> (value: JsonValue)
    ensures
        value@ == Json::Object(map![a@ => x@]),
{
    let mut members: OrderedMap<String, JsonValue> = OrderedMap::new();
    members.insert(String::from_str(a), x);
    assert(members_view(members@) =~= map![a@ => x@]);
    JsonValue::object(members)
}

/// The object with the two members `a` and `b`.
pub fn object2(a: &str, x: JsonValue, b: &str, y: JsonValue) -> (value: JsonValue)
    requires
        a@ != b@,
    ensures
        value@ == Json::Object(map![a@ => x@, b@ => y@]),
{
    let mut members: OrderedMap<String, JsonValue> = OrderedMap::new();
    members.insert(String::from_str(a), x);
    members.insert(String::from_str(b), y);
    assert(members_view(members@) =~= map![a@ => x@, b@ => y@]);
    JsonValue::object(members)
}

/// The object with the three members `a`, `b` and `c`.
pub fn object3(a: &str, x: JsonValue, b: &str, y: JsonValue, c: &str, z: JsonValue) -> (value:
    JsonValue)
    requires
        a@ != b@,
        a@ != c@,
        b@ != c@,
    ensures
        value@ == Json::Object(map![a@ => x@, b@ => y@, c@ => z@]),
{
    let mut members: OrderedMap<String, JsonValue> = OrderedMap::new();
    members.insert(String::from_str(a), x);
    members.insert(String::from_str(b), y);
    members.insert(String::from_str(c), z);
    assert(members_view(members@) =~= map![a@ => x@, b@ => y@, c@ => z@]);
    JsonValue::object(members)
}

/// The two items of `value`, if it is an array of two items.
pub fn items2<'a>(value: &'a JsonValue) -> (found: Result<(&'a JsonValue, &'a JsonValue), Mismatch>)
    ensures
        match found {
            Ok((x, y)) => value@ == Json::Array(seq![x@, y@]),
            Err(mismatch) => !(value@ matches Json::Array(items) && items.len() == 2)
                && mismatch.explains(value@),
        },
{
    match value.as_array() {
        Some(items) => {
            if items.len() == 2 {
                assert(items_view(items@) =~= seq![items@[0]@, items@[1]@]);
                Ok((&items[0], &items[1]))
            } else {
                Err(Mismatch::here(Shape::Pair))
            }
        },
        None => Err(Mismatch::here(Shape::Pair)),
    }
}

/// The array of the two items `x` and `y`.
pub fn array2(x: JsonValue, y: JsonValue) -> (value: JsonValue)
    ensures
        value@ == Json::Array(seq![x@, y@]),
{
    let mut items: Vec<JsonValue> = Vec::new();
    items.push(x);
    items.push(y);
    assert(items_view(items@) =~= seq![x@, y@]);
    JsonValue::array(items)
}

} // verus!
