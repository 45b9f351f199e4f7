//! The structural values that annotations are stored as.
use crate::ordered_map::{distinct_keys, lemma_map_of_entry, map_of, position_of, OrderedMap};
use vstd::prelude::*;

verus! {

/// A number of a structural value: an unsigned integer, a negative integer, or a float,
/// kept as the bits of its 64-bit representation.
#[derive(Clone, Copy, Debug, PartialEq, Eq, Structural)]
pub enum JsonNumber {
    PosInt(u64),
    NegInt(i64),
    Float(u64),
}

/// A structural value as it is held in memory. An object keeps its members in the order
/// in which they were added; that order is no part of what the value means.
#[derive(Debug)]
pub enum JsonValue {
    Null,
    Bool(bool),
    Number(JsonNumber),
    String(String),
    Array(Vec<JsonValue>),
    Object(OrderedMap<String, JsonValue>),
}

/// What a structural value means: an object is a map from member names to values.
pub enum Json {
    Null,
    Bool(bool),
    Number(JsonNumber),
    String(Seq<char>),
    Array(Seq<Json>),
    Object(Map<Seq<char>, Json>),
}

/// What a structural value held in memory means.
pub open spec fn json_of(value: JsonValue) -> Json
    decreases value,
{
    match value {
        JsonValue::Null => Json::Null,
        JsonValue::Bool(b) => Json::Bool(b),
        JsonValue::Number(n) => Json::Number(n),
        JsonValue::String(s) => Json::String(s@),
        JsonValue::Array(items) => Json::Array(
            Seq::new(
                items@.len(),
                |i: int|
                    if 0 <= i < items@.len() {
                        json_of(items@[i])
                    } else {
                        Json::Null
                    },
            ),
        ),
        JsonValue::Object(members) => Json::Object(
            Map::new(
                |name: Seq<char>| members@.contains_key(name),
                |name: Seq<char>|
                    if members@.contains_key(name) {
                        proof {
                            members.lemma_value_decreases(name);
                        }
                        json_of(members@[name])
                    } else {
                        Json::Null
                    },
            ),
        ),
    }
}

impl View for JsonValue {
    type V = Json;

    open spec fn view(&self) -> Json {
        json_of(*self)
    }
}

/// What the items of an array mean, in their order.
pub open spec fn items_view(items: Seq<JsonValue>) -> Seq<Json> {
    Seq::new(items.len(), |i: int| items[i]@)
}

/// What the members of an object mean, each under its name.
pub open spec fn members_view(members: Map<Seq<char>, JsonValue>) -> Map<Seq<char>, Json> {
    Map::new(|name: Seq<char>| members.contains_key(name), |name: Seq<char>| members[name]@)
}

impl Json {
    /// The unsigned integer that the value is, if it is one.
    pub open spec fn as_unsigned(self) -> Option<u64> {
        match self {
            Json::Number(JsonNumber::PosInt(n)) => Some(n),
            _ => None,
        }
    }

    /// The text that the value is, if it is a string.
    pub open spec fn as_text(self) -> Option<Seq<char>> {
        match self {
            Json::String(text) => Some(text),
            _ => None,
        }
    }

    /// The member of the object named `name`.
    pub open spec fn member(self, name: Seq<char>) -> Json {
        self->Object_0[name]
    }
}

impl JsonValue {
    /// The unsigned integer that the value is, if it is one.
    pub fn as_u64(&self) -> (number: Option<u64>)
        ensures
            number == self@.as_unsigned(),
    {
        match self {
            JsonValue::Number(JsonNumber::PosInt(n)) => Some(*n),
            _ => None,
        }
    }

    /// The text that the value is, if it is a string.
    pub fn as_string(&self) -> (text: Option<&String>)
        ensures
            match text {
                Some(t) => self@.as_text() == Some(t@),
                None => self@.as_text() is None,
            },
    {
        match self {
            JsonValue::String(text) => Some(text),
            _ => None,
        }
    }

    /// The items of the value, if it is an array.
    pub fn as_array(&self) -> (items: Option<&Vec<JsonValue>>)
        ensures
            match items {
                Some(list) => self@ == Json::Array(items_view(list@)),
                None => !(self@ is Array),
            },
    {
        match self {
            JsonValue::Array(items) => {
                assert(self@->Array_0 =~= items_view(items@));
                Some(items)
            },
            _ => None,
        }
    }

    /// The members of the value, if it is an object.
    pub fn as_object(&self) -> (members: Option<&OrderedMap<String, JsonValue>>)
        ensures
            match members {
                Some(map) => self@ == Json::Object(members_view(map@)),
                None => !(self@ is Object),
            },
    {
        match self {
            JsonValue::Object(members) => {
                assert(self@->Object_0 =~= members_view(members@));
                Some(members)
            },
            _ => None,
        }
    }

    /// The array of the given items.
    pub fn array(items: Vec<JsonValue>) -> (value: JsonValue)
        ensures
            value@ == Json::Array(items_view(items@)),
    {
        let value = JsonValue::Array(items);
        assert(value@->Array_0 =~= items_view(items@));
        value
    }

    /// The object of the given members.
    pub fn object(members: OrderedMap<String, JsonValue>) -> (value: JsonValue)
        ensures
            value@ == Json::Object(members_view(members@)),
    {
        let value = JsonValue::Object(members);
        assert(value@->Object_0 =~= members_view(members@));
        value
    }
}

impl JsonValue {
    /// Whether the two values mean the same: whether they are equal but for the order in
    /// which their objects keep their members.
    pub fn same_as(&self, other: &JsonValue) -> (same: bool)
        ensures
            same == (self@ == other@),
        decreases self,
    {
        match (self, other) {
            (JsonValue::Null, JsonValue::Null) => true,
            (JsonValue::Bool(a), JsonValue::Bool(b)) => *a == *b,
            (JsonValue::Number(a), JsonValue::Number(b)) => *a == *b,
            (JsonValue::String(a), JsonValue::String(b)) => *a == *b,
            (JsonValue::Array(mine), JsonValue::Array(theirs)) => {
                assert(self@->Array_0 =~= items_view(mine@));
                assert(other@->Array_0 =~= items_view(theirs@));
                if mine.len() != theirs.len() {
                    return false;
                }
                let mut i: usize = 0;
                while i < mine.len()
                    invariant
                        i <= mine.len(),
                        mine.len() == theirs.len(),
                        self == JsonValue::Array(*mine),
                        self@ == Json::Array(items_view(mine@)),
                        other@ == Json::Array(items_view(theirs@)),
                        forall|j: int| 0 <= j < i ==> (#[trigger] mine@[j])@ == theirs@[j]@,
                    decreases mine.len() - i,
                {
                    if !mine[i].same_as(&theirs[i]) {
                        assert(items_view(mine@)[i as int] != items_view(theirs@)[i as int]);
                        return false;
                    }
                    i += 1;
                }
                assert(items_view(mine@) =~= items_view(theirs@));
                true
            },
            (JsonValue::Object(mine), JsonValue::Object(theirs)) => {
                assert(self@->Object_0 =~= members_view(mine@));
                assert(other@->Object_0 =~= members_view(theirs@));
                let n = mine.len();
                if n != theirs.len() {
                    assert(members_view(mine@).dom() =~= mine@.dom());
                    assert(members_view(theirs@).dom() =~= theirs@.dom());
                    return false;
                }
                let mut i: usize = 0;
                while i < n
                    invariant
                        i <= n,
                        n == mine.entries().len(),
                        distinct_keys(mine.entries()),
                        mine@ == map_of(mine.entries()),
                        mine@.dom().finite(),
                        theirs@.dom().finite(),
                        mine@.len() == theirs@.len(),
                        self == JsonValue::Object(*mine),
                        self@ == Json::Object(members_view(mine@)),
                        other@ == Json::Object(members_view(theirs@)),
                        forall|j: int|
                            0 <= j < i ==> theirs@.contains_key((#[trigger] mine.entries()[j]).0)
                                && theirs@[mine.entries()[j].0]@ == mine.entries()[j].1@,
                    decreases n - i,
                {
                    let name = mine.key_at(i);
                    let value = mine.value_at(i);
                    proof {
                        lemma_map_of_entry(mine.entries(), i as int);
                    }
                    let found = match theirs.get(name) {
                        Some(found) => found,
                        None => {
                            assert(members_view(mine@).contains_key(name@));
                            return false;
                        },
                    };
                    if !value.same_as(found) {
                        assert(members_view(mine@)[name@] != members_view(theirs@)[name@]);
                        return false;
                    }
                    i += 1;
                }
                proof {
                    assert forall|name: Seq<char>| mine@.contains_key(name) implies theirs@.contains_key(
                        name,
                    ) && theirs@[name]@ == mine@[name]@ by {
                        let p = position_of(mine.entries(), name);
                        lemma_map_of_entry(mine.entries(), p);
                    }
                    vstd::set_lib::lemma_subset_equality(mine@.dom(), theirs@.dom());
                    assert(members_view(mine@) =~= members_view(theirs@));
                }
                true
            },
            _ => false,
        }
    }
}

} // verus!
