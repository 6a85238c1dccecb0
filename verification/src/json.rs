//! JSON values: the executable form, the mathematical form and the readers.

use vstd::prelude::*;

use crate::json_codec::{number_as_u64, number_tree};
use crate::text::same_text;

verus! {

/// A JSON number: integers by value, any other number as the codec holds it.
#[derive(Debug, PartialEq)]
pub enum JsonNumber {
    /// A whole number that is not negative.
    Unsigned(u64),
    /// A whole number below zero.
    Negative(i64),
    /// A number with a fraction or an exponent.
    Float(serde_json::Number),
}

/// A JSON value. An object is a list of entries, of which the last one with a
/// given key counts.
#[derive(Debug, PartialEq)]
pub enum Json {
    Null,
    Bool(bool),
    Number(JsonNumber),
    Text(String),
    Array(Vec<Json>),
    Object(Vec<(String, Json)>),
}

/// What a JSON value is, apart from how it is stored.
#[verifier::ext_equal]
pub enum JsonTree {
    Null,
    Bool(bool),
    Number(JsonNumber),
    Text(Seq<char>),
    Array(Seq<JsonTree>),
    Object(Map<Seq<char>, JsonTree>),
}

impl JsonNumber {
    /// The number that is meant, each number in one way only.
    pub open spec fn tree(self) -> JsonNumber {
        match self {
            JsonNumber::Unsigned(u) => self,
            JsonNumber::Negative(i) => if i < 0 {
                self
            } else {
                JsonNumber::Unsigned(i as u64)
            },
            JsonNumber::Float(n) => number_tree(n),
        }
    }
}

impl Json {
    /// The mathematical form of this value.
    pub open spec fn tree(self) -> JsonTree
        decreases self,
    {
        match self {
            Json::Null => JsonTree::Null,
            Json::Bool(b) => JsonTree::Bool(b),
            Json::Number(n) => JsonTree::Number(n.tree()),
            Json::Text(s) => JsonTree::Text(s@),
            Json::Array(items) => JsonTree::Array(trees(items@)),
            Json::Object(entries) => JsonTree::Object(entry_map(entries@)),
        }
    }
}

/// The mathematical forms of a list of values.
pub open spec fn trees(items: Seq<Json>) -> Seq<JsonTree>
    decreases items,
{
    if items.len() == 0 {
        Seq::empty()
    } else {
        trees(items.drop_last()).push(items.last().tree())
    }
}

/// What a list of entries maps each key to: the last entry of a key counts.
pub open spec fn entry_map(entries: Seq<(String, Json)>) -> Map<Seq<char>, JsonTree>
    decreases entries,
{
    if entries.len() == 0 {
        Map::empty()
    } else {
        entry_map(entries.drop_last()).insert(entries.last().0@, entries.last().1.tree())
    }
}

impl JsonTree {
    /// What an object holds under a key; nothing for any other value.
    pub open spec fn member(self, key: Seq<char>) -> Option<JsonTree> {
        match self {
            JsonTree::Object(map) => if map.dom().contains(key) {
                Some(map[key])
            } else {
                None
            },
            _ => None,
        }
    }

    /// The characters of a text; nothing for any other value.
    pub open spec fn text(self) -> Option<Seq<char>> {
        match self {
            JsonTree::Text(s) => Some(s),
            _ => None,
        }
    }

    /// What an object holds under a key, where that is a text.
    pub open spec fn text_member(self, key: Seq<char>) -> Option<Seq<char>> {
        match self.member(key) {
            Some(value) => value.text(),
            None => None,
        }
    }

    /// The number, where it is a whole one that is not negative.
    pub open spec fn unsigned(self) -> Option<u64> {
        match self {
            JsonTree::Number(JsonNumber::Unsigned(u)) => Some(u),
            _ => None,
        }
    }

    /// The items of an array; nothing for any other value.
    pub open spec fn items(self) -> Option<Seq<JsonTree>> {
        match self {
            JsonTree::Array(items) => Some(items),
            _ => None,
        }
    }
}

/// `trees` goes item by item.
pub proof fn lemma_trees(items: Seq<Json>)
    ensures
        trees(items).len() == items.len(),
        forall|i: int| 0 <= i < items.len() ==> #[trigger] trees(items)[i] == items[i].tree(),
    decreases items.len(),
{
    if items.len() > 0 {
        lemma_trees(items.drop_last());
    }
}

/// The map of a prefix has what the map of the whole has, for a key that does not
/// occur behind the prefix.
proof fn lemma_entry_map_prefix(entries: Seq<(String, Json)>, n: int, key: Seq<char>)
    requires
        0 <= n <= entries.len(),
        forall|i: int| n <= i < entries.len() ==> (#[trigger] entries[i]).0@ != key,
    ensures
        entry_map(entries).dom().contains(key) == entry_map(entries.take(n)).dom().contains(key),
        entry_map(entries).dom().contains(key) ==> entry_map(entries)[key] == entry_map(
            entries.take(n),
        )[key],
    decreases entries.len() - n,
{
    if n == entries.len() {
        assert(entries.take(n) == entries);
    } else {
        lemma_entry_map_prefix(entries, n + 1, key);
        assert(entries.take(n + 1).drop_last() == entries.take(n));
        assert(entries[n].0@ != key);
    }
}

impl Json {
    /// The value that an object holds under `key`.
    pub fn get(&self, key: &str) -> (r: Option<&Json>)
        ensures
            match r {
                Some(value) => self.tree().member(key@) == Some(value.tree()),
                None => self.tree().member(key@) is None,
            },
    {
        match self {
            Json::Object(entries) => {
                let mut i: usize = entries.len();
                while i > 0
                    invariant
                        i <= entries.len(),
                        forall|j: int|
                            i <= j < entries.len() ==> (#[trigger] entries@[j]).0@ != key@,
                        self.tree() == JsonTree::Object(entry_map(entries@)),
                    decreases i,
                {
                    i = i - 1;
                    if same_text(entries[i].0.as_str(), key) {
                        proof {
                            lemma_entry_map_prefix(entries@, i + 1, key@);
                            assert(entries@.take(i + 1).last() == entries@[i as int]);
                        }
                        return Some(&entries[i].1);
                    }
                }
                proof {
                    lemma_entry_map_prefix(entries@, 0, key@);
                }
                None
            },
            _ => None,
        }
    }

    /// The text that this value is.
    pub fn as_str(&self) -> (r: Option<&str>)
        ensures
            match r {
                Some(s) => self.tree().text() == Some(s@),
                None => self.tree().text() is None,
            },
    {
        match self {
            Json::Text(s) => Some(s.as_str()),
            _ => None,
        }
    }

    /// The text that an object holds under `key`.
    pub fn get_str(&self, key: &str) -> (r: Option<&str>)
        ensures
            match r {
                Some(s) => self.tree().text_member(key@) == Some(s@),
                None => self.tree().text_member(key@) is None,
            },
    {
        match self.get(key) {
            Some(value) => value.as_str(),
            None => None,
        }
    }

    /// The number that this value is, where it is a whole one that is not negative.
    pub fn as_u64(&self) -> (r: Option<u64>)
        ensures
            r == self.tree().unsigned(),
    {
        match self {
            Json::Number(JsonNumber::Unsigned(u)) => Some(*u),
            Json::Number(JsonNumber::Negative(i)) => if *i < 0 {
                None
            } else {
                Some(*i as u64)
            },
            Json::Number(JsonNumber::Float(n)) => number_as_u64(n),
            _ => None,
        }
    }

    /// The items of the array that this value is.
    pub fn as_array(&self) -> (r: Option<&Vec<Json>>)
        ensures
            match r {
                Some(items) => self.tree().items() == Some(trees(items@)),
                None => self.tree().items() is None,
            },
    {
        match self {
            Json::Array(items) => Some(items),
            _ => None,
        }
    }
}

/// The entries of an object without members.
pub fn no_entries() -> (r: Vec<(String, Json)>)
    ensures
        entry_map(r@) == Map::<Seq<char>, JsonTree>::empty(),
{
    Vec::new()
}

/// The entries of an object with one member more.
pub fn with_entry(entries: Vec<(String, Json)>, key: &str, value: Json) -> (r: Vec<(String, Json)>)
    ensures
        entry_map(r@) == entry_map(entries@).insert(key@, value.tree()),
{
    let mut more = entries;
    more.push((key.to_string(), value));
    assert(more@.drop_last() == entries@);
    more
}

/// A text.
pub fn text_json(text: &str) -> (r: Json)
    ensures
        r.tree() == JsonTree::Text(text@),
{
    Json::Text(text.to_string())
}

/// The items of an empty array.
pub fn no_items() -> (r: Vec<Json>)
    ensures
        trees(r@) == Seq::<JsonTree>::empty(),
{
    Vec::new()
}

/// The items of an array with one item more.
pub fn with_item(items: Vec<Json>, item: Json) -> (r: Vec<Json>)
    ensures
        trees(r@) == trees(items@).push(item.tree()),
{
    let mut more = items;
    more.push(item);
    assert(more@.drop_last() == items@);
    more
}

/// A whole number.
pub fn number_json(n: u64) -> (r: Json)
    ensures
        r.tree() == JsonTree::Number(JsonNumber::Unsigned(n)),
{
    Json::Number(JsonNumber::Unsigned(n))
}

/// What an object holds under a key is what its last entry with that key holds.
pub proof fn law_last_entry_of_a_key_counts(entries: Vec<(String, Json)>, i: int)
    requires
        0 <= i < entries@.len(),
        forall|j: int|
            i < j < entries@.len() ==> (#[trigger] entries@[j]).0@ != entries@[i].0@,
    ensures
        Json::Object(entries).tree().member(entries@[i].0@) == Some(entries@[i].1.tree()),
{
    lemma_entry_map_prefix(entries@, i + 1, entries@[i].0@);
    assert(entries@.take(i + 1).last() == entries@[i]);
}

/// An object holds nothing under a key that none of its entries has.
pub proof fn law_no_member_is_made_up(entries: Vec<(String, Json)>, key: Seq<char>)
    requires
        forall|i: int| 0 <= i < entries@.len() ==> (#[trigger] entries@[i]).0@ != key,
    ensures
        Json::Object(entries).tree() is Object,
        Json::Object(entries).tree().member(key) is None,
{
    lemma_entry_map_prefix(entries@, 0, key);
}

/// An array holds its items, all of them and in their order.
pub proof fn law_array_holds_its_items(items: Vec<Json>)
    ensures
        Json::Array(items).tree().items() matches Some(held) && held.len() == items@.len()
            && forall|i: int| 0 <= i < items@.len() ==> #[trigger] held[i] == items@[i].tree(),
{
    lemma_trees(items@);
}

/// Null, truth values, texts and numbers stand for themselves; a number that is
/// stored as a negative one without being below zero is the unsigned one.
pub proof fn law_plain_values_are_themselves(
    truth: bool,
    text: String,
    unsigned: u64,
    signed: i64,
    other: serde_json::Number,
)
    ensures
        Json::Null.tree() == JsonTree::Null,
        Json::Bool(truth).tree() == JsonTree::Bool(truth),
        Json::Text(text).tree() == JsonTree::Text(text@),
        Json::Number(JsonNumber::Unsigned(unsigned)).tree().unsigned() == Some(unsigned),
        signed >= 0 ==> Json::Number(JsonNumber::Negative(signed)).tree().unsigned() == Some(
            signed as u64,
        ),
        signed < 0 ==> Json::Number(JsonNumber::Negative(signed)).tree() == JsonTree::Number(
            JsonNumber::Negative(signed),
        ),
        Json::Number(JsonNumber::Float(other)).tree() == JsonTree::Number(number_tree(other)),
{
}

/// A member that was put into an object is found there; the other members are as they
/// were, and one that was taken out is found no more.
pub proof fn law_members_are_found(
    members: Map<Seq<char>, JsonTree>,
    key: Seq<char>,
    value: JsonTree,
    other: Seq<char>,
)
    ensures
        JsonTree::Object(members.insert(key, value)).member(key) == Some(value),
        other != key ==> JsonTree::Object(members.insert(key, value)).member(other)
            == JsonTree::Object(members).member(other),
        JsonTree::Object(members.remove(key)).member(key) is None,
{
}

/// Each reader gives what it is for, and nothing out of any other value.
pub proof fn law_readers_tell_kinds_apart(
    tree: JsonTree,
    key: Seq<char>,
    text: Seq<char>,
    items: Seq<JsonTree>,
    number: u64,
)
    ensures
        tree.member(key) is Some ==> tree is Object,
        tree.text() == Some(text) <==> tree == JsonTree::Text(text),
        tree.text_member(key) == Some(text) <==> tree.member(key) == Some(JsonTree::Text(text)),
        tree.items() == Some(items) <==> tree == JsonTree::Array(items),
        tree.unsigned() == Some(number) <==> tree == JsonTree::Number(
            JsonNumber::Unsigned(number),
        ),
{
}

} // verus!
