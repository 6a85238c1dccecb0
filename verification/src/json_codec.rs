//! JSON text, read and written by `serde_json`.

use vstd::prelude::*;

use crate::json::{entry_map, lemma_trees, trees, Json, JsonNumber, JsonTree};

verus! {

/// Declares the number type of `serde_json`.
#[verifier::external_type_specification]
#[verifier::external_body]
pub struct ExNumber(serde_json::Number);

/// Declares the value type of `serde_json`.
#[verifier::external_type_specification]
#[verifier::external_body]
pub struct ExValue(serde_json::Value);

/// Declares the object type of `serde_json`.
#[verifier::external_type_specification]
#[verifier::external_body]
#[verifier::reject_recursive_types(K)]
#[verifier::reject_recursive_types(V)]
pub struct ExMap<K, V>(serde_json::Map<K, V>);

/// Declares the error type of `serde_json`.
#[verifier::external_type_specification]
#[verifier::external_body]
pub struct ExError(serde_json::Error);

/// Which number a `serde_json::Number` is. A float is its own description.
pub uninterp spec fn number_tree(n: serde_json::Number) -> JsonNumber;

/// What a `serde_json::Value` holds.
pub uninterp spec fn value_tree(v: serde_json::Value) -> JsonTree;

/// What a `serde_json::Map` maps its keys to.
pub uninterp spec fn object_tree(m: serde_json::Map<String, serde_json::Value>) -> Map<
    Seq<char>,
    JsonTree,
>;

/// The value that `serde_json` reads out of a text, if the text is JSON.
pub uninterp spec fn json_parse(text: Seq<char>) -> Option<JsonTree>;

/// The compact text that `serde_json` writes for a value.
pub uninterp spec fn json_text(tree: JsonTree) -> Seq<char>;

/// A `serde_json::Value` with its outermost layer open.
pub enum ValueNode {
    Null,
    Bool(bool),
    Number(serde_json::Number),
    Text(String),
    Array(Vec<serde_json::Value>),
    Object(serde_json::Map<String, serde_json::Value>),
}

/// The values that a list of `serde_json` values holds.
pub open spec fn value_trees(items: Seq<serde_json::Value>) -> Seq<JsonTree> {
    Seq::new(items.len(), |i: int| value_tree(items[i]))
}

/// What a list of entries maps each key to: the last entry of a key counts.
pub open spec fn value_entries(entries: Seq<(String, serde_json::Value)>) -> Map<
    Seq<char>,
    JsonTree,
>
    decreases entries.len(),
{
    if entries.len() == 0 {
        Map::empty()
    } else {
        value_entries(entries.drop_last()).insert(
            entries.last().0@,
            value_tree(entries.last().1),
        )
    }
}

impl ValueNode {
    /// What the value holds.
    pub open spec fn tree(self) -> JsonTree {
        match self {
            ValueNode::Null => JsonTree::Null,
            ValueNode::Bool(b) => JsonTree::Bool(b),
            ValueNode::Number(n) => JsonTree::Number(number_tree(n)),
            ValueNode::Text(s) => JsonTree::Text(s@),
            ValueNode::Array(items) => JsonTree::Array(value_trees(items@)),
            ValueNode::Object(m) => JsonTree::Object(object_tree(m)),
        }
    }
}

/// Whether a value nests at most `depth` arrays and objects and holds no float:
/// such a value is read back unchanged from the text that is written for it,
/// where `depth` is at most `MAX_READ_DEPTH`.
pub open spec fn reads_back(tree: JsonTree, depth: nat) -> bool
    decreases depth,
{
    match tree {
        JsonTree::Number(JsonNumber::Float(_)) => false,
        JsonTree::Number(JsonNumber::Negative(i)) => i < 0,
        JsonTree::Array(items) => depth > 0 && forall|i: int|
            0 <= i < items.len() ==> reads_back(#[trigger] items[i], (depth - 1) as nat),
        JsonTree::Object(map) => depth > 0 && map.dom().finite() && forall|key: Seq<char>|
            map.dom().contains(key) ==> reads_back(#[trigger] map[key], (depth - 1) as nat),
        _ => true,
    }
}

/// How many arrays and objects may be nested in a text that is read.
pub const MAX_READ_DEPTH: usize = 127;

/// Calls `serde_json::from_str` for a `serde_json::Value`. The outcome is a
/// function of the text alone.
#[verifier::external_body]
fn read_value(text: &str) -> (r: Result<serde_json::Value, serde_json::Error>)
    ensures
        match r {
            Ok(v) => json_parse(text@) == Some(value_tree(v)),
            Err(_) => json_parse(text@) is None,
        },
{
    serde_json::from_str(text)
}

/// Calls `serde_json::Value::to_string`. The text is a function of what the
/// value holds, and is never empty. A value without floats that is not nested too
/// deep is read back from it.
#[verifier::external_body]
fn write_value(v: &serde_json::Value) -> (r: String)
    ensures
        r@ == json_text(value_tree(*v)),
        r@.len() > 0,
        reads_back(value_tree(*v), MAX_READ_DEPTH as nat) ==> json_parse(r@) == Some(
            value_tree(*v),
        ),
{
    v.to_string()
}

/// Takes a `serde_json::Value` apart by its variant.
#[verifier::external_body]
fn open_value(v: serde_json::Value) -> (r: ValueNode)
    ensures
        value_tree(v) == r.tree(),
{
    match v {
        serde_json::Value::Null => ValueNode::Null,
        serde_json::Value::Bool(b) => ValueNode::Bool(b),
        serde_json::Value::Number(n) => ValueNode::Number(n),
        serde_json::Value::String(s) => ValueNode::Text(s),
        serde_json::Value::Array(items) => ValueNode::Array(items),
        serde_json::Value::Object(m) => ValueNode::Object(m),
    }
}

/// Makes a `serde_json::Value` of the variant that is given.
#[verifier::external_body]
fn close_value(node: ValueNode) -> (r: serde_json::Value)
    ensures
        value_tree(r) == node.tree(),
{
    match node {
        ValueNode::Null => serde_json::Value::Null,
        ValueNode::Bool(b) => serde_json::Value::Bool(b),
        ValueNode::Number(n) => serde_json::Value::Number(n),
        ValueNode::Text(s) => serde_json::Value::String(s),
        ValueNode::Array(items) => serde_json::Value::Array(items),
        ValueNode::Object(m) => serde_json::Value::Object(m),
    }
}

/// Calls `serde_json::Map::into_iter` and collects the entries: each key once,
/// with the value that the map holds for it.
#[verifier::external_body]
fn object_entries(m: serde_json::Map<String, serde_json::Value>) -> (r: Vec<
    (String, serde_json::Value),
>)
    ensures
        object_tree(m) == value_entries(r@),
        forall|i: int, j: int| 0 <= i < j < r@.len() ==> r@[i].0@ != r@[j].0@,
{
    m.into_iter().collect()
}

/// Calls `serde_json::Map::new`: no key has a value yet.
#[verifier::external_body]
fn object_new() -> (r: serde_json::Map<String, serde_json::Value>)
    ensures
        (object_tree(r) == Map::<Seq<char>, JsonTree>::empty()),
{
    serde_json::Map::new()
}

/// Calls `serde_json::Map::insert`: the key has the value from now on, the other
/// keys keep theirs. What the key had before is dropped.
#[verifier::external_body]
fn object_insert(
    m: &mut serde_json::Map<String, serde_json::Value>,
    key: String,
    value: serde_json::Value,
)
    ensures
        object_tree(*final(m)) == object_tree(*old(m)).insert(key@, value_tree(value)),
{
    m.insert(key, value);
}

/// Calls `serde_json::Number::as_u64`: the whole numbers that are not negative
/// have this form.
#[verifier::external_body]
pub(crate) fn number_as_u64(n: &serde_json::Number) -> (r: Option<u64>)
    ensures
        match number_tree(*n) {
            JsonNumber::Unsigned(u) => r == Some(u),
            _ => r is None,
        },
{
    n.as_u64()
}

/// Calls `serde_json::Number::as_i64`: the whole numbers in the range of `i64`
/// have this form. A number that is held as a negative one is below zero.
#[verifier::external_body]
fn number_as_i64(n: &serde_json::Number) -> (r: Option<i64>)
    ensures
        match number_tree(*n) {
            JsonNumber::Unsigned(u) => r == if u <= i64::MAX {
                Some(u as i64)
            } else {
                None
            },
            JsonNumber::Negative(i) => i < 0 && r == Some(i),
            JsonNumber::Float(float) => float == *n && r is None,
        },
{
    n.as_i64()
}

/// Calls `serde_json::Number::from` for a `u64`.
#[verifier::external_body]
fn number_from_u64(u: u64) -> (r: serde_json::Number)
    ensures
        number_tree(r) == JsonNumber::Unsigned(u),
{
    serde_json::Number::from(u)
}

/// Calls `serde_json::Number::from` for an `i64`: a value that is not below zero
/// is held as an unsigned one.
#[verifier::external_body]
fn number_from_i64(i: i64) -> (r: serde_json::Number)
    ensures
        number_tree(r) == JsonNumber::Negative(i).tree(),
{
    serde_json::Number::from(i)
}

/// Specifies `serde_json::Number::clone`: the same number.
pub assume_specification [<serde_json::Number as Clone>::clone] (n: &serde_json::Number) -> (r:
    serde_json::Number)
    ensures
        r == *n,
;

/// A number out of the form in which `serde_json` holds it.
fn from_number(n: serde_json::Number) -> (r: JsonNumber)
    ensures
        r.tree() == number_tree(n),
{
    match number_as_u64(&n) {
        Some(u) => JsonNumber::Unsigned(u),
        None => match number_as_i64(&n) {
            Some(i) => JsonNumber::Negative(i),
            None => JsonNumber::Float(n),
        },
    }
}

/// A number in the form in which `serde_json` holds it.
fn to_number(n: &JsonNumber) -> (r: serde_json::Number)
    ensures
        number_tree(r) == n.tree(),
{
    match n {
        JsonNumber::Unsigned(u) => number_from_u64(*u),
        JsonNumber::Negative(i) => number_from_i64(*i),
        JsonNumber::Float(float) => float.clone(),
    }
}

/// A list of entries maps to a finite map.
proof fn lemma_value_entries(entries: Seq<(String, serde_json::Value)>)
    requires
        forall|i: int, j: int| 0 <= i < j < entries.len() ==> entries[i].0@ != entries[j].0@,
    ensures
        value_entries(entries).dom().finite(),
        forall|i: int|
            0 <= i < entries.len() ==> {
                &&& value_entries(entries).dom().contains((#[trigger] entries[i]).0@)
                &&& value_entries(entries)[entries[i].0@] == value_tree(entries[i].1)
            },
    decreases entries.len(),
{
    if entries.len() > 0 {
        let init = entries.drop_last();
        lemma_value_entries(init);
        assert forall|i: int| 0 <= i < entries.len() implies {
            &&& value_entries(entries).dom().contains((#[trigger] entries[i]).0@)
            &&& value_entries(entries)[entries[i].0@] == value_tree(entries[i].1)
        } by {
            if i < init.len() {
                assert(init[i] == entries[i]);
            }
        }
    }
}

/// A value out of the form in which `serde_json` holds it.
pub fn from_value(v: serde_json::Value) -> (r: Json)
    ensures
        r.tree() == value_tree(v),
    decreases value_tree(v),
{
    match open_value(v) {
        ValueNode::Null => Json::Null,
        ValueNode::Bool(b) => Json::Bool(b),
        ValueNode::Number(n) => Json::Number(from_number(n)),
        ValueNode::Text(s) => Json::Text(s),
        ValueNode::Array(values) => {
            let ghost all = values@;
            let mut items: Vec<Json> = Vec::new();
            for value in it: values
                invariant
                    it.seq() == all,
                    items.len() == it.index(),
                    trees(items@) == value_trees(all.take(it.index())),
                    value_tree(v) == JsonTree::Array(value_trees(all)),
            {
                let ghost before = items@;
                assert(value_trees(all)[it.index()] == value_tree(value));
                assert(decreases_to!(value_tree(v) => value_tree(v)->Array_0));
                assert(decreases_to!(value_trees(all) => value_trees(all)[it.index()]));
                items.push(from_value(value));
                assert(items@.drop_last() == before);
                assert(value_trees(all.take(it.index() + 1)) == value_trees(
                    all.take(it.index()),
                ).push(value_tree(value)));
            }
            assert(all.take(all.len() as int) == all);
            Json::Array(items)
        },
        ValueNode::Object(m) => {
            let pairs = object_entries(m);
            let ghost all = pairs@;
            proof {
                lemma_value_entries(all);
            }
            let mut entries: Vec<(String, Json)> = Vec::new();
            for pair in it: pairs
                invariant
                    it.seq() == all,
                    entries.len() == it.index(),
                    entry_map(entries@) == value_entries(all.take(it.index())),
                    value_tree(v) == JsonTree::Object(value_entries(all)),
                    value_entries(all).dom().finite(),
                    forall|i: int|
                        0 <= i < all.len() ==> {
                            &&& value_entries(all).dom().contains((#[trigger] all[i]).0@)
                            &&& value_entries(all)[all[i].0@] == value_tree(all[i].1)
                        },
            {
                let ghost before = entries@;
                assert(pair == all[it.index()]);
                let (key, value) = pair;
                assert(decreases_to!(value_tree(v) => value_tree(v)->Object_0));
                assert(decreases_to!(value_entries(all) => value_entries(all)[key@]));
                entries.push((key, from_value(value)));
                assert(entries@.drop_last() == before);
                assert(all.take(it.index() + 1).drop_last() == all.take(it.index()));
            }
            assert(all.take(all.len() as int) == all);
            Json::Object(entries)
        },
    }
}

/// A value in the form in which `serde_json` holds it.
fn to_value(json: &Json) -> (r: serde_json::Value)
    ensures
        value_tree(r) == json.tree(),
    decreases json,
{
    let node = match json {
        Json::Null => ValueNode::Null,
        Json::Bool(b) => ValueNode::Bool(*b),
        Json::Number(n) => ValueNode::Number(to_number(n)),
        Json::Text(s) => ValueNode::Text(s.clone()),
        Json::Array(items) => {
            let mut values: Vec<serde_json::Value> = Vec::new();
            for i in 0..items.len()
                invariant
                    values.len() == i,
                    forall|j: int|
                        0 <= j < i ==> value_tree(#[trigger] values@[j]) == items@[j].tree(),
                    *json == Json::Array(*items),
            {
                assert(decreases_to!(*json => json->Array_0));
                assert(decreases_to!(items@ => items@[i as int]));
                values.push(to_value(&items[i]));
            }
            proof {
                lemma_trees(items@);
                assert(value_trees(values@) == trees(items@));
            }
            ValueNode::Array(values)
        },
        Json::Object(entries) => {
            let mut m = object_new();
            for i in 0..entries.len()
                invariant
                    object_tree(m) == entry_map(entries@.take(i as int)),
                    *json == Json::Object(*entries),
            {
                assert(decreases_to!(*json => json->Object_0));
                assert(decreases_to!(entries@ => entries@[i as int]));
                object_insert(&mut m, entries[i].0.clone(), to_value(&entries[i].1));
                assert(entries@.take(i + 1).drop_last() == entries@.take(i as int));
            }
            assert(entries@.take(entries.len() as int) == entries@);
            ValueNode::Object(m)
        },
    };
    close_value(node)
}

/// The value that a text is the JSON of, if it is JSON.
pub fn parse_json(text: &str) -> (r: Option<Json>)
    ensures
        match r {
            Some(json) => json_parse(text@) == Some(json.tree()),
            None => json_parse(text@) is None,
        },
{
    match read_value(text) {
        Ok(v) => Some(from_value(v)),
        Err(_) => None,
    }
}

/// The JSON text of a value.
pub fn write_json(json: &Json) -> (r: String)
    ensures
        r@ == json_text(json.tree()),
        r@.len() > 0,
        reads_back(json.tree(), MAX_READ_DEPTH as nat) ==> json_parse(r@) == Some(json.tree()),
{
    let v = to_value(json);
    write_value(&v)
}

/// A value with its outermost layer open holds what that layer shows.
pub proof fn law_open_values_hold_what_they_show(
    truth: bool,
    number: serde_json::Number,
    text: String,
    items: Vec<serde_json::Value>,
    object: serde_json::Map<String, serde_json::Value>,
)
    ensures
        ValueNode::Null.tree() == JsonTree::Null,
        ValueNode::Bool(truth).tree() == JsonTree::Bool(truth),
        ValueNode::Number(number).tree() == JsonTree::Number(number_tree(number)),
        ValueNode::Text(text).tree().text() == Some(text@),
        ValueNode::Array(items).tree().items() matches Some(held) && held.len() == items@.len()
            && forall|i: int|
            0 <= i < items@.len() ==> #[trigger] held[i] == value_tree(items@[i]),
        ValueNode::Object(object).tree() == JsonTree::Object(object_tree(object)),
{
}

/// Entries with different keys map each of their keys to its value, and no other key.
pub proof fn law_entries_map_their_keys(
    entries: Seq<(String, serde_json::Value)>,
    key: Seq<char>,
)
    requires
        forall|i: int, j: int| 0 <= i < j < entries.len() ==> entries[i].0@ != entries[j].0@,
    ensures
        forall|i: int|
            0 <= i < entries.len() ==> {
                &&& value_entries(entries).dom().contains((#[trigger] entries[i]).0@)
                &&& value_entries(entries)[entries[i].0@] == value_tree(entries[i].1)
            },
        value_entries(entries).dom().contains(key) ==> exists|i: int|
            0 <= i < entries.len() && (#[trigger] entries[i]).0@ == key,
    decreases entries.len(),
{
    lemma_value_entries(entries);
    if value_entries(entries).dom().contains(key) {
        let init = entries.drop_last();
        if key == entries.last().0@ {
            assert(entries[entries.len() - 1].0@ == key);
        } else {
            law_entries_map_their_keys(init, key);
            let i = choose|i: int| 0 <= i < init.len() && (#[trigger] init[i]).0@ == key;
            assert(entries[i].0@ == key);
        }
    }
}

} // verus!
