//! JSON values as plain data, and the calls into `serde_json` that read and write them.

use vstd::hash_map::StringHashMap;
use vstd::prelude::*;

verus! {

/// `serde_json::Number`: a number that is carried through as it is.
#[verifier::external_type_specification]
#[verifier::external_body]
pub struct ExNumber(serde_json::Number);

/// `serde_json::Value`: taken apart by `open_value` and put together by `close_value`.
#[verifier::external_type_specification]
#[verifier::external_body]
pub struct ExValue(serde_json::Value);

/// The mathematical model of a JSON value. An object is a map: the order of its keys
/// carries no meaning.
pub ghost enum JsonTree {
    Null,
    Bool(bool),
    Unsigned(u64),
    /// A negative integer.
    Signed(i64),
    /// A number that is no integer.
    Number(serde_json::Number),
    Text(Seq<char>),
    Array(Seq<JsonTree>),
    Object(Map<Seq<char>, JsonTree>),
}

/// A JSON value held as plain data.
///
/// An integer is `Unsigned` where it fits a `u64` and else `Signed`; every other number stays
/// in the form that `serde_json` gave it.
#[derive(Debug, PartialEq)]
pub enum Json {
    Null,
    Bool(bool),
    Unsigned(u64),
    Signed(i64),
    Number(serde_json::Number),
    Text(String),
    Array(Vec<Json>),
    Object(Vec<(String, Json)>),
}

/// One level of a `serde_json::Value`.
pub enum JsonNode {
    Null,
    Bool(bool),
    Number(serde_json::Number),
    Text(String),
    Array(Vec<serde_json::Value>),
    Object(Vec<(String, serde_json::Value)>),
}

/// The value that a `serde_json::Value` holds.
pub uninterp spec fn json_tree(value: serde_json::Value) -> JsonTree;

/// What `serde_json::Number::as_u64` returns.
pub uninterp spec fn number_as_u64(number: serde_json::Number) -> Option<u64>;

/// What `serde_json::Number::as_i64` returns.
pub uninterp spec fn number_as_i64(number: serde_json::Number) -> Option<i64>;

/// What `serde_json::from_str` reads a text as, `None` where it refuses the text.
pub uninterp spec fn parsed_json(text: Seq<char>) -> Option<JsonTree>;

/// What `serde_json::to_string` writes for a value: the text, or the message of its error.
pub uninterp spec fn rendered_json(tree: JsonTree) -> Result<Seq<char>, Seq<char>>;

/// The value that a number stands for.
pub open spec fn number_tree(number: serde_json::Number) -> JsonTree {
    match (number_as_u64(number), number_as_i64(number)) {
        (Some(n), _) => JsonTree::Unsigned(n),
        (None, Some(n)) => JsonTree::Signed(n),
        (None, None) => JsonTree::Number(number),
    }
}

/// The value of an integer.
pub open spec fn signed_tree(value: i64) -> JsonTree {
    if value >= 0 {
        JsonTree::Unsigned(value as u64)
    } else {
        JsonTree::Signed(value)
    }
}

/// Whether all numbers in a value are integers, and arrays and objects are nested in it no
/// deeper than `depth`.
pub open spec fn integral_within(tree: JsonTree, depth: nat) -> bool
    decreases depth,
{
    match tree {
        JsonTree::Number(_) => false,
        JsonTree::Array(items) => depth > 0 && forall|i: int|
            0 <= i < items.len() ==> integral_within(#[trigger] items[i], (depth - 1) as nat),
        JsonTree::Object(map) => depth > 0 && forall|key: Seq<char>| #[trigger]
            map.contains_key(key) ==> integral_within(map[key], (depth - 1) as nat),
        _ => true,
    }
}

/// Whether a value reads back from the text that it is written as: it holds integers only, and
/// is nested no deeper than `serde_json` reads.
pub open spec fn reads_back(tree: JsonTree) -> bool {
    integral_within(tree, 127)
}

/// The fields that a list of entries makes. Where a key occurs twice, the later entry counts.
pub open spec fn fields(entries: Seq<(Seq<char>, JsonTree)>) -> Map<Seq<char>, JsonTree>
    decreases entries.len(),
{
    if entries.len() == 0 {
        Map::empty()
    } else {
        fields(entries.drop_last()).insert(entries.last().0, entries.last().1)
    }
}

/// Whether no two entries of a list have the same key.
pub open spec fn distinct_keys(entries: Seq<(Seq<char>, JsonTree)>) -> bool {
    forall|i: int, j: int|
        0 <= i < j < entries.len() ==> (#[trigger] entries[i]).0 != (#[trigger] entries[j]).0
}

/// The items of an array of `serde_json` values.
pub open spec fn item_trees(items: Seq<serde_json::Value>) -> Seq<JsonTree> {
    Seq::new(items.len(), |i: int| json_tree(items[i]))
}

/// The entries of a list of named `serde_json` values.
pub open spec fn entry_trees(entries: Seq<(String, serde_json::Value)>) -> Seq<
    (Seq<char>, JsonTree),
> {
    Seq::new(entries.len(), |i: int| (entries[i].0@, json_tree(entries[i].1)))
}

/// The value that one level of a `serde_json::Value` stands for.
pub open spec fn node_tree(node: JsonNode) -> JsonTree {
    match node {
        JsonNode::Null => JsonTree::Null,
        JsonNode::Bool(b) => JsonTree::Bool(b),
        JsonNode::Number(n) => number_tree(n),
        JsonNode::Text(s) => JsonTree::Text(s@),
        JsonNode::Array(items) => JsonTree::Array(item_trees(items@)),
        JsonNode::Object(entries) => JsonTree::Object(fields(entry_trees(entries@))),
    }
}

/// Takes a `serde_json::Value` apart by its variants. The entries of an object are those of
/// its `serde_json::Map`, which holds no key twice.
#[verifier::external_body]
fn open_value(value: serde_json::Value) -> (node: JsonNode)
    ensures
        json_tree(value) == node_tree(node),
        node matches JsonNode::Object(entries) ==> distinct_keys(entry_trees(entries@)),
{
    match value {
        serde_json::Value::Null => JsonNode::Null,
        serde_json::Value::Bool(b) => JsonNode::Bool(b),
        serde_json::Value::Number(n) => JsonNode::Number(n),
        serde_json::Value::String(s) => JsonNode::Text(s),
        serde_json::Value::Array(items) => JsonNode::Array(items),
        serde_json::Value::Object(entries) => JsonNode::Object(entries.into_iter().collect()),
    }
}

/// Puts a `serde_json::Value` together by its variants. The entries of an object, of which no
/// two have the same key, are collected into a `serde_json::Map`.
#[verifier::external_body]
fn close_value(node: JsonNode) -> (value: serde_json::Value)
    requires
        node matches JsonNode::Object(entries) ==> distinct_keys(entry_trees(entries@)),
    ensures
        json_tree(value) == node_tree(node),
{
    match node {
        JsonNode::Null => serde_json::Value::Null,
        JsonNode::Bool(b) => serde_json::Value::Bool(b),
        JsonNode::Number(n) => serde_json::Value::Number(n),
        JsonNode::Text(s) => serde_json::Value::String(s),
        JsonNode::Array(items) => serde_json::Value::Array(items),
        JsonNode::Object(entries) => serde_json::Value::Object(entries.into_iter().collect()),
    }
}

/// `serde_json::Number::as_u64`: the number as a `u64`, where it is one.
#[verifier::external_body]
fn unsigned_of(number: &serde_json::Number) -> (value: Option<u64>)
    ensures
        value == number_as_u64(*number),
{
    number.as_u64()
}

/// `serde_json::Number::from`: the number that stands for a `u64`.
#[verifier::external_body]
fn number_of(value: u64) -> (number: serde_json::Number)
    ensures
        number_as_u64(number) == Some(value),
{
    serde_json::Number::from(value)
}

/// `serde_json::Number::as_i64`: the number as an `i64`, where it is one. One that is not
/// negative is a `u64` as well.
#[verifier::external_body]
fn signed_of(number: &serde_json::Number) -> (value: Option<i64>)
    ensures
        value == number_as_i64(*number),
        value matches Some(n) ==> (n >= 0 ==> number_as_u64(*number) == Some(n as u64)),
{
    number.as_i64()
}

/// `serde_json::Number::from`: the number that stands for an `i64`, which is a `u64` as well
/// unless it is negative.
#[verifier::external_body]
fn number_of_signed(value: i64) -> (number: serde_json::Number)
    ensures
        number_as_i64(number) == Some(value),
        number_as_u64(number) == (if value >= 0 {
            Some(value as u64)
        } else {
            None
        }),
{
    serde_json::Number::from(value)
}

/// `serde_json::from_str`: reads a text as one JSON value.
#[verifier::external_body]
fn read_value(text: &str) -> (value: Option<serde_json::Value>)
    ensures
        parsed_json(text@) == (match value {
            Some(v) => Some(json_tree(v)),
            None => None,
        }),
{
    serde_json::from_str(text).ok()
}

/// `serde_json::to_string`: writes a JSON value as text. The writing of a `Value` to a string
/// does not fail. The text is one that `serde_json::from_str` reads as the value again, where
/// all numbers in it are integers and arrays and objects are nested no deeper than that
/// function reads. Nothing is said here of the reading of other numbers, or of deeper values.
#[verifier::external_body]
fn write_value(value: &serde_json::Value) -> (text: Result<String, String>)
    ensures
        rendered_json(json_tree(*value)) == (match text {
            Ok(t) => Ok(t@),
            Err(e) => Err(e@),
        }),
        text is Ok,
        reads_back(json_tree(*value)) ==> (text matches Ok(t) ==> parsed_json(t@) == Some(
            json_tree(*value),
        )),
{
    serde_json::to_string(value).map_err(|e| e.to_string())
}

/// A list of entries makes finitely many fields.
proof fn lemma_fields_finite(entries: Seq<(Seq<char>, JsonTree)>)
    ensures
        fields(entries).dom().finite(),
    decreases entries.len(),
{
    if entries.len() > 0 {
        lemma_fields_finite(entries.drop_last());
    }
}

/// Every entry of a list without repeated keys is a field.
proof fn lemma_fields_distinct(entries: Seq<(Seq<char>, JsonTree)>, k: int)
    requires
        distinct_keys(entries),
        0 <= k < entries.len(),
    ensures
        fields(entries).contains_key(entries[k].0),
        fields(entries)[entries[k].0] == entries[k].1,
        fields(entries).dom().finite(),
    decreases entries.len(),
{
    lemma_fields_finite(entries);
    if k < entries.len() - 1 {
        lemma_fields_distinct(entries.drop_last(), k);
        assert(entries.drop_last()[k] == entries[k]);
    }
}

/// Giving a field another value where it stands is as good as adding it behind all others.
proof fn lemma_fields_replaced(
    entries: Seq<(Seq<char>, JsonTree)>,
    k: int,
    key: Seq<char>,
    tree: JsonTree,
)
    requires
        distinct_keys(entries),
        0 <= k < entries.len(),
        entries[k].0 == key,
    ensures
        fields(entries.update(k, (key, tree))) == fields(entries).insert(key, tree),
    decreases entries.len(),
{
    let before = entries.drop_last();
    let replaced = entries.update(k, (key, tree));
    if k < entries.len() - 1 {
        assert(replaced.drop_last() =~= before.update(k, (key, tree)));
        lemma_fields_replaced(before, k, key, tree);
        assert(entries[k].0 != entries[entries.len() - 1].0);
    } else {
        assert(replaced.drop_last() =~= before);
    }
    assert(fields(replaced) =~= fields(entries).insert(key, tree));
}

/// An array is larger than each of its items.
proof fn lemma_item_smaller(tree: JsonTree, items: Seq<JsonTree>, i: int)
    requires
        tree == JsonTree::Array(items),
        0 <= i < items.len(),
    ensures
        decreases_to!(tree => items[i]),
{
    assert(decreases_to!(tree => tree->Array_0));
    assert(decreases_to!(tree->Array_0 => tree->Array_0[i]));
}

/// An object is larger than each of its fields.
proof fn lemma_field_smaller(tree: JsonTree, map: Map<Seq<char>, JsonTree>, key: Seq<char>)
    requires
        tree == JsonTree::Object(map),
        map.dom().finite(),
        map.contains_key(key),
    ensures
        decreases_to!(tree => map[key]),
{
    assert(decreases_to!(tree => tree->Object_0));
    assert(decreases_to!(tree->Object_0 => tree->Object_0[key]));
}

/// The values that a list of items stands for.
pub open spec fn trees_of(items: Seq<Json>) -> Seq<JsonTree>
    decreases items,
{
    Seq::new(
        items.len(),
        |i: int|
            if 0 <= i < items.len() {
                items[i].tree()
            } else {
                JsonTree::Null
            },
    )
}

/// The named values that a list of entries stands for.
pub open spec fn named_trees_of(entries: Seq<(String, Json)>) -> Seq<(Seq<char>, JsonTree)>
    decreases entries,
{
    Seq::new(
        entries.len(),
        |i: int|
            if 0 <= i < entries.len() {
                (entries[i].0@, entries[i].1.tree())
            } else {
                (Seq::empty(), JsonTree::Null)
            },
    )
}

impl Json {
    /// The value that this data stands for.
    pub open spec fn tree(&self) -> JsonTree
        decreases self,
    {
        match self {
            Json::Null => JsonTree::Null,
            Json::Bool(b) => JsonTree::Bool(*b),
            Json::Unsigned(n) => JsonTree::Unsigned(*n),
            Json::Signed(n) => signed_tree(*n),
            Json::Number(n) => number_tree(*n),
            Json::Text(s) => JsonTree::Text(s@),
            Json::Array(items) => JsonTree::Array(trees_of(items@)),
            Json::Object(entries) => JsonTree::Object(fields(named_trees_of(entries@))),
        }
    }

    /// Turns a `serde_json` value into plain data.
    pub fn from_value(value: serde_json::Value) -> (json: Json)
        ensures
            json.tree() == json_tree(value),
        decreases json_tree(value),
    {
        match open_value(value) {
            JsonNode::Null => Json::Null,
            JsonNode::Bool(b) => Json::Bool(b),
            JsonNode::Number(n) => match unsigned_of(&n) {
                Some(u) => Json::Unsigned(u),
                None => match signed_of(&n) {
                    Some(i) => {
                        assert(json_tree(value) == number_tree(n));
                        Json::Signed(i)
                    },
                    None => Json::Number(n),
                },
            },
            JsonNode::Text(s) => Json::Text(s),
            JsonNode::Array(items) => {
                let ghost trees = item_trees(items@);
                let mut out: Vec<Json> = Vec::new();
                for item in it: items
                    invariant
                        it.seq() == items@,
                        json_tree(value) == JsonTree::Array(trees),
                        trees == item_trees(items@),
                        out@.len() == it.index(),
                        forall|i: int| 0 <= i < out@.len() ==> (#[trigger] out@[i]).tree() == trees[i],
                {
                    proof {
                        lemma_item_smaller(json_tree(value), trees, it.index());
                    }
                    out.push(Json::from_value(item));
                }
                let json = Json::Array(out);
                assert(trees_of(out@) =~= trees);
                json
            },
            JsonNode::Object(entries) => {
                let ghost trees = entry_trees(entries@);
                let mut out: Vec<(String, Json)> = Vec::new();
                for entry in it: entries
                    invariant
                        it.seq() == entries@,
                        json_tree(value) == JsonTree::Object(fields(trees)),
                        trees == entry_trees(entries@),
                        distinct_keys(trees),
                        out@.len() == it.index(),
                        forall|i: int|
                            0 <= i < out@.len() ==> (#[trigger] out@[i]).0@ == trees[i].0
                                && out@[i].1.tree() == trees[i].1,
                {
                    proof {
                        lemma_fields_distinct(trees, it.index());
                        lemma_field_smaller(json_tree(value), fields(trees), trees[it.index()].0);
                    }
                    let (key, item) = entry;
                    out.push((key, Json::from_value(item)));
                }
                let json = Json::Object(out);
                assert(named_trees_of(out@) =~= trees);
                json
            },
        }
    }

    /// Turns plain data into a `serde_json` value.
    pub fn into_value(self) -> (value: serde_json::Value)
        ensures
            json_tree(value) == self.tree(),
        decreases self,
    {
        match self {
            Json::Null => close_value(JsonNode::Null),
            Json::Bool(b) => close_value(JsonNode::Bool(b)),
            Json::Unsigned(n) => close_value(JsonNode::Number(number_of(n))),
            Json::Signed(n) => close_value(JsonNode::Number(number_of_signed(n))),
            Json::Number(n) => close_value(JsonNode::Number(n)),
            Json::Text(s) => close_value(JsonNode::Text(s)),
            Json::Array(items) => {
                let mut out: Vec<serde_json::Value> = Vec::new();
                for item in it: items
                    invariant
                        it.seq() == items@,
                        self == Json::Array(items),
                        out@.len() == it.index(),
                        forall|i: int|
                            0 <= i < out@.len() ==> json_tree(#[trigger] out@[i])
                                == items@[i].tree(),
                {
                    assert(decreases_to!(self => self->Array_0));
                    assert(decreases_to!(items => items@));
                    assert(decreases_to!(items@ => items@[it.index()]));
                    out.push(item.into_value());
                }
                assert(item_trees(out@) =~= trees_of(items@));
                close_value(JsonNode::Array(out))
            },
            Json::Object(entries) => {
                let mut out: Vec<(String, serde_json::Value)> = Vec::new();
                let mut positions: StringHashMap<usize> = StringHashMap::new();
                let ghost trees = named_trees_of(entries@);
                assert(fields(entry_trees(out@)) =~= fields(trees.take(0)));
                for entry in it: entries
                    invariant
                        it.seq() == entries@,
                        self == Json::Object(entries),
                        trees == named_trees_of(entries@),
                        forall|i: int|
                            0 <= i < out@.len() ==> positions@.contains_key(
                                (#[trigger] out@[i]).0@,
                            ) && positions@[out@[i].0@] == i,
                        forall|key: Seq<char>| #[trigger]
                            positions@.contains_key(key) ==> positions@[key] < out@.len()
                                && out@[positions@[key] as int].0@ == key,
                        fields(entry_trees(out@)) == fields(trees.take(it.index())),
                {
                    assert(decreases_to!(self => self->Object_0));
                    assert(decreases_to!(entries => entries@));
                    assert(decreases_to!(entries@ => entries@[it.index()]));
                    assert(decreases_to!(entries@[it.index()] => entries@[it.index()].1));
                    let (key, item) = entry;
                    let value = item.into_value();
                    let ghost before = entry_trees(out@);
                    let ghost now = trees.take(it.index() + 1);
                    assert(now.drop_last() =~= trees.take(it.index()));
                    assert(now.last() == (key@, json_tree(value)));
                    assert(distinct_keys(before));
                    match positions.get(key.as_str()) {
                        Some(position) => {
                            let position: usize = *position;
                            proof {
                                lemma_fields_replaced(
                                    before,
                                    position as int,
                                    key@,
                                    json_tree(value),
                                );
                            }
                            out.set(position, (key, value));
                            assert(entry_trees(out@) =~= before.update(
                                position as int,
                                (key@, json_tree(value)),
                            ));
                        },
                        None => {
                            positions.insert(key.clone(), out.len());
                            out.push((key, value));
                            assert(entry_trees(out@) =~= before.push((key@, json_tree(value))));
                            assert(entry_trees(out@).drop_last() =~= before);
                        },
                    }
                }
                assert(trees.take(trees.len() as int) =~= trees);
                assert(distinct_keys(entry_trees(out@)));
                close_value(JsonNode::Object(out))
            },
        }
    }

    /// Reads a text as one JSON value.
    pub fn parse(text: &str) -> (json: Option<Json>)
        ensures
            parsed_json(text@) == (match json {
                Some(j) => Some(j.tree()),
                None => None,
            }),
    {
        match read_value(text) {
            Some(value) => Some(Json::from_value(value)),
            None => None,
        }
    }

    /// Writes this value as compact text.
    pub fn render(self) -> (text: Result<String, String>)
        ensures
            rendered_json(self.tree()) == (match text {
                Ok(t) => Ok(t@),
                Err(e) => Err(e@),
            }),
            text is Ok,
            reads_back(self.tree()) ==> (text matches Ok(t) ==> parsed_json(t@) == Some(
                self.tree(),
            )),
    {
        let value = self.into_value();
        write_value(&value)
    }
}

/// Of the entries with one key, the last one is the field.
pub proof fn law_the_last_entry_of_a_key_counts(entries: Seq<(Seq<char>, JsonTree)>, k: int)
    requires
        0 <= k < entries.len(),
        forall|j: int| k < j < entries.len() ==> (#[trigger] entries[j]).0 != entries[k].0,
    ensures
        fields(entries).contains_key(entries[k].0),
        fields(entries)[entries[k].0] == entries[k].1,
    decreases entries.len(),
{
    if k < entries.len() - 1 {
        assert(entries[entries.len() - 1].0 != entries[k].0);
        assert(entries.drop_last()[k] == entries[k]);
        law_the_last_entry_of_a_key_counts(entries.drop_last(), k);
    }
}

/// The fields are those that have an entry, and no others.
pub proof fn law_every_field_has_an_entry(entries: Seq<(Seq<char>, JsonTree)>, key: Seq<char>)
    ensures
        fields(entries).contains_key(key) <==> exists|k: int|
            0 <= k < entries.len() && (#[trigger] entries[k]).0 == key,
    decreases entries.len(),
{
    if entries.len() > 0 {
        let before = entries.drop_last();
        law_every_field_has_an_entry(before, key);
        if fields(before).contains_key(key) {
            let k = choose|k: int| 0 <= k < before.len() && (#[trigger] before[k]).0 == key;
            assert(entries[k].0 == key);
        }
        if entries.last().0 == key {
            assert(entries[entries.len() - 1].0 == key);
        }
        if exists|k: int| 0 <= k < entries.len() && (#[trigger] entries[k]).0 == key {
            let k = choose|k: int| 0 <= k < entries.len() && (#[trigger] entries[k]).0 == key;
            if k < entries.len() - 1 {
                assert(before[k].0 == key);
            }
        }
    }
}

/// Plain data stands for the value that it spells out: a number, a text or a truth value for
/// itself, an array for its items in their order, an object for its entries by their keys, of
/// which the last one with a key counts.
pub proof fn law_data_stands_for_what_it_spells_out(json: Json)
    ensures
        json is Null <==> json.tree() is Null,
        json matches Json::Bool(b) ==> json.tree() == JsonTree::Bool(b),
        json matches Json::Unsigned(n) ==> json.tree() == JsonTree::Unsigned(n),
        json matches Json::Signed(n) ==> (n >= 0 ==> json.tree() == JsonTree::Unsigned(n as u64)),
        json matches Json::Signed(n) ==> (n < 0 ==> json.tree() == JsonTree::Signed(n)),
        json matches Json::Text(s) ==> json.tree() == JsonTree::Text(s@),
        json matches Json::Array(items) ==> {
            &&& json.tree() is Array
            &&& json.tree()->Array_0.len() == items@.len()
            &&& forall|i: int|
                0 <= i < items@.len() ==> #[trigger] json.tree()->Array_0[i] == items@[i].tree()
        },
        json matches Json::Object(entries) ==> {
            &&& json.tree() is Object
            &&& forall|k: int|
                0 <= k < entries@.len() && (forall|j: int|
                    k < j < entries@.len() ==> (#[trigger] entries@[j]).0@ != entries@[k].0@)
                    ==> json.tree()->Object_0.contains_key((#[trigger] entries@[k]).0@)
                    && json.tree()->Object_0[entries@[k].0@] == entries@[k].1.tree()
            &&& forall|key: Seq<char>| #[trigger]
                json.tree()->Object_0.contains_key(key) ==> exists|k: int|
                    0 <= k < entries@.len() && (#[trigger] entries@[k]).0@ == key
        },
{
    match json {
        Json::Object(entries) => {
            let named = named_trees_of(entries@);
            assert forall|k: int|
                0 <= k < entries@.len() && (forall|j: int|
                    k < j < entries@.len() ==> (#[trigger] entries@[j]).0@
                        != entries@[k].0@) implies json.tree()->Object_0.contains_key(
                (#[trigger] entries@[k]).0@,
            ) && json.tree()->Object_0[entries@[k].0@] == entries@[k].1.tree() by {
                assert forall|j: int| k < j < named.len() implies (#[trigger] named[j]).0
                    != named[k].0 by {
                    assert(entries@[j].0@ != entries@[k].0@);
                }
                law_the_last_entry_of_a_key_counts(named, k);
            }
            assert forall|key: Seq<char>| #[trigger]
                json.tree()->Object_0.contains_key(key) implies exists|k: int|
                0 <= k < entries@.len() && (#[trigger] entries@[k]).0@ == key by {
                law_every_field_has_an_entry(named, key);
                let k = choose|k: int| 0 <= k < named.len() && (#[trigger] named[k]).0 == key;
                assert(entries@[k].0@ == key);
            }
        },
        _ => {},
    }
}

/// Which values are known to read back: a text, a truth value, null and an integer always; an
/// array or an object where all that it holds does, one level less deep; a number that is no
/// integer never.
pub proof fn law_what_reads_back(tree: JsonTree, depth: nat)
    ensures
        reads_back(tree) == integral_within(tree, 127),
        tree is Null || tree is Bool || tree is Unsigned || tree is Signed || tree is Text
            ==> integral_within(tree, depth),
        tree is Number ==> !integral_within(tree, depth),
        tree matches JsonTree::Array(items) ==> {
            &&& !integral_within(tree, 0)
            &&& integral_within(tree, depth + 1) <==> forall|i: int|
                0 <= i < items.len() ==> integral_within(#[trigger] items[i], depth)
        },
        tree matches JsonTree::Object(map) ==> {
            &&& !integral_within(tree, 0)
            &&& integral_within(tree, depth + 1) <==> forall|key: Seq<char>| #[trigger]
                map.contains_key(key) ==> integral_within(map[key], depth)
        },
{
    assert((depth + 1 - 1) as nat == depth);
}

/// One level of a value stands for what it spells out. A number that fits into 64 bits is an
/// integer, and one without a sign where it fits both ways.
pub proof fn law_one_level_stands_for_what_it_spells_out(node: JsonNode, k: int)
    ensures
        node is Null <==> node_tree(node) is Null,
        node matches JsonNode::Bool(b) ==> node_tree(node) == JsonTree::Bool(b),
        node matches JsonNode::Number(n) ==> match number_as_u64(n) {
            Some(unsigned) => node_tree(node) == JsonTree::Unsigned(unsigned),
            None => match number_as_i64(n) {
                Some(signed) => node_tree(node) == JsonTree::Signed(signed),
                None => node_tree(node) == JsonTree::Number(n),
            },
        },
        node matches JsonNode::Text(s) ==> node_tree(node) == JsonTree::Text(s@),
        node matches JsonNode::Array(items) ==> {
            &&& node_tree(node) is Array
            &&& node_tree(node)->Array_0.len() == items@.len()
            &&& 0 <= k < items@.len() ==> node_tree(node)->Array_0[k] == json_tree(items@[k])
        },
        node matches JsonNode::Object(entries) ==> {
            &&& node_tree(node) is Object
            &&& 0 <= k < entries@.len() && (forall|j: int|
                k < j < entries@.len() ==> (#[trigger] entries@[j]).0@ != entries@[k].0@)
                ==> node_tree(node)->Object_0.contains_key(entries@[k].0@)
                && node_tree(node)->Object_0[entries@[k].0@] == json_tree(entries@[k].1)
            &&& forall|key: Seq<char>| #[trigger]
                node_tree(node)->Object_0.contains_key(key) ==> exists|i: int|
                    0 <= i < entries@.len() && (#[trigger] entries@[i]).0@ == key
        },
{
    match node {
        JsonNode::Object(entries) => {
            let named = entry_trees(entries@);
            if 0 <= k < entries@.len() && (forall|j: int|
                k < j < entries@.len() ==> (#[trigger] entries@[j]).0@ != entries@[k].0@) {
                assert forall|j: int| k < j < named.len() implies (#[trigger] named[j]).0
                    != named[k].0 by {
                    assert(entries@[j].0@ != entries@[k].0@);
                }
                law_the_last_entry_of_a_key_counts(named, k);
            }
            assert forall|key: Seq<char>| #[trigger]
                node_tree(node)->Object_0.contains_key(key) implies exists|i: int|
                0 <= i < entries@.len() && (#[trigger] entries@[i]).0@ == key by {
                law_every_field_has_an_entry(named, key);
                let i = choose|i: int| 0 <= i < named.len() && (#[trigger] named[i]).0 == key;
                assert(entries@[i].0@ == key);
            }
        },
        _ => {},
    }
}

} // verus!
