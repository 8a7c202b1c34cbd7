//! JSON documents as plain values.

use vstd::prelude::*;

use crate::text;

verus! {

/// A JSON value. Where an object names a key twice, the later entry counts.
#[derive(Debug, PartialEq, Eq)]
pub enum Json {
    Null,
    Bool(bool),
    /// The number as it is written in JSON.
    Number(String),
    Text(String),
    Array(Vec<Json>),
    Object(Vec<(String, Json)>),
}

/// What a JSON value says.
pub enum JsonView {
    Null,
    Bool(bool),
    Number(Seq<char>),
    Text(Seq<char>),
    Array(Seq<JsonView>),
    Object(Map<Seq<char>, JsonView>),
}

/// What the value `j` says.
pub open spec fn meaning(j: Json) -> JsonView
    decreases j,
{
    match j {
        Json::Null => JsonView::Null,
        Json::Bool(b) => JsonView::Bool(b),
        Json::Number(n) => JsonView::Number(n@),
        Json::Text(t) => JsonView::Text(t@),
        Json::Array(items) => JsonView::Array(meanings(items@)),
        Json::Object(entries) => JsonView::Object(entry_map(entries@)),
    }
}

/// What each of `items` says.
pub open spec fn meanings(items: Seq<Json>) -> Seq<JsonView>
    decreases items,
{
    if items.len() == 0 {
        Seq::empty()
    } else {
        meanings(items.drop_last()).push(meaning(items.last()))
    }
}

/// The keys of `entries`, each with what its last value says.
pub open spec fn entry_map(entries: Seq<(String, Json)>) -> Map<Seq<char>, JsonView>
    decreases entries,
{
    if entries.len() == 0 {
        Map::empty()
    } else {
        entry_map(entries.drop_last()).insert(entries.last().0@, meaning(entries.last().1))
    }
}

impl View for Json {
    type V = JsonView;

    open spec fn view(&self) -> JsonView {
        meaning(*self)
    }
}

impl JsonView {
    /// The value under `key`; only an object has any.
    pub open spec fn at(self, key: Seq<char>) -> Option<JsonView> {
        match self {
            JsonView::Object(m) => if m.contains_key(key) {
                Some(m[key])
            } else {
                None
            },
            _ => None,
        }
    }

    /// The text of a JSON string.
    pub open spec fn as_text(self) -> Option<Seq<char>> {
        match self {
            JsonView::Text(t) => Some(t),
            _ => None,
        }
    }

    /// A JSON number that is a natural number of 32 bits.
    pub open spec fn as_u32(self) -> Option<u32> {
        match self {
            JsonView::Number(s) => match text::natural(s) {
                Some(n) => if n <= u32::MAX {
                    Some(n as u32)
                } else {
                    None
                },
                None => None,
            },
            _ => None,
        }
    }

    /// The value of the field `key` of a record of which no other field counts: the value
    /// under that key of an object, or the only item of a list.
    pub open spec fn only_field(self, key: Seq<char>) -> Option<JsonView> {
        match self {
            JsonView::Array(items) => if items.len() == 1 {
                Some(items[0])
            } else {
                None
            },
            _ => self.at(key),
        }
    }
}

/// One more entry of an object adds its key, or gives it another value.
pub proof fn entry_map_grows(entries: Seq<(String, Json)>, entry: (String, Json))
    ensures
        entry_map(entries.push(entry)) == entry_map(entries).insert(entry.0@, entry.1@),
{
    assert(entries.push(entry).drop_last() == entries);
    reveal_with_fuel(entry_map, 2);
    reveal_with_fuel(meaning, 2);
    assert(entry_map(entries.push(entry)) == entry_map(entries).insert(
        entry.0@,
        meaning(entry.1),
    ));
}

/// One more item of an array.
pub proof fn meanings_grow(items: Seq<Json>, item: Json)
    ensures
        meanings(items.push(item)) == meanings(items).push(item@),
{
    assert(items.push(item).drop_last() == items);
    reveal_with_fuel(meanings, 2);
    reveal_with_fuel(meaning, 2);
}

proof fn meanings_len(items: Seq<Json>)
    ensures
        meanings(items).len() == items.len(),
    decreases items.len(),
{
    if items.len() > 0 {
        meanings_len(items.drop_last());
    }
}

proof fn entry_map_skips(entries: Seq<(String, Json)>, i: int, key: Seq<char>)
    requires
        0 <= i < entries.len(),
        entries[i].0@ != key,
    ensures
        entry_map(entries.take(i + 1)).contains_key(key) == entry_map(entries.take(i)).contains_key(
            key,
        ),
        entry_map(entries.take(i)).contains_key(key) ==> entry_map(entries.take(i + 1))[key]
            == entry_map(entries.take(i))[key],
{
    assert(entries.take(i + 1).drop_last() == entries.take(i));
    assert(entries.take(i + 1).last() == entries[i]);
}

impl Json {
    /// The value under `key`; only an object has any.
    pub fn get(&self, key: &str) -> (r: Option<&Json>)
        ensures
            match r {
                Some(v) => self@.at(key@) == Some(v@),
                None => self@.at(key@) is None,
            },
    {
        match self {
            Json::Object(entries) => {
                let mut i: usize = entries.len();
                assert(entries@.take(i as int) == entries@);
                while i > 0
                    invariant
                        i <= entries@.len(),
                        self@ == JsonView::Object(entry_map(entries@)),
                        entry_map(entries@).contains_key(key@) == entry_map(
                            entries@.take(i as int),
                        ).contains_key(key@),
                        entry_map(entries@).contains_key(key@) ==> entry_map(entries@)[key@]
                            == entry_map(entries@.take(i as int))[key@],
                    decreases i,
                {
                    if text::same(entries[i - 1].0.as_str(), key) {
                        assert(entries@.take(i as int).drop_last() == entries@.take(i - 1));
                        assert(entries@.take(i as int).last() == entries@[i - 1]);
                        return Some(&entries[i - 1].1);
                    }
                    proof {
                        entry_map_skips(entries@, i - 1, key@);
                    }
                    i = i - 1;
                }
                None
            },
            _ => None,
        }
    }

    /// The text of a JSON string.
    pub fn as_str(&self) -> (r: Option<&str>)
        ensures
            match r {
                Some(t) => self@.as_text() == Some(t@),
                None => self@.as_text() is None,
            },
    {
        match self {
            Json::Text(t) => Some(t.as_str()),
            _ => None,
        }
    }

    /// A JSON number that is a natural number of 32 bits.
    pub fn as_u32(&self) -> (r: Option<u32>)
        ensures
            r == self@.as_u32(),
    {
        match self {
            Json::Number(n) => text::read_u32(n.as_str()),
            _ => None,
        }
    }

    /// The value of the field `key` of a record of which no other field counts: the value
    /// under that key of an object, or the only item of a list.
    pub fn only_field(&self, key: &str) -> (r: Option<&Json>)
        ensures
            match r {
                Some(v) => self@.only_field(key@) == Some(v@),
                None => self@.only_field(key@) is None,
            },
    {
        match self {
            Json::Array(items) => {
                proof {
                    meanings_len(items@);
                }
                if items.len() == 1 {
                    proof {
                        reveal_with_fuel(meanings, 2);
                        assert(meanings(items@)[0] == meaning(items@[0]));
                    }
                    Some(&items[0])
                } else {
                    None
                }
            },
            _ => self.get(key),
        }
    }
}

impl JsonView {
    /// A natural number.
    pub open spec fn of_number(n: nat) -> JsonView {
        JsonView::Number(text::decimal(n))
    }
}

impl Json {
    /// The empty object.
    pub fn object() -> (r: Json)
        ensures
            r@ == JsonView::Object(Map::empty()),
    {
        let entries: Vec<(String, Json)> = Vec::new();
        assert(entry_map(entries@) == Map::<Seq<char>, JsonView>::empty());
        Json::Object(entries)
    }

    /// This object with one more entry; any other value is left as it is.
    pub fn with(self, key: &str, value: Json) -> (r: Json)
        ensures
            r@ == match self@ {
                JsonView::Object(m) => JsonView::Object(m.insert(key@, value@)),
                other => other,
            },
    {
        match self {
            Json::Object(entries) => {
                let ghost before = entries@;
                let mut entries = entries;
                entries.push((key.to_string(), value));
                proof {
                    entry_map_grows(before, entries@[entries@.len() - 1]);
                    assert(entries@ == before.push(entries@[entries@.len() - 1]));
                }
                Json::Object(entries)
            },
            other => other,
        }
    }

    /// A text.
    pub fn text(t: &str) -> (r: Json)
        ensures
            r@ == JsonView::Text(t@),
    {
        Json::Text(t.to_string())
    }

    /// A natural number.
    pub fn number(n: u64) -> (r: Json)
        ensures
            r@ == JsonView::of_number(n as nat),
    {
        Json::Number(text::decimal_text(n))
    }
}

impl Json {
    /// A value that says the same.
    pub fn copy(&self) -> (r: Json)
        ensures
            r@ == self@,
        decreases self,
    {
        match self {
            Json::Null => Json::Null,
            Json::Bool(b) => Json::Bool(*b),
            Json::Number(n) => Json::Number(n.clone()),
            Json::Text(t) => Json::Text(t.clone()),
            Json::Array(items) => {
                let mut out: Vec<Json> = Vec::new();
                let mut i: usize = 0;
                while i < items.len()
                    invariant
                        i <= items@.len(),
                        *self == Json::Array(*items),
                        meanings(out@) == meanings(items@.take(i as int)),
                    decreases items@.len() - i,
                {
                    let ghost before = out@;
                    assert(decreases_to!(self => self->Array_0));
                    assert(decreases_to!(items => items[i as int]));
                    out.push(items[i].copy());
                    assert(out@.drop_last() == before);
                    assert(items@.take(i + 1).drop_last() == items@.take(i as int));
                    i = i + 1;
                }
                assert(items@.take(items@.len() as int) == items@);
                Json::Array(out)
            },
            Json::Object(entries) => {
                let mut out: Vec<(String, Json)> = Vec::new();
                let mut i: usize = 0;
                while i < entries.len()
                    invariant
                        i <= entries@.len(),
                        *self == Json::Object(*entries),
                        entry_map(out@) == entry_map(entries@.take(i as int)),
                    decreases entries@.len() - i,
                {
                    let ghost before = out@;
                    let entry = &entries[i];
                    assert(decreases_to!(self => self->Object_0));
                    assert(decreases_to!(entries => entries[i as int]));
                    assert(decreases_to!(entry => entry.1));
                    out.push((entry.0.clone(), entry.1.copy()));
                    assert(out@.drop_last() == before);
                    assert(entries@.take(i + 1).drop_last() == entries@.take(i as int));
                    i = i + 1;
                }
                assert(entries@.take(entries@.len() as int) == entries@);
                Json::Object(out)
            },
        }
    }
}

/// A value of serde_json.
#[verifier::external_type_specification]
#[verifier::external_body]
pub struct ExValue(serde_json::Value);

/// Why serde_json refused a document.
#[verifier::external_type_specification]
#[verifier::external_body]
pub struct ExJsonError(serde_json::Error);

/// What a value of serde_json holds.
pub uninterp spec fn json_contents(value: serde_json::Value) -> JsonView;

/// The document that serde_json reads from `bytes`, where it reads one.
pub uninterp spec fn json_document(bytes: Seq<u8>) -> Option<JsonView>;

/// One level of a value of serde_json.
enum Node {
    Null,
    Bool(bool),
    Number(String),
    Text(String),
    Array(Vec<serde_json::Value>),
    Object(Vec<(String, serde_json::Value)>),
}

/// The keys of `entries`, each with what its last value holds.
spec fn held(entries: Seq<(String, serde_json::Value)>) -> Map<Seq<char>, JsonView>
    decreases entries.len(),
{
    if entries.len() == 0 {
        Map::empty()
    } else {
        held(entries.drop_last()).insert(entries.last().0@, json_contents(entries.last().1))
    }
}

/// No key occurs twice.
spec fn distinct_keys(entries: Seq<(String, serde_json::Value)>) -> bool {
    forall|i: int, j: int|
        0 <= i < j < entries.len() ==> #[trigger] entries[i].0@ != #[trigger] entries[j].0@
}

proof fn each_is_held(entries: Seq<(String, serde_json::Value)>, i: int)
    requires
        distinct_keys(entries),
        0 <= i < entries.len(),
    ensures
        held(entries).contains_key(entries[i].0@),
        held(entries)[entries[i].0@] == json_contents(entries[i].1),
    decreases entries.len(),
{
    if i < entries.len() - 1 {
        let front = entries.drop_last();
        assert(distinct_keys(front)) by {
            assert forall|a: int, b: int| 0 <= a < b < front.len() implies #[trigger] front[a].0@
                != #[trigger] front[b].0@ by {
                assert(entries[a].0@ != entries[b].0@);
            }
        }
        each_is_held(front, i);
        assert(entries[i].0@ != entries[entries.len() - 1].0@);
    }
}

proof fn held_is_finite(entries: Seq<(String, serde_json::Value)>)
    ensures
        held(entries).dom().finite(),
    decreases entries.len(),
{
    if entries.len() > 0 {
        held_is_finite(entries.drop_last());
    }
}

/// What one level says, given what the values below it hold.
spec fn level(node: Node) -> JsonView {
    match node {
        Node::Null => JsonView::Null,
        Node::Bool(b) => JsonView::Bool(b),
        Node::Number(n) => JsonView::Number(n@),
        Node::Text(t) => JsonView::Text(t@),
        Node::Array(items) => JsonView::Array(
            items@.map_values(|v: serde_json::Value| json_contents(v)),
        ),
        Node::Object(entries) => JsonView::Object(held(entries@)),
    }
}

/// `serde_json::from_slice`, read as a `serde_json::Value`: it reads one JSON document,
/// unless that is nested too deeply. Whether it does, and what it returns, depends on the
/// bytes alone.
#[verifier::external_body]
fn read_value(bytes: &[u8]) -> (r: Result<serde_json::Value, serde_json::Error>)
    ensures
        match r {
            Ok(v) => json_document(bytes@) == Some(json_contents(v)),
            Err(_) => json_document(bytes@) is None,
        },
{
    serde_json::from_slice(bytes)
}

/// `serde_json::Value` is an enum; this tells its variants apart. A number is
/// written out as JSON writes it, and an object is handed out entry by entry, each
/// key once.
#[verifier::external_body]
fn open_value(value: serde_json::Value) -> (node: Node)
    ensures
        level(node) == json_contents(value),
        node matches Node::Object(entries) ==> distinct_keys(entries@),
{
    match value {
        serde_json::Value::Null => Node::Null,
        serde_json::Value::Bool(b) => Node::Bool(b),
        serde_json::Value::Number(n) => Node::Number(n.to_string()),
        serde_json::Value::String(t) => Node::Text(t),
        serde_json::Value::Array(items) => Node::Array(items),
        serde_json::Value::Object(entries) => Node::Object(entries.into_iter().collect()),
    }
}

fn from_value(value: serde_json::Value) -> (j: Json)
    ensures
        j@ == json_contents(value),
    decreases json_contents(value),
{
    let ghost whole = json_contents(value);
    match open_value(value) {
        Node::Null => Json::Null,
        Node::Bool(b) => Json::Bool(b),
        Node::Number(n) => Json::Number(n),
        Node::Text(t) => Json::Text(t),
        Node::Array(items) => {
            let ghost held_items = items@.map_values(|v: serde_json::Value| json_contents(v));
            let mut out: Vec<Json> = Vec::new();
            for item in it: items
                invariant
                    whole == JsonView::Array(held_items),
                    held_items == it.seq().map_values(|v: serde_json::Value| json_contents(v)),
                    meanings(out@) == held_items.take(it.index() as int),
                    whole == json_contents(value),
            {
                assert(held_items[it.index() as int] == json_contents(item));
                assert(decreases_to!(whole => whole->Array_0));
                assert(decreases_to!(held_items => held_items[it.index() as int]));
                let ghost before = out@;
                let next = from_value(item);
                out.push(next);
                assert(out@.drop_last() == before);
                assert(held_items.take(it.index() + 1) == held_items.take(it.index() as int).push(
                    held_items[it.index() as int],
                ));
            }
            assert(held_items.take(held_items.len() as int) == held_items);
            Json::Array(out)
        },
        Node::Object(entries) => {
            let ghost all = entries@;
            let mut out: Vec<(String, Json)> = Vec::new();
            for entry in it: entries
                invariant
                    whole == JsonView::Object(held(all)),
                    all == it.seq(),
                    distinct_keys(all),
                    entry_map(out@) == held(all.take(it.index() as int)),
                    whole == json_contents(value),
            {
                let ghost i = it.index() as int;
                let ghost before = out@;
                proof {
                    each_is_held(all, i);
                    let key = all[i].0@;
                    assert(decreases_to!(whole => whole->Object_0));
                    held_is_finite(all);
                    assert(decreases_to!(held(all) => held(all)[key]));
                }
                let next = from_value(entry.1);
                out.push((entry.0, next));
                assert(out@.drop_last() == before);
                assert(all.take(i + 1).drop_last() == all.take(i));
            }
            assert(all.take(all.len() as int) == all);
            Json::Object(out)
        },
    }
}

/// Reads a JSON document.
pub fn parse(bytes: &[u8]) -> (r: Result<Json, serde_json::Error>)
    ensures
        match r {
            Ok(j) => json_document(bytes@) == Some(j@),
            Err(_) => json_document(bytes@) is None,
        },
{
    match read_value(bytes) {
        Ok(value) => Ok(from_value(value)),
        Err(e) => Err(e),
    }
}

} // verus!
