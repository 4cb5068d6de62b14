//! JSON values for configuration files, rendered by `jzon`.
use vstd::prelude::*;
use crate::text::str_eq;

verus! {

#[verifier::external_type_specification]
#[verifier::external_body]
pub struct ExJzonValue(jzon::JsonValue);

#[verifier::external_type_specification]
#[verifier::external_body]
pub struct ExJzonNumber(jzon::number::Number);

/// A JSON value.
#[derive(Debug)]
pub enum Json {
    Bool(bool),
    /// A whole number.
    UInt(u64),
    /// Any other number, as `jzon` holds it.
    Number(jzon::number::Number),
    Str(String),
    Array(Vec<Json>),
    /// The entries of an object, in order; no key occurs twice.
    Object(Vec<(String, Json)>),
}

/// What a JSON value holds, with strings as character sequences.
pub enum JsonView {
    Bool(bool),
    UInt(u64),
    Number(jzon::number::Number),
    Str(Seq<char>),
    Array(Seq<JsonView>),
    Object(Seq<(Seq<char>, JsonView)>),
}

impl Json {
    /// What this value holds.
    pub open spec fn view_of(self) -> JsonView
        decreases self,
    {
        match self {
            Json::Bool(b) => JsonView::Bool(b),
            Json::UInt(n) => JsonView::UInt(n),
            Json::Number(n) => JsonView::Number(n),
            Json::Str(s) => JsonView::Str(s@),
            Json::Array(v) => JsonView::Array(Seq::new(v@.len(), |i: int| if 0 <= i < v@.len() { v@[i].view_of() } else { JsonView::Bool(false) })),
            Json::Object(v) => JsonView::Object(Seq::new(v@.len(), |i: int| if 0 <= i < v@.len() { (v@[i].0@, v@[i].1.view_of()) } else { (Seq::empty(), JsonView::Bool(false)) })),
        }
    }
}

/// The view of an array is the array of its items' views.
pub proof fn lemma_array_view(items: Vec<Json>)
    ensures
        Json::Array(items).view_of() == JsonView::Array(Seq::new(items@.len(), |i: int| items@[i].view_of())),
{
    let target = Seq::new(items@.len(), |i: int| items@[i].view_of());
    match Json::Array(items).view_of() {
        JsonView::Array(s) => {
            assert(s =~= target);
        },
        _ => {},
    }
}

/// The view of an object is the sequence of its entries' views.
pub proof fn lemma_object_view(entries: Vec<(String, Json)>)
    ensures
        Json::Object(entries).view_of() == JsonView::Object(entries_view(entries@)),
{
    match Json::Object(entries).view_of() {
        JsonView::Object(s) => {
            assert(s =~= entries_view(entries@));
        },
        _ => {},
    }
}

/// How deeply `v` nests non-empty arrays and objects: the indentation level `jzon` reaches when
/// it prints `v`.
pub open spec fn json_depth(v: JsonView) -> nat
    decreases v, 0int,
{
    match v {
        JsonView::Array(items) => if items.len() == 0 { 0 } else { 1 + items_depth(items) },
        JsonView::Object(entries) => if entries.len() == 0 { 0 } else { 1 + entries_depth(entries) },
        _ => 0,
    }
}

/// The greatest depth among `items`.
pub open spec fn items_depth(items: Seq<JsonView>) -> nat
    decreases items, 1int,
{
    if items.len() == 0 {
        0
    } else {
        let a = items_depth(items.drop_last());
        let b = json_depth(items.last());
        if a < b { b } else { a }
    }
}

/// The greatest depth among the values of `entries`.
pub open spec fn entries_depth(entries: Seq<(Seq<char>, JsonView)>) -> nat
    decreases entries, 1int,
{
    if entries.len() == 0 {
        0
    } else {
        let a = entries_depth(entries.drop_last());
        let b = json_depth(entries.last().1);
        if a < b { b } else { a }
    }
}

/// Items no deeper than `b` make an array no deeper than `b + 1`.
pub proof fn lemma_array_depth(items: Seq<JsonView>, b: nat)
    requires
        forall|i: int| 0 <= i < items.len() ==> json_depth(#[trigger] items[i]) <= b,
    ensures
        json_depth(JsonView::Array(items)) <= b + 1,
        items_depth(items) <= b,
    decreases items.len(),
{
    if items.len() > 0 {
        let rest = items.drop_last();
        assert forall|i: int| 0 <= i < rest.len() implies json_depth(#[trigger] rest[i]) <= b by {
            assert(rest[i] == items[i]);
        }
        lemma_array_depth(rest, b);
        assert(json_depth(items[items.len() - 1]) <= b);
    }
}

/// Values no deeper than `b` make an object no deeper than `b + 1`.
pub proof fn lemma_object_depth(entries: Seq<(Seq<char>, JsonView)>, b: nat)
    requires
        forall|i: int| 0 <= i < entries.len() ==> json_depth(#[trigger] entries[i].1) <= b,
    ensures
        json_depth(JsonView::Object(entries)) <= b + 1,
        entries_depth(entries) <= b,
    decreases entries.len(),
{
    if entries.len() > 0 {
        let rest = entries.drop_last();
        assert forall|i: int| 0 <= i < rest.len() implies json_depth(#[trigger] rest[i].1) <= b by {
            assert(rest[i] == entries[i]);
        }
        lemma_object_depth(rest, b);
        assert(json_depth(entries[entries.len() - 1].1) <= b);
    }
}

/// The text `jzon` prints for a value, indented by `spaces` spaces per level
/// (`JsonValue::pretty`).
pub uninterp spec fn jzon_pretty(value: JsonView, spaces: u16) -> Seq<char>;

/// Builds `jzon`'s value for `value`, variant for variant (`JsonValue::Boolean`, `From<u64>`,
/// `JsonValue::Number`, `From<&str>`, `JsonValue::Array`, and an `Object` filled by
/// `Object::insert` in entry order). Nothing is claimed of the result here: [`pretty`] names the
/// text printed from it.
#[verifier::external_body]
fn to_jzon(value: &Json) -> jzon::JsonValue {
    match value {
        Json::Bool(b) => jzon::JsonValue::Boolean(*b),
        Json::UInt(n) => jzon::JsonValue::from(*n),
        Json::Number(n) => jzon::JsonValue::Number(*n),
        Json::Str(s) => jzon::JsonValue::from(s.as_str()),
        Json::Array(items) => jzon::JsonValue::Array(items.iter().map(to_jzon).collect()),
        Json::Object(entries) => {
            let mut object = jzon::object::Object::new();
            for (key, item) in entries {
                object.insert(key, to_jzon(item));
            }
            jzon::JsonValue::Object(object)
        },
    }
}

/// `JsonValue::pretty` from `jzon`: the text of `value`, indented by `spaces` spaces per level.
/// The contract names the result and says nothing more of it. `jzon` keeps the indentation level
/// and the number of spaces of a line in `u16`s (each nested non-empty array or object adds a
/// level), so the value must not nest deeper than those can count.
#[verifier::external_body]
pub(crate) fn pretty(value: &Json, spaces: u16) -> (r: String)
    requires
        json_depth(value.view_of()) <= u16::MAX,
        json_depth(value.view_of()) * spaces <= u16::MAX,
    ensures
        r@ == jzon_pretty(value.view_of(), spaces),
{
    to_jzon(value).pretty(spaces)
}

/// The views of the entries of an object.
pub open spec fn entries_view(entries: Seq<(String, Json)>) -> Seq<(Seq<char>, JsonView)> {
    Seq::new(entries.len(), |i: int| (entries[i].0@, entries[i].1.view_of()))
}

/// The position of the entry of `key` among `entries`, if there is one.
pub open spec fn view_key_position(entries: Seq<(Seq<char>, JsonView)>, key: Seq<char>) -> Option<int> {
    if exists|j: int| 0 <= j < entries.len() && (#[trigger] entries[j]).0 == key {
        Some(choose|j: int| 0 <= j < entries.len() && (#[trigger] entries[j]).0 == key)
    } else {
        None
    }
}

/// `entries` with `key` set to `value`: the entry of that key gets the new value in place, or
/// a new entry is added at the end.
pub open spec fn view_insert(entries: Seq<(Seq<char>, JsonView)>, key: Seq<char>, value: JsonView) -> Seq<(Seq<char>, JsonView)> {
    match view_key_position(entries, key) {
        Some(j) => entries.update(j, (key, value)),
        None => entries.push((key, value)),
    }
}

/// Whether no key occurs twice among `entries`.
pub open spec fn keys_distinct(entries: Seq<(String, Json)>) -> bool {
    forall|a: int, b: int| 0 <= a < b < entries.len() ==> (#[trigger] entries[a]).0@ != (#[trigger] entries[b]).0@
}

/// Sets `key` to `value` among `entries`: an existing entry of that key keeps its place and
/// gets the new value, else the entry is added at the end (what inserting into a `jzon`
/// object does).
pub fn object_insert(entries: &mut Vec<(String, Json)>, key: &str, value: Json)
    requires
        keys_distinct(old(entries)@),
    ensures
        keys_distinct(final(entries)@),
        entries_view(final(entries)@) == view_insert(entries_view(old(entries)@), key@, value.view_of()),
        match key_position(old(entries)@, key@) {
            Some(j) => final(entries)@.len() == old(entries)@.len()
                && final(entries)@[j].0@ == key@ && final(entries)@[j].1 == value
                && forall|k: int| 0 <= k < old(entries)@.len() && k != j ==> #[trigger] final(entries)@[k] == old(entries)@[k],
            None => final(entries)@.len() == old(entries)@.len() + 1
                && final(entries)@.last().0@ == key@ && final(entries)@.last().1 == value
                && forall|k: int| 0 <= k < old(entries)@.len() ==> #[trigger] final(entries)@[k] == old(entries)@[k],
        },
{
    let ghost before = entries@;
    let mut j: usize = 0;
    let mut found = false;
    while j < entries.len() && !found
        invariant
            before == entries@,
            keys_distinct(before),
            j <= entries@.len(),
            found ==> j < entries@.len() && entries@[j as int].0@ == key@,
            !found ==> forall|k: int| 0 <= k < j ==> (#[trigger] entries@[k]).0@ != key@,
        decreases entries@.len() - j + (if found { 0int } else { 1 }),
    {
        if str_eq(entries[j].0.as_str(), key) {
            found = true;
        } else {
            j = j + 1;
        }
    }
    if found {
        proof {
            lemma_key_position_first(before, key@, j as int);
            lemma_view_key_position_first(entries_view(before), key@, j as int);
        }
        let old_entry = entries.remove(j);
        let ghost new_entry = (old_entry.0, value);
        entries.insert(j, (old_entry.0, value));
        proof {
            assert(entries@ =~= before.update(j as int, new_entry));
            assert(entries_view(entries@) =~= view_insert(entries_view(before), key@, value.view_of()));
            assert forall|a: int, b: int| 0 <= a < b < entries@.len() implies (#[trigger] entries@[a]).0@
                != (#[trigger] entries@[b]).0@ by {
                assert(entries@[a].0@ == before[a].0@);
                assert(entries@[b].0@ == before[b].0@);
            }
        }
    } else {
        proof { lemma_key_position_none(before, key@); }
        let ghost v = value;
        entries.push((key.to_owned(), value));
        proof {
            assert(view_key_position(entries_view(before), key@) is None);
            assert(entries_view(entries@) =~= entries_view(before).push((key@, v.view_of())));
        }
    }
}

/// The position of the entry of `key` among `entries`, if there is one.
pub open spec fn key_position(entries: Seq<(String, Json)>, key: Seq<char>) -> Option<int> {
    if exists|j: int| 0 <= j < entries.len() && (#[trigger] entries[j]).0@ == key {
        Some(choose|j: int| 0 <= j < entries.len() && (#[trigger] entries[j]).0@ == key)
    } else {
        None
    }
}

proof fn lemma_key_position_first(entries: Seq<(String, Json)>, key: Seq<char>, j: int)
    requires
        keys_distinct(entries),
        0 <= j < entries.len(),
        entries[j].0@ == key,
    ensures
        key_position(entries, key) == Some(j),
{
    let k = choose|k: int| 0 <= k < entries.len() && (#[trigger] entries[k]).0@ == key;
    if k != j {
        if k < j {
            assert(entries[k].0@ != entries[j].0@);
        } else {
            assert(entries[j].0@ != entries[k].0@);
        }
    }
}

proof fn lemma_view_key_position_first(entries: Seq<(Seq<char>, JsonView)>, key: Seq<char>, j: int)
    requires
        forall|a: int, b: int| 0 <= a < b < entries.len() ==> (#[trigger] entries[a]).0 != (#[trigger] entries[b]).0,
        0 <= j < entries.len(),
        entries[j].0 == key,
    ensures
        view_key_position(entries, key) == Some(j),
{
    let k = choose|k: int| 0 <= k < entries.len() && (#[trigger] entries[k]).0 == key;
    if k != j {
        if k < j {
            assert(entries[k].0 != entries[j].0);
        } else {
            assert(entries[j].0 != entries[k].0);
        }
    }
}

proof fn lemma_key_position_none(entries: Seq<(String, Json)>, key: Seq<char>)
    requires
        forall|k: int| 0 <= k < entries.len() ==> (#[trigger] entries[k]).0@ != key,
    ensures
        key_position(entries, key) is None,
{
}

} // verus!
