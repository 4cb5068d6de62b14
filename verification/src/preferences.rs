//! TrenchBroom's preferences file (`Preferences.json`): adding a game to it, so that TrenchBroom
//! knows where the game lives. The file is read and written by `serde_json`.
use vstd::prelude::*;
use crate::text::{push_str, str_eq};

verus! {

#[verifier::external_type_specification]
#[verifier::external_body]
pub struct ExSerdeValue(serde_json::Value);

#[verifier::external_type_specification]
#[verifier::external_body]
pub struct ExSerdeNumber(serde_json::Number);

#[verifier::external_type_specification]
#[verifier::external_body]
pub struct ExSerdeError(serde_json::Error);

/// A JSON value of the preferences file.
#[derive(Debug)]
pub enum PrefValue {
    Null,
    Bool(bool),
    /// A number, as `serde_json` holds it.
    Number(serde_json::Number),
    Str(String),
    Array(Vec<PrefValue>),
    /// The entries of an object, in order.
    Object(Vec<(String, PrefValue)>),
}

/// What a preferences value holds, with strings as character sequences.
pub enum PrefView {
    Null,
    Bool(bool),
    Number(serde_json::Number),
    Str(Seq<char>),
    Array(Seq<PrefView>),
    Object(Seq<(Seq<char>, PrefView)>),
}

impl PrefValue {
    /// What this value holds.
    pub open spec fn view_of(self) -> PrefView
        decreases self,
    {
        match self {
            PrefValue::Null => PrefView::Null,
            PrefValue::Bool(b) => PrefView::Bool(b),
            PrefValue::Number(n) => PrefView::Number(n),
            PrefValue::Str(s) => PrefView::Str(s@),
            PrefValue::Array(v) => PrefView::Array(Seq::new(v@.len(), |i: int| if 0 <= i < v@.len() { v@[i].view_of() } else { PrefView::Null })),
            PrefValue::Object(v) => PrefView::Object(Seq::new(v@.len(), |i: int| if 0 <= i < v@.len() { (v@[i].0@, v@[i].1.view_of()) } else { (Seq::empty(), PrefView::Null) })),
        }
    }
}

/// The views of the entries of an object.
pub open spec fn pref_entries_view(entries: Seq<(String, PrefValue)>) -> Seq<(Seq<char>, PrefView)> {
    Seq::new(entries.len(), |i: int| (entries[i].0@, entries[i].1.view_of()))
}

/// The view of an object is the sequence of its entries' views.
proof fn lemma_pref_object_view(entries: Vec<(String, PrefValue)>)
    ensures
        PrefValue::Object(entries).view_of() == PrefView::Object(pref_entries_view(entries@)),
{
    match PrefValue::Object(entries).view_of() {
        PrefView::Object(s) => {
            assert(s =~= pref_entries_view(entries@));
        },
        _ => {},
    }
}

/// The value `serde_json` reads from `text`, if `text` is JSON.
pub uninterp spec fn serde_parse(text: Seq<char>) -> Option<PrefView>;

/// The text `serde_json::to_string_pretty` writes for `value`.
pub uninterp spec fn serde_pretty(value: PrefView) -> Seq<char>;

/// `serde_json`'s value turned into the library's, variant for variant (object entries in the
/// map's order). Nothing is claimed of it here: [`parse_preferences`] names the result.
#[verifier::external_body]
fn from_serde(value: serde_json::Value) -> PrefValue {
    match value {
        serde_json::Value::Null => PrefValue::Null,
        serde_json::Value::Bool(b) => PrefValue::Bool(b),
        serde_json::Value::Number(n) => PrefValue::Number(n),
        serde_json::Value::String(s) => PrefValue::Str(s),
        serde_json::Value::Array(items) => PrefValue::Array(items.into_iter().map(from_serde).collect()),
        serde_json::Value::Object(map) => PrefValue::Object(map.into_iter().map(|(k, v)| (k, from_serde(v))).collect()),
    }
}

/// The library's value turned into `serde_json`'s, variant for variant (object entries inserted
/// in order). Nothing is claimed of it here: [`pretty_preferences`] names the text written.
#[verifier::external_body]
fn to_serde(value: &PrefValue) -> serde_json::Value {
    match value {
        PrefValue::Null => serde_json::Value::Null,
        PrefValue::Bool(b) => serde_json::Value::Bool(*b),
        PrefValue::Number(n) => serde_json::Value::Number(n.clone()),
        PrefValue::Str(s) => serde_json::Value::String(s.clone()),
        PrefValue::Array(items) => serde_json::Value::Array(items.iter().map(to_serde).collect()),
        PrefValue::Object(entries) => serde_json::Value::Object(entries.iter().map(|(k, v)| (k.clone(), to_serde(v))).collect()),
    }
}

/// `serde_json::from_str` into a `serde_json::Value`: the value read from `text`, or the error
/// when `text` is not JSON. The value is named (`serde_parse`), not described.
#[verifier::external_body]
fn parse_preferences(text: &str) -> (r: Result<PrefValue, serde_json::Error>)
    ensures
        match r {
            Ok(v) => serde_parse(text@) == Some(v.view_of()),
            Err(_) => serde_parse(text@) is None,
        },
{
    match serde_json::from_str::<serde_json::Value>(text) {
        Ok(v) => Ok(from_serde(v)),
        Err(e) => Err(e),
    }
}

/// `serde_json::to_string_pretty` of a `serde_json::Value`: the text is named (`serde_pretty`).
/// Its documentation says serializing fails only when a `Serialize` impl decides to fail or a map
/// has keys that are not strings; a `Value` does neither, so the error arm is never taken.
#[verifier::external_body]
fn pretty_preferences(value: &PrefValue) -> (r: String)
    ensures
        r@ == serde_pretty(value.view_of()),
{
    match serde_json::to_string_pretty(&to_serde(value)) {
        Ok(s) => s,
        Err(_) => String::new(),
    }
}

/// Why a game could not be added to the preferences.
#[derive(Debug)]
pub enum PreferencesError {
    /// The game has no name.
    Uninitialized,
    /// The preferences are not JSON.
    Deserialize(serde_json::Error),
    /// The preferences are JSON, but not an object.
    JsonObject,
}

/// The key under which TrenchBroom finds the path of the game `name`.
pub open spec fn game_path_key(name: Seq<char>) -> Seq<char> {
    "Games/"@ + name + "/Path"@
}

/// The position of the first entry of `key` among `entries` from position `i` on, or the length
/// when there is none.
pub open spec fn key_index_from(entries: Seq<(Seq<char>, PrefView)>, key: Seq<char>, i: int) -> int
    decreases entries.len() - i,
{
    if i >= entries.len() {
        entries.len() as int
    } else if entries[i].0 == key {
        i
    } else {
        key_index_from(entries, key, i + 1)
    }
}

/// `entries` with `key` set to `value`: the first entry of that key gets the new value in place,
/// or a new entry is added at the end (what inserting into a `serde_json` map does to its
/// contents).
pub open spec fn pref_insert(entries: Seq<(Seq<char>, PrefView)>, key: Seq<char>, value: PrefView) -> Seq<(Seq<char>, PrefView)> {
    let j = key_index_from(entries, key, 0);
    if j < entries.len() {
        entries.update(j, (key, value))
    } else {
        entries.push((key, value))
    }
}

/// The preferences text `preferences` with the game `game_name` added, its path `game_dir`: the
/// text read as JSON, the key `Games/<name>/Path` set to the path, and the object written back
/// with `serde_json`'s pretty printer.
pub open spec fn spec_preferences_with_game(preferences: Seq<char>, game_name: Seq<char>, game_dir: Seq<char>) -> Option<Seq<char>> {
    match serde_parse(preferences) {
        Some(PrefView::Object(entries)) => Some(serde_pretty(PrefView::Object(
            pref_insert(entries, game_path_key(game_name), PrefView::Str(game_dir)),
        ))),
        _ => None,
    }
}

/// Adds the game `game_name`, found at `game_dir`, to the TrenchBroom preferences `preferences`
/// (the text of `Preferences.json`) and returns the new text. A game without a name, text that
/// is not JSON, and JSON that is not an object are errors, in that order.
pub fn preferences_with_game(preferences: &str, game_name: &str, game_dir: &str) -> (r: Result<String, PreferencesError>)
    ensures
        game_name@.len() == 0 ==> r matches Err(PreferencesError::Uninitialized),
        game_name@.len() > 0 ==> match serde_parse(preferences@) {
            None => r matches Err(PreferencesError::Deserialize(_)),
            Some(PrefView::Object(_)) => r matches Ok(t)
                && spec_preferences_with_game(preferences@, game_name@, game_dir@) == Some(t@),
            Some(_) => r matches Err(PreferencesError::JsonObject),
        },
{
    if game_name.unicode_len() == 0 {
        return Err(PreferencesError::Uninitialized);
    }
    let parsed = match parse_preferences(preferences) {
        Ok(v) => v,
        Err(e) => return Err(PreferencesError::Deserialize(e)),
    };
    let mut entries = match parsed {
        PrefValue::Object(entries) => {
            proof { lemma_pref_object_view(entries); }
            entries
        },
        _ => return Err(PreferencesError::JsonObject),
    };
    let mut key = "Games/".to_owned();
    push_str(&mut key, game_name);
    push_str(&mut key, "/Path");
    proof {
        reveal_strlit("Games/");
    }
    assert(key@ == game_path_key(game_name@));
    let ghost before = pref_entries_view(entries@);
    let mut j: usize = 0;
    let mut found = false;
    while j < entries.len() && !found
        invariant
            before == pref_entries_view(entries@),
            j <= entries@.len(),
            key_index_from(before, key@, 0) == key_index_from(before, key@, j as int),
            found ==> j < entries@.len() && entries@[j as int].0@ == key@,
        decreases entries@.len() - j + (if found { 0int } else { 1 }),
    {
        assert(before[j as int].0 == entries@[j as int].0@);
        if str_eq(entries[j].0.as_str(), key.as_str()) {
            found = true;
        } else {
            j = j + 1;
        }
    }
    let ghost value = PrefView::Str(game_dir@);
    if found {
        assert(before[j as int].0 == key@);
        assert(key_index_from(before, key@, j as int) == j);
        let _old = entries.remove(j);
        entries.insert(j, (key, PrefValue::Str(game_dir.to_owned())));
        assert(pref_entries_view(entries@) =~= before.update(j as int, (key@, value)));
    } else {
        assert(key_index_from(before, key@, j as int) == before.len());
        entries.push((key, PrefValue::Str(game_dir.to_owned())));
        assert(pref_entries_view(entries@) =~= before.push((key@, value)));
    }
    proof { lemma_pref_object_view(entries); }
    let object = PrefValue::Object(entries);
    Ok(pretty_preferences(&object))
}

} // verus!
