//! Choosing which loaded map to insert into the world.
use vstd::prelude::*;
use crate::class::{trim_char, trim_char_bounds};
use crate::fgd::{FgdParseError, FgdType};
use crate::text::{chars_of, str_eq, string_from_chars};

verus! {

/// A map entity that has not been spawned yet, as the world shows it.
#[derive(Debug, Clone, Copy)]
pub struct MapCandidate {
    /// Whether the map asset has loaded.
    pub map_loaded: bool,
    /// Whether every material properties asset of the map has loaded.
    pub materials_loaded: bool,
    /// The uuid of the entity's spawning settings, if it has them.
    pub uuid: Option<u128>,
}

/// Whether the map of `c` can be inserted now.
pub open spec fn candidate_ready(c: MapCandidate) -> bool {
    c.map_loaded && c.materials_loaded
}

/// The uuid a map is inserted with: the one of its settings, else the nil uuid (zero).
pub open spec fn candidate_uuid(c: MapCandidate) -> u128 {
    match c.uuid {
        Some(u) => u,
        None => 0,
    }
}

/// The map to insert among `cs`: the last one that is ready, with its uuid.
pub open spec fn spec_spawn_choice(cs: Seq<MapCandidate>) -> Option<(int, u128)>
    decreases cs.len(),
{
    if cs.len() == 0 {
        None
    } else if candidate_ready(cs.last()) {
        Some(((cs.len() - 1) as int, candidate_uuid(cs.last())))
    } else {
        spec_spawn_choice(cs.drop_last())
    }
}

/// Picks the map entity to spawn this frame: the last of `candidates` whose map and material
/// properties have all loaded, with the uuid to insert it with. At most one map is inserted per
/// call; the caller marks it spawned and inserts it.
pub fn spawn_maps(candidates: &Vec<MapCandidate>) -> (r: Option<(usize, u128)>)
    ensures
        match spec_spawn_choice(candidates@) {
            Some((i, u)) => r == Some((i as usize, u)),
            None => r is None,
        },
{
    let mut chosen: Option<(usize, u128)> = None;
    let mut i: usize = 0;
    while i < candidates.len()
        invariant
            i <= candidates@.len(),
            match spec_spawn_choice(candidates@.take(i as int)) {
                Some((k, u)) => chosen == Some((k as usize, u)),
                None => chosen is None,
            },
        decreases candidates@.len() - i,
    {
        let c = candidates[i];
        assert(candidates@.take(i + 1).drop_last() == candidates@.take(i as int));
        if c.map_loaded && c.materials_loaded {
            let uuid: u128 = match c.uuid {
                Some(u) => u,
                None => 0,
            };
            chosen = Some((i, uuid));
        }
        i = i + 1;
    }
    assert(candidates@.take(candidates@.len() as int) == candidates@);
    chosen
}

// ---------------------------------------------------------------------------
// Reading entity properties
// ---------------------------------------------------------------------------

/// Why a property of a map entity could not be read.
#[derive(Debug, Clone, PartialEq, Eq)]
pub enum MapEntityInsertionError {
    /// The entity does not have the property, and its class gives no default.
    RequiredPropertyNotFound { property: String },
    /// The property's value does not parse as the type asked for.
    PropertyParseError { property: String, error: FgdParseError },
}

/// The position of the first property named `key` among `properties` from position `i` on, or
/// the length when there is none.
pub open spec fn property_index_from(properties: Seq<(String, String)>, key: Seq<char>, i: int) -> int
    decreases properties.len() - i,
{
    if i >= properties.len() {
        properties.len() as int
    } else if properties[i].0@ == key {
        i
    } else {
        property_index_from(properties, key, i + 1)
    }
}

/// The text of the property `key`: the entity's own value if it has one, else `default`.
pub open spec fn property_text(properties: Seq<(String, String)>, default: Option<Seq<char>>, key: Seq<char>) -> Option<Seq<char>> {
    let j = property_index_from(properties, key, 0);
    if j < properties.len() {
        Some(properties[j].1@)
    } else {
        default
    }
}

/// Whether `r` is what reading the property `key` gives: the entity's own value, else `default`,
/// without the `"`s around it, parsed as `T`; no value at all is an error, and so is a value that
/// does not parse.
pub open spec fn property_read<T: FgdType>(
    properties: Seq<(String, String)>,
    default: Option<Seq<char>>,
    key: Seq<char>,
    r: Result<T, MapEntityInsertionError>,
) -> bool {
    match property_text(properties, default, key) {
        None => r matches Err(MapEntityInsertionError::RequiredPropertyNotFound { property }) && property@ == key,
        Some(text) => match T::spec_parse_error(trim_char(text, '"')) {
            Some(e) => r matches Err(MapEntityInsertionError::PropertyParseError { property, error })
                && property@ == key && error == e,
            None => r matches Ok(v) && T::spec_parses_to(trim_char(text, '"'), v),
        },
    }
}

/// Reads the property `key` of a map entity, given what looking up the entity's classname gave
/// and, for that classname, the default its class gives (if any). An entity whose classname
/// cannot be read gives that error, whether or not it has the property; otherwise the property
/// is read as [`get_property`] reads it.
pub fn get_entity_property<T: FgdType>(
    classname: Result<&str, MapEntityInsertionError>,
    properties: &Vec<(String, String)>,
    default: Option<&str>,
    key: &str,
) -> (r: Result<T, MapEntityInsertionError>)
    ensures
        match classname {
            Err(e) => r == Err::<T, MapEntityInsertionError>(e),
            Ok(_) => property_read(properties@, match default { Some(d) => Some(d@), None => None }, key@, r),
        },
{
    match classname {
        Err(e) => Err(e),
        Ok(_) => get_property(properties, default, key),
    }
}

/// Reads the property `key` of a map entity with the properties `properties`, `default` being
/// the default its class gives (if any): the value, without the `"`s around it, parsed as `T`.
pub fn get_property<T: FgdType>(properties: &Vec<(String, String)>, default: Option<&str>, key: &str) -> (r: Result<T, MapEntityInsertionError>)
    ensures
        property_read(properties@, match default { Some(d) => Some(d@), None => None }, key@, r),
{
    let mut j: usize = 0;
    let mut found = false;
    while j < properties.len() && !found
        invariant
            j <= properties@.len(),
            property_index_from(properties@, key@, 0) == property_index_from(properties@, key@, j as int),
            found ==> j < properties@.len() && properties@[j as int].0@ == key@,
        decreases properties@.len() - j + (if found { 0int } else { 1 }),
    {
        if str_eq(properties[j].0.as_str(), key) {
            found = true;
        } else {
            j = j + 1;
        }
    }
    let text: &str = if found {
        properties[j].1.as_str()
    } else {
        match default {
            Some(d) => d,
            None => return Err(MapEntityInsertionError::RequiredPropertyNotFound { property: key.to_owned() }),
        }
    };
    let v = chars_of(text);
    let (lo, hi) = trim_char_bounds(&v, '"');
    let trimmed = string_from_chars(&v, lo, hi);
    match T::fgd_parse(trimmed.as_str()) {
        Ok(x) => Ok(x),
        Err(error) => Err(MapEntityInsertionError::PropertyParseError { property: key.to_owned(), error }),
    }
}

} // verus!
