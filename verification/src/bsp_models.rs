//! Which BSP model a map entity uses.
use vstd::prelude::*;
use crate::text::{chars_of, parse_int_chars, parse_int_spec, str_eq, IntErrorKind};

verus! {

/// `s` without its leading `*` characters (`str::trim_start_matches('*')`).
pub open spec fn trim_start_stars(s: Seq<char>) -> Seq<char>
    decreases s.len(),
{
    if s.len() > 0 && s[0] == '*' {
        trim_start_stars(s.drop_first())
    } else {
        s
    }
}

/// The BSP model of an entity of class `classname` whose `model` property is `model`: model 0
/// for `worldspawn`; otherwise the number after the leading `*`s of `model`, if there are any
/// and the rest is a valid `usize`.
pub open spec fn spec_model_idx(classname: Seq<char>, model: Option<Seq<char>>) -> Option<int> {
    if classname == "worldspawn"@ {
        Some(0)
    } else {
        match model {
            None => None,
            Some(m) => {
                let t = trim_start_stars(m);
                if t.len() == m.len() {
                    None
                } else {
                    match parse_int_spec(t, false, 0, usize::MAX as int) {
                        Ok(x) => Some(x),
                        Err(_) => None,
                    }
                }
            },
        }
    }
}

/// After skipping `k` leading `*`s, stripping the rest gives the same as stripping all of `s`.
proof fn lemma_trim_start_stars_skip(s: Seq<char>, k: int)
    requires
        0 <= k < s.len(),
        s[k] == '*',
    ensures
        trim_start_stars(s.subrange(k, s.len() as int)) == trim_start_stars(s.subrange(k + 1, s.len() as int)),
{
    assert(s.subrange(k, s.len() as int).drop_first() =~= s.subrange(k + 1, s.len() as int));
}

/// Returns the BSP model index of an entity of class `classname` with the `model` property
/// `model` (see [`spec_model_idx`]): worldspawn always has model 0, and other entities refer to
/// their model as `*N`.
pub fn get_model_idx(classname: &str, model: Option<&str>) -> (r: Option<usize>)
    ensures
        match spec_model_idx(classname@, match model { Some(m) => Some(m@), None => None }) {
            Some(x) => r == Some(x as usize),
            None => r is None,
        },
{
    proof { reveal_strlit("worldspawn"); }
    if str_eq(classname, "worldspawn") {
        return Some(0);
    }
    let m = match model {
        Some(m) => m,
        None => return None,
    };
    let v = chars_of(m);
    let n = v.len();
    let mut k: usize = 0;
    assert(m@.subrange(0, n as int) =~= m@);
    while k < n && v[k] == '*'
        invariant
            v@ == m@,
            n == v@.len(),
            k <= n,
            trim_start_stars(m@) == trim_start_stars(m@.subrange(k as int, n as int)),
        decreases n - k,
    {
        proof { lemma_trim_start_stars_skip(m@, k as int); }
        k = k + 1;
    }
    assert(trim_start_stars(m@.subrange(k as int, n as int)) == m@.subrange(k as int, n as int));
    if k == 0 {
        assert(m@.subrange(0, n as int) =~= m@);
        return None;
    }
    match parse_int_chars(&v, k, n, false, 0, usize::MAX as i128) {
        Ok(x) => Some(x as usize),
        Err(_) => None,
    }
}

/// A BSP model that no entity of the map uses.
#[derive(Debug, Clone, Copy, PartialEq, Eq, Structural)]
pub struct ModelNotUsed {
    /// The index of the model.
    pub model_idx: usize,
}

/// The position of the first model slot from position `i` on that no entity filled, or the
/// number of slots when every one was filled.
pub open spec fn first_unused_from<T>(slots: Seq<Option<T>>, i: int) -> int
    decreases slots.len() - i,
{
    if i >= slots.len() {
        slots.len() as int
    } else if slots[i] is None {
        i
    } else {
        first_unused_from(slots, i + 1)
    }
}

/// The models of a BSP, one per slot, once every slot has been filled by the entity that uses
/// it; the first slot that no entity filled is an error.
pub fn used_models<T>(slots: Vec<Option<T>>) -> (r: Result<Vec<T>, ModelNotUsed>)
    ensures
        first_unused_from(slots@, 0) < slots@.len() ==> r == Err::<Vec<T>, ModelNotUsed>(
            ModelNotUsed { model_idx: first_unused_from(slots@, 0) as usize },
        ),
        first_unused_from(slots@, 0) == slots@.len() ==> (r matches Ok(models) && models@.len() == slots@.len()
            && forall|i: int| 0 <= i < slots@.len() ==> slots@[i] == Some(#[trigger] models@[i])),
{
    let ghost all = slots@;
    let mut models: Vec<T> = Vec::new();
    let mut rest = slots;
    let n = rest.len();
    let mut i: usize = 0;
    while i < n
        invariant
            n == all.len(),
            all == slots@,
            i <= n,
            rest@ == all.subrange(i as int, n as int),
            models@.len() == i,
            forall|k: int| 0 <= k < i ==> all[k] == Some(#[trigger] models@[k]),
            first_unused_from(all, 0) == first_unused_from(all, i as int),
        decreases n - i,
    {
        let slot = rest.remove(0);
        assert(slot == all[i as int]);
        assert(rest@ =~= all.subrange(i + 1, n as int));
        match slot {
            Some(model) => {
                models.push(model);
            },
            None => {
                assert(first_unused_from(all, i as int) == i);
                return Err(ModelNotUsed { model_idx: i });
            },
        }
        i = i + 1;
    }
    Ok(models)
}

} // verus!
