//! Quake entity classes: the data that describes a class in an FGD file.
use vstd::prelude::*;
use crate::text::{
    chars_of, int_to_dec, push_char, push_i64_dec, push_str, replace_all, replace_str, str_eq, string_from_chars, trim,
    trim_bounds,
};

verus! {

/// The kind of an entity class.
#[derive(Debug, Clone, Copy, PartialEq, Eq, Structural)]
pub enum QuakeClassType {
    /// Cannot be spawned in TrenchBroom, works like a base class in any object-oriented language.
    Base,
    /// An entity that revolves around a single point.
    Point,
    /// An entity that contains brushes.
    Solid,
}

impl Default for QuakeClassType {
    fn default() -> (r: Self)
        ensures
            r == QuakeClassType::Base,
    {
        QuakeClassType::Base
    }
}

impl QuakeClassType {
    pub fn is_base(&self) -> (r: bool)
        ensures
            r == (*self == QuakeClassType::Base),
    {
        matches!(self, QuakeClassType::Base)
    }

    pub fn is_point(&self) -> (r: bool)
        ensures
            r == (*self == QuakeClassType::Point),
    {
        matches!(self, QuakeClassType::Point)
    }

    pub fn is_solid(&self) -> (r: bool)
        ensures
            r == (*self == QuakeClassType::Solid),
    {
        matches!(self, QuakeClassType::Solid)
    }

    pub open spec fn spec_fgd_name(self) -> Seq<char> {
        match self {
            QuakeClassType::Base => "Base"@,
            QuakeClassType::Point => "Point"@,
            QuakeClassType::Solid => "Solid"@,
        }
    }

    /// How this class type is written in FGD files (its `Display` form).
    pub fn fgd_name(&self) -> (r: &'static str)
        ensures
            r@ == self.spec_fgd_name(),
    {
        match self {
            QuakeClassType::Base => "Base",
            QuakeClassType::Point => "Point",
            QuakeClassType::Solid => "Solid",
        }
    }
}

/// The key of one option of a `choices` property.
#[derive(Debug, Clone, Copy, PartialEq, Eq)]
pub enum ChoicesKey {
    String(&'static str),
    Integer(i32),
}

impl ChoicesKey {
    /// The key as written in an FGD file: strings quoted, integers in decimal.
    pub open spec fn spec_fgd_text(self) -> Seq<char> {
        match self {
            ChoicesKey::String(s) => seq!['"'] + s@ + seq!['"'],
            ChoicesKey::Integer(v) => int_to_dec(v as int),
        }
    }

    /// Appends the FGD text of this key to `out`.
    pub fn push_fgd_text(&self, out: &mut String)
        ensures
            final(out)@ == old(out)@ + self.spec_fgd_text(),
    {
        match self {
            ChoicesKey::String(s) => {
                push_char(out, '"');
                push_str(out, s);
                push_char(out, '"');
            },
            ChoicesKey::Integer(v) => {
                push_i64_dec(out, *v as i64);
            },
        }
    }

    /// The key as written in an FGD file (its `Display` form).
    pub fn to_fgd_string(&self) -> (r: String)
        ensures
            r@ == self.spec_fgd_text(),
    {
        let mut s = String::new();
        self.push_fgd_text(&mut s);
        s
    }
}

/// The type of a property: what kind of data the property expects.
#[derive(Debug, Clone)]
pub enum QuakeClassPropertyType {
    /// A value of the named FGD type, such as `string`, `integer` or `color1`.
    Value(&'static str),
    /// One of a list of keys, each with a title.
    Choices(Vec<(ChoicesKey, &'static str)>),
    /// Shows up in editor as a bunch of checkboxes, each defined flag has its own name.
    /// Each entry is the flag's bit value and its title.
    Flags(Vec<(u32, &'static str)>),
}

impl Default for QuakeClassPropertyType {
    fn default() -> (r: Self)
        ensures
            r == QuakeClassPropertyType::Value("string"),
    {
        QuakeClassPropertyType::Value("string")
    }
}

/// A property of an entity class.
#[derive(Debug, Clone)]
pub struct QuakeClassProperty {
    pub ty: QuakeClassPropertyType,
    pub name: &'static str,
    pub title: Option<&'static str>,
    pub description: Option<&'static str>,
    /// The default value, already in FGD form.
    pub default_value: Option<String>,
}

/// Everything written about a class in an FGD file.
#[derive(Debug)]
pub struct QuakeClassInfo {
    pub ty: QuakeClassType,
    /// The name of the class, this is usually the snake_case version of the type's name.
    pub name: &'static str,
    pub description: Option<&'static str>,
    pub base: Vec<ErasedQuakeClass>,
    /// A model that the entity shows up as in the editor.
    pub model: Option<&'static str>,
    pub color: Option<&'static str>,
    /// An icon that the entity appears as in the editor.
    pub iconsprite: Option<&'static str>,
    /// The size of the bounding box of the entity in the editor.
    pub size: Option<&'static str>,
    pub decal: bool,
    pub properties: Vec<QuakeClassProperty>,
}

/// A class together with the identity of the type that defines it.
#[derive(Debug)]
pub struct ErasedQuakeClass {
    /// Identifies the type of this class: two classes are the same class exactly when their ids agree.
    pub type_id: u64,
    pub info: QuakeClassInfo,
}

impl ErasedQuakeClass {
    /// The identity of this class's type.
    pub fn id(&self) -> (r: u64)
        ensures
            r == self.type_id,
    {
        self.type_id
    }

    /// The classes whose spawn functions run, in order, when an entity of this class is spawned:
    /// each base first (depth first, its own bases before it), then the class itself. A base
    /// whose spawn function already ran is skipped.
    pub fn spawn_order(&self) -> (r: Vec<u64>)
        ensures
            r@ == spawn_run(*self, Seq::empty()).0,
    {
        let mut spawned: Vec<u64> = Vec::new();
        let mut out: Vec<u64> = Vec::new();
        self.spawn_order_internal(&mut spawned, &mut out);
        assert(out@ =~= spawn_run(*self, Seq::empty()).0);
        out
    }

    fn spawn_order_internal(&self, spawned: &mut Vec<u64>, out: &mut Vec<u64>)
        ensures
            final(out)@ == old(out)@ + spawn_run(*self, old(spawned)@).0,
            final(spawned)@ == spawn_run(*self, old(spawned)@).1,
        decreases self,
    {
        let ghost s0 = spawned@;
        let ghost o0 = out@;
        let bases = &self.info.base;
        let mut i: usize = 0;
        assert(bases@.take(0) =~= Seq::<ErasedQuakeClass>::empty());
        assert(o0 + Seq::<u64>::empty() =~= o0);
        while i < bases.len()
            invariant
                *bases == self.info.base,
                i <= bases@.len(),
                out@ == o0 + bases_run(bases@.take(i as int), s0).0,
                spawned@ == bases_run(bases@.take(i as int), s0).1,
            decreases bases@.len() - i,
        {
            let ghost pre = bases@.take(i as int);
            assert(bases@.take(i + 1).drop_last() =~= pre);
            assert(bases@.take(i + 1).last() == bases@[i as int]);
            let base = &bases[i];
            let mut present = false;
            let mut k: usize = 0;
            while k < spawned.len()
                invariant
                    k <= spawned@.len(),
                    present <==> exists|j: int| 0 <= j < k && spawned@[j] == base.type_id,
                decreases spawned@.len() - k,
            {
                if spawned[k] == base.type_id {
                    present = true;
                }
                k = k + 1;
            }
            assert(present <==> spawned@.contains(base.type_id));
            if !present {
                base.spawn_order_internal(spawned, out);
                spawned.push(base.type_id);
                assert(out@ =~= o0 + bases_run(bases@.take(i + 1), s0).0);
            }
            i = i + 1;
        }
        assert(bases@.take(bases@.len() as int) =~= bases@);
        out.push(self.type_id);
        assert(out@ =~= o0 + spawn_run(*self, s0).0);
    }
}

/// Spawning `c` when the classes `spawned` already spawned: the spawn functions that run (ending
/// with `c`'s own), and the classes spawned afterwards (`c` itself is not added).
pub open spec fn spawn_run(c: ErasedQuakeClass, spawned: Seq<u64>) -> (Seq<u64>, Seq<u64>)
    decreases c, 0int,
{
    let (o, s) = bases_run(c.info.base@, spawned);
    (o.push(c.type_id), s)
}

/// Spawning the bases `bases` in order, skipping those already spawned: the spawn functions that
/// run, and the classes spawned afterwards.
pub open spec fn bases_run(bases: Seq<ErasedQuakeClass>, spawned: Seq<u64>) -> (Seq<u64>, Seq<u64>)
    decreases bases, 1int,
{
    if bases.len() == 0 {
        (Seq::empty(), spawned)
    } else {
        let (o, s) = bases_run(bases.drop_last(), spawned);
        let b = bases.last();
        if s.contains(b.type_id) {
            (o, s)
        } else {
            let (o2, s2) = spawn_run(b, s);
            (o + o2, s2.push(b.type_id))
        }
    }
}

/// Whether one of `bases` is named `name`, or derives from a class named `name`.
pub open spec fn bases_derive_from(bases: Seq<ErasedQuakeClass>, name: Seq<char>) -> bool
    decreases bases, 1int,
{
    if bases.len() == 0 {
        false
    } else {
        ||| bases.last().info.name@ == name
        ||| class_derives_from(bases.last().info, name)
        ||| bases_derive_from(bases.drop_last(), name)
    }
}

/// Whether `info` has, directly or through its bases, a base class named `name`.
pub open spec fn class_derives_from(info: QuakeClassInfo, name: Seq<char>) -> bool
    decreases info, 0int,
{
    bases_derive_from(info.base@, name)
}

/// Whether one of `bases` has the type `id`, or derives from it.
pub open spec fn bases_derive_from_id(bases: Seq<ErasedQuakeClass>, id: u64) -> bool
    decreases bases, 1int,
{
    if bases.len() == 0 {
        false
    } else {
        ||| bases.last().type_id == id
        ||| class_derives_from_id(bases.last().info, id)
        ||| bases_derive_from_id(bases.drop_last(), id)
    }
}

/// Whether `info` has, directly or through its bases, a base class of type `id`.
pub open spec fn class_derives_from_id(info: QuakeClassInfo, id: u64) -> bool
    decreases info, 0int,
{
    bases_derive_from_id(info.base@, id)
}

impl QuakeClassInfo {
    /// Recursively checks if this class is a subclass of the class of type `type_id`.
    /// Does not return `true` if this class *is* that class.
    pub fn derives_from(&self, type_id: u64) -> (r: bool)
        ensures
            r == class_derives_from_id(*self, type_id),
        decreases self,
    {
        let mut i = self.base.len();
        let ghost bases = self.base@;
        assert(bases.take(i as int) == bases);
        while i > 0
            invariant
                i <= bases.len(),
                bases == self.base@,
                class_derives_from_id(*self, type_id) == bases_derive_from_id(bases.take(i as int), type_id),
            decreases i,
        {
            let base = &self.base[i - 1];
            assert(bases.take(i as int).drop_last() == bases.take(i - 1));
            assert(bases.take(i as int).last() == bases[i - 1]);
            if base.type_id == type_id {
                return true;
            }
            if base.info.derives_from(type_id) {
                return true;
            }
            i = i - 1;
        }
        false
    }

    /// Recursively checks if this class uses a class by the name of `classname` as a base class.
    /// Does not return `true` if this class *is* `classname`.
    pub fn derives_from_name(&self, classname: &str) -> (r: bool)
        ensures
            r == class_derives_from(*self, classname@),
        decreases self,
    {
        let mut i = self.base.len();
        let ghost bases = self.base@;
        assert(bases.take(i as int) == bases);
        while i > 0
            invariant
                i <= bases.len(),
                bases == self.base@,
                class_derives_from(*self, classname@) == (bases_derive_from(bases.take(i as int), classname@)),
            decreases i,
        {
            let base = &self.base[i - 1];
            assert(bases.take(i as int).drop_last() == bases.take(i - 1));
            assert(bases.take(i as int).last() == bases[i - 1]);
            if str_eq(base.info.name, classname) {
                return true;
            }
            if base.info.derives_from_name(classname) {
                return true;
            }
            i = i - 1;
        }
        false
    }

    /// The path of the in-editor model of this class, if the model is given as a quoted path.
    pub open spec fn spec_model_path(self) -> Option<Seq<char>> {
        match self.model {
            None => None,
            Some(m) => if m@.len() > 0 && m@[0] == '"' && m@.last() == '"' {
                Some(trim_char(m@, '"'))
            } else {
                None
            },
        }
    }

    /// Returns the path of the in-editor model of this class.
    ///
    /// This only works for classes whose model is a single quoted path; anything more
    /// complex gives `None`.
    pub fn model_path(&self) -> (r: Option<&'static str>)
        ensures
            match self.spec_model_path() {
                None => r is None,
                Some(p) => r matches Some(s) && s@ == p,
            },
    {
        match self.model {
            None => None,
            Some(model) => {
                let v = chars_of(model);
                if v.len() == 0 || v[0] != '"' || v[v.len() - 1] != '"' {
                    return None;
                }
                let (lo, hi) = trim_char_bounds(&v, '"');
                Some(model.substring_char(lo, hi))
            },
        }
    }
}

/// `s` without all leading and trailing copies of `c` (`str::trim_matches` with a character).
pub open spec fn trim_char(s: Seq<char>, c: char) -> Seq<char>
    decreases s.len(),
{
    if s.len() > 0 && s[0] == c {
        trim_char(s.drop_first(), c)
    } else if s.len() > 0 && s.last() == c {
        trim_char(s.drop_last(), c)
    } else {
        s
    }
}

proof fn lemma_trim_char_sub(s: Seq<char>, c: char, lo: int, hi: int)
    requires
        0 <= lo <= hi <= s.len(),
        forall|j: int| 0 <= j < lo ==> s[j] == c,
        forall|j: int| hi <= j < s.len() ==> s[j] == c,
    ensures
        trim_char(s, c) == trim_char(s.subrange(lo, hi), c),
    decreases s.len(),
{
    if lo > 0 {
        assert(s.drop_first().subrange(lo - 1, hi - 1) == s.subrange(lo, hi));
        lemma_trim_char_sub(s.drop_first(), c, lo - 1, hi - 1);
    } else if hi < s.len() {
        assert(s.drop_last().subrange(lo, hi) == s.subrange(lo, hi));
        if s.len() > 0 && s[0] == c {
            if hi > 0 {
                assert(s.drop_first().subrange(0, hi - 1) == s.subrange(1, hi));
                assert(s.subrange(0, hi).drop_first() == s.subrange(1, hi));
                lemma_trim_char_sub(s.drop_first(), c, 0, hi - 1);
            } else {
                assert(s.drop_first().subrange(0, 0) == s.subrange(0, 0));
                lemma_trim_char_sub(s.drop_first(), c, 0, 0);
            }
        } else {
            lemma_trim_char_sub(s.drop_last(), c, lo, hi);
        }
    } else {
        assert(s.subrange(lo, hi) == s);
    }
}

pub(crate) fn trim_char_bounds(v: &Vec<char>, c: char) -> (r: (usize, usize))
    ensures
        r.0 <= r.1 <= v@.len(),
        v@.subrange(r.0 as int, r.1 as int) == trim_char(v@, c),
{
    let n = v.len();
    let mut lo: usize = 0;
    while lo < n && v[lo] == c
        invariant
            lo <= n == v@.len(),
            forall|j: int| 0 <= j < lo ==> v@[j] == c,
        decreases n - lo,
    {
        lo = lo + 1;
    }
    let mut hi: usize = n;
    while hi > lo && v[hi - 1] == c
        invariant
            lo <= hi <= n == v@.len(),
            forall|j: int| hi <= j < n ==> v@[j] == c,
        decreases hi - lo,
    {
        hi = hi - 1;
    }
    proof {
        lemma_trim_char_sub(v@, c, lo as int, hi as int);
        let t = v@.subrange(lo as int, hi as int);
        if t.len() > 0 {
            assert(t[0] != c);
            assert(t.last() != c);
        }
    }
    (lo, hi)
}

/// Whether no class of the tree `c` has itself among its bases, directly or not.
pub open spec fn acyclic(c: ErasedQuakeClass) -> bool
    decreases c, 0int,
{
    !class_derives_from_id(c.info, c.type_id) && bases_acyclic(c.info.base@)
}

/// Whether the trees `bases` are all acyclic.
pub open spec fn bases_acyclic(bases: Seq<ErasedQuakeClass>) -> bool
    decreases bases, 1int,
{
    bases.len() == 0 || (bases_acyclic(bases.drop_last()) && acyclic(bases.last()))
}

proof fn lemma_bases_run(bases: Seq<ErasedQuakeClass>, s: Seq<u64>)
    requires
        bases_acyclic(bases),
    ensures
        bases_run(bases, s).0.no_duplicates(),
        forall|x: u64| #[trigger] bases_run(bases, s).0.contains(x) ==> !s.contains(x) && bases_derive_from_id(bases, x),
        bases_run(bases, s).1 == s + bases_run(bases, s).0,
    decreases bases, 1int,
{
    if bases.len() == 0 {
        assert(s + Seq::<u64>::empty() =~= s);
    } else {
        let rest = bases.drop_last();
        let b = bases.last();
        lemma_bases_run(rest, s);
        let (o, s1) = bases_run(rest, s);
        if !s1.contains(b.type_id) {
            lemma_spawn_run(b, s1);
            let (o2, s2) = spawn_run(b, s1);
            assert forall|x: u64| #[trigger] (o + o2).contains(x) implies !s.contains(x) && bases_derive_from_id(bases, x) by {
                if o.contains(x) {
                } else {
                    let k = choose|k: int| 0 <= k < (o + o2).len() && (o + o2)[k] == x;
                    assert(o2.contains(x)) by {
                        assert(o2[k - o.len()] == x);
                    }
                    assert(!s1.contains(x));
                    if s.contains(x) {
                        let j = choose|j: int| 0 <= j < s.len() && s[j] == x;
                        assert(s1[j] == x);
                    }
                }
            }
            assert forall|i: int, j: int| 0 <= i < j < (o + o2).len() implies (o + o2)[i] != (o + o2)[j] by {
                if i < o.len() && j >= o.len() {
                    let x = (o + o2)[i];
                    assert(o.contains(x)) by { assert(o[i] == x); }
                    assert(s1.contains(x)) by { assert(s1[s.len() + i] == x); }
                    assert(o2.contains((o + o2)[j])) by { assert(o2[j - o.len()] == (o + o2)[j]); }
                } else if i >= o.len() {
                    assert((o + o2)[i] == o2[i - o.len()]);
                    assert((o + o2)[j] == o2[j - o.len()]);
                }
            }
            assert(o2 =~= o2.drop_last().push(b.type_id));
            assert(s2.push(b.type_id) =~= s + (o + o2));
        } else {
            assert forall|x: u64| #[trigger] o.contains(x) implies !s.contains(x) && bases_derive_from_id(bases, x) by {}
        }
    }
}

proof fn lemma_spawn_run(c: ErasedQuakeClass, s: Seq<u64>)
    requires
        acyclic(c),
        !s.contains(c.type_id),
    ensures
        spawn_run(c, s).0.no_duplicates(),
        spawn_run(c, s).0.len() > 0,
        spawn_run(c, s).0.last() == c.type_id,
        forall|x: u64| #[trigger] spawn_run(c, s).0.contains(x) ==> !s.contains(x) && (x == c.type_id || class_derives_from_id(c.info, x)),
        spawn_run(c, s).1 == s + spawn_run(c, s).0.drop_last(),
    decreases c, 0int,
{
    lemma_bases_run(c.info.base@, s);
    let (o, s1) = bases_run(c.info.base@, s);
    let r = o.push(c.type_id);
    assert(!o.contains(c.type_id));
    assert forall|x: u64| #[trigger] r.contains(x) implies !s.contains(x) && (x == c.type_id || class_derives_from_id(c.info, x)) by {
        if x != c.type_id {
            let k = choose|k: int| 0 <= k < r.len() && r[k] == x;
            assert(o[k] == x);
            assert(o.contains(x));
        }
    }
    assert forall|i: int, j: int| 0 <= i < j < r.len() implies r[i] != r[j] by {
        if j == r.len() - 1 {
            assert(o[i] == r[i]);
            assert(o.contains(r[i]));
        } else {
            assert(r[i] == o[i] && r[j] == o[j]);
        }
    }
    assert(r.drop_last() =~= o);
}

/// Spawning an entity runs the spawn function of every class of its tree at most once, and that
/// of its own class last (when no class has itself among its bases).
pub proof fn lemma_spawn_order_unique(c: ErasedQuakeClass)
    requires
        acyclic(c),
    ensures
        spawn_run(c, Seq::empty()).0.no_duplicates(),
        spawn_run(c, Seq::empty()).0.last() == c.type_id,
        forall|x: u64| #[trigger] spawn_run(c, Seq::empty()).0.contains(x) ==> x == c.type_id || class_derives_from_id(c.info, x),
{
    lemma_spawn_run(c, Seq::empty());
}

/// Whether `classes` holds the bases of each of its classes.
pub open spec fn bases_within(classes: Set<ErasedQuakeClass>) -> bool {
    forall|y: ErasedQuakeClass, k: int| #![trigger classes.contains(y), y.info.base@[k]]
        classes.contains(y) && 0 <= k < y.info.base@.len() ==> classes.contains(y.info.base@[k])
}

/// Whether no two classes of `classes` share a type id.
pub open spec fn ids_identify(classes: Set<ErasedQuakeClass>) -> bool {
    forall|y: ErasedQuakeClass, z: ErasedQuakeClass| #![trigger classes.contains(y), classes.contains(z)]
        classes.contains(y) && classes.contains(z) && y.type_id == z.type_id ==> y == z
}

/// Whether, for each class of `classes` whose id is in `s`, the ids of all the classes it
/// derives from are in `s` too.
pub open spec fn spawned_closed(classes: Set<ErasedQuakeClass>, s: Seq<u64>) -> bool {
    forall|y: ErasedQuakeClass, id: u64| #![trigger classes.contains(y), class_derives_from_id(y.info, id)]
        classes.contains(y) && s.contains(y.type_id) && class_derives_from_id(y.info, id) ==> s.contains(id)
}

proof fn lemma_bases_run_covers(classes: Set<ErasedQuakeClass>, bases: Seq<ErasedQuakeClass>, s: Seq<u64>)
    requires
        bases_within(classes),
        ids_identify(classes),
        forall|k: int| 0 <= k < bases.len() ==> classes.contains(#[trigger] bases[k]),
        spawned_closed(classes, s),
    ensures
        spawned_closed(classes, bases_run(bases, s).1),
        forall|id: u64| s.contains(id) ==> #[trigger] bases_run(bases, s).1.contains(id),
        forall|id: u64| #[trigger] bases_run(bases, s).1.contains(id) ==> s.contains(id) || bases_run(bases, s).0.contains(id),
        forall|id: u64| #[trigger] bases_derive_from_id(bases, id) ==> bases_run(bases, s).1.contains(id),
        forall|id: u64| #[trigger] bases_derive_from_id(bases, id) ==> s.contains(id) || bases_run(bases, s).0.contains(id),
    decreases bases, 1int,
{
    if bases.len() > 0 {
        let rest = bases.drop_last();
        let b = bases.last();
        assert(classes.contains(bases[bases.len() - 1]));
        assert forall|k: int| 0 <= k < rest.len() implies classes.contains(#[trigger] rest[k]) by {
            assert(classes.contains(bases[k]));
        }
        lemma_bases_run_covers(classes, rest, s);
        let (o, s1) = bases_run(rest, s);
        if s1.contains(b.type_id) {
            assert forall|id: u64| #[trigger] bases_derive_from_id(bases, id) implies s1.contains(id) by {
                if !bases_derive_from_id(rest, id) && id != b.type_id {
                    assert(class_derives_from_id(b.info, id));
                }
            }
        } else {
            lemma_spawn_run_covers(classes, b, s1);
            let (o2, s2) = spawn_run(b, s1);
            let s3 = s2.push(b.type_id);
            let o3 = o + o2;
            assert(o2.last() == b.type_id);
            assert(o2.contains(b.type_id)) by { assert(o2[o2.len() - 1] == b.type_id); }
            assert(o3.contains(b.type_id)) by { assert(o3[o3.len() - 1] == b.type_id); }
            assert forall|id: u64| o.contains(id) implies #[trigger] o3.contains(id) by {
                let k = choose|k: int| 0 <= k < o.len() && o[k] == id;
                assert(o3[k] == id);
            }
            assert forall|id: u64| o2.contains(id) implies #[trigger] o3.contains(id) by {
                let k = choose|k: int| 0 <= k < o2.len() && o2[k] == id;
                assert(o3[o.len() + k] == id);
            }
            assert forall|id: u64| s2.contains(id) implies #[trigger] s3.contains(id) by {
                let k = choose|k: int| 0 <= k < s2.len() && s2[k] == id;
                assert(s3[k] == id);
            }
            assert(s3.contains(b.type_id)) by { assert(s3[s3.len() - 1] == b.type_id); }
            assert forall|id: u64| #[trigger] s3.contains(id) implies s2.contains(id) || id == b.type_id by {
                let k = choose|k: int| 0 <= k < s3.len() && s3[k] == id;
                if k < s2.len() {
                    assert(s2[k] == id);
                }
            }
            assert forall|y: ErasedQuakeClass, id: u64| classes.contains(y) && s3.contains(y.type_id)
                && #[trigger] class_derives_from_id(y.info, id) implies s3.contains(id) by {
                if y.type_id == b.type_id {
                    assert(y == b);
                    assert(s2.contains(id));
                } else {
                    assert(s2.contains(y.type_id));
                    assert(s2.contains(id));
                }
            }
            assert forall|id: u64| #[trigger] bases_derive_from_id(bases, id) implies s3.contains(id)
                && (s.contains(id) || o3.contains(id)) by {
                if bases_derive_from_id(rest, id) {
                    assert(s1.contains(id));
                    assert(s2.contains(id));
                } else if id == b.type_id {
                } else {
                    assert(class_derives_from_id(b.info, id));
                    assert(s2.contains(id));
                }
            }
            assert forall|id: u64| #[trigger] s3.contains(id) implies s.contains(id) || o3.contains(id) by {
                if id != b.type_id {
                    assert(s2.contains(id));
                    if s1.contains(id) {
                    } else {
                        assert(o2.contains(id));
                    }
                }
            }
        }
    }
}

proof fn lemma_spawn_run_covers(classes: Set<ErasedQuakeClass>, c: ErasedQuakeClass, s: Seq<u64>)
    requires
        bases_within(classes),
        ids_identify(classes),
        classes.contains(c),
        spawned_closed(classes, s),
    ensures
        spawned_closed(classes, spawn_run(c, s).1),
        forall|id: u64| s.contains(id) ==> #[trigger] spawn_run(c, s).1.contains(id),
        forall|id: u64| #[trigger] spawn_run(c, s).1.contains(id) ==> s.contains(id) || spawn_run(c, s).0.contains(id),
        forall|id: u64| #[trigger] class_derives_from_id(c.info, id) ==> spawn_run(c, s).1.contains(id),
        forall|id: u64| #[trigger] class_derives_from_id(c.info, id) ==> s.contains(id) || spawn_run(c, s).0.contains(id),
        spawn_run(c, s).0.len() > 0,
        spawn_run(c, s).0.last() == c.type_id,
    decreases c, 0int,
{
    let bases = c.info.base@;
    assert forall|k: int| 0 <= k < bases.len() implies classes.contains(#[trigger] bases[k]) by {
        assert(classes.contains(c) && 0 <= k < c.info.base@.len());
        assert(classes.contains(c.info.base@[k]));
    }
    lemma_bases_run_covers(classes, bases, s);
    let (o, s1) = bases_run(bases, s);
    let r = o.push(c.type_id);
    assert forall|id: u64| o.contains(id) implies #[trigger] r.contains(id) by {
        let k = choose|k: int| 0 <= k < o.len() && o[k] == id;
        assert(r[k] == id);
    }
    assert forall|id: u64| #[trigger] class_derives_from_id(c.info, id) implies s1.contains(id)
        && (s.contains(id) || r.contains(id)) by {
        assert(bases_derive_from_id(bases, id));
    }
}

/// Spawning an entity runs the spawn function of every class it derives from, when no two
/// classes (among `classes`, which holds the class and the bases of each of its classes) share a
/// type id.
pub proof fn lemma_spawn_order_complete(c: ErasedQuakeClass, classes: Set<ErasedQuakeClass>)
    requires
        classes.contains(c),
        bases_within(classes),
        ids_identify(classes),
    ensures
        forall|id: u64| #[trigger] class_derives_from_id(c.info, id) ==> spawn_run(c, Seq::empty()).0.contains(id),
        spawn_run(c, Seq::empty()).0.contains(c.type_id),
{
    lemma_spawn_run_covers(classes, c, Seq::empty());
    let r = spawn_run(c, Seq::empty()).0;
    assert(r[r.len() - 1] == c.type_id);
}

// ---------------------------------------------------------------------------
// Descriptions from documentation
// ---------------------------------------------------------------------------

/// A line of documentation as it goes into a description: trimmed, with each `"` turned into
/// `''` (FGD descriptions are quoted).
pub open spec fn doc_line_text(line: Seq<char>) -> Seq<char> {
    replace_all(trim(line), "\""@, "''"@)
}

/// The description `doc` (nothing yet when `None`) after one more line of documentation: lines
/// are joined by a space, and an empty line becomes a line break.
pub open spec fn doc_with_line(doc: Option<Seq<char>>, line: Seq<char>) -> Seq<char> {
    let s = match doc {
        Some(d) => d,
        None => Seq::empty(),
    };
    let joined = if s.len() > 0 { s.push(' ') } else { s };
    let v = doc_line_text(line);
    if v.len() == 0 { joined.push('\n') } else { joined + v }
}

/// Adds a line of documentation (the text of one `///` comment) to the description `doc`.
pub fn extract_doc(line: &str, doc: &mut Option<String>)
    ensures
        *final(doc) matches Some(d) && d@ == doc_with_line(
            match *old(doc) {
                Some(d) => Some(d@),
                None => None,
            },
            line@,
        ),
{
    let v = chars_of(line);
    let (lo, hi) = trim_bounds(&v);
    let trimmed = string_from_chars(&v, lo, hi);
    proof { reveal_strlit("\""); }
    let value = replace_str(trimmed.as_str(), "\"", "''");
    let mut s = match doc.take() {
        Some(d) => d,
        None => String::new(),
    };
    if s.unicode_len() > 0 {
        push_char(&mut s, ' ');
    }
    if value.unicode_len() == 0 {
        push_char(&mut s, '\n');
    } else {
        push_str(&mut s, value.as_str());
    }
    *doc = Some(s);
}

} // verus!
