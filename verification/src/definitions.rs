//! Entity definitions given as data, written out in FGD form.
use vstd::prelude::*;
use indexmap::IndexMap;
use crate::text::{lemma_extend, push_str, replace_all, replace_str};

verus! {

#[verifier::external_type_specification]
#[verifier::external_body]
#[verifier::reject_recursive_types(K)]
#[verifier::reject_recursive_types(V)]
#[verifier::reject_recursive_types(S)]
pub struct ExIndexMap<K, V, S>(IndexMap<K, V, S>);

/// The type of an entity class.
#[derive(Debug, Clone, Copy, PartialEq, Eq, Structural)]
pub enum EntDefClassType {
    /// Cannot be spawned in TrenchBroom, works like a base class in any object-oriented language.
    Base,
    /// An entity that revolves around a single point.
    Point,
    /// An entity that contains brushes.
    Solid,
}

impl Default for EntDefClassType {
    fn default() -> (r: Self)
        ensures
            r == EntDefClassType::Base,
    {
        EntDefClassType::Base
    }
}

impl EntDefClassType {
    /// The name of the class type (its `Debug` form).
    pub open spec fn spec_name(self) -> Seq<char> {
        match self {
            EntDefClassType::Base => "Base"@,
            EntDefClassType::Point => "Point"@,
            EntDefClassType::Solid => "Solid"@,
        }
    }

    /// The name of the class type (its `Debug` form).
    pub fn name(&self) -> (r: &'static str)
        ensures
            r@ == self.spec_name(),
    {
        match self {
            EntDefClassType::Base => "Base",
            EntDefClassType::Point => "Point",
            EntDefClassType::Solid => "Solid",
        }
    }
}

/// Editor settings of an entity definition.
#[derive(Debug, Clone)]
pub struct EntDefSettings {
    /// A model that the entity shows up as in the editor.
    pub model: Option<String>,
    pub color: Option<String>,
    /// An icon that the entity appears as in the editor.
    pub iconsprite: Option<String>,
    /// The size of the bounding box of the entity in the editor.
    pub size: Option<String>,
}

impl Default for EntDefSettings {
    fn default() -> (r: Self)
        ensures
            r.model is None && r.color is None && r.iconsprite is None && r.size is None,
    {
        EntDefSettings { model: None, color: None, iconsprite: None, size: None }
    }
}

/// The type of a property: a named FGD type, or a list of choices (key and title each).
#[derive(Debug, Clone)]
pub enum EntDefPropertyType {
    Value(String),
    Choices(Vec<(String, String)>),
}

impl Default for EntDefPropertyType {
    fn default() -> (r: Self)
        ensures
            r matches EntDefPropertyType::Value(s) && s@ == "string"@,
    {
        EntDefPropertyType::Value("string".to_owned())
    }
}

/// A property for an entity definition. The property type doesn't have a set of different
/// options, it more just tells users what kind of data you are expecting.
#[derive(Debug, Clone)]
pub struct EntDefProperty {
    pub ty: EntDefPropertyType,
    pub title: Option<String>,
    pub description: Option<String>,
    pub default_value: Option<String>,
}

/// What the property map holds: its keys and properties, in order.
pub uninterp spec fn property_entries(m: IndexMap<String, EntDefProperty>) -> Seq<(Seq<char>, EntDefProperty)>;

/// `IndexMap::len`: the number of entries.
#[verifier::external_body]
fn property_map_len(m: &IndexMap<String, EntDefProperty>) -> (n: usize)
    ensures
        n == property_entries(*m).len(),
{
    m.len()
}

/// `IndexMap::get_index`: the entry at position `i`, if there is one.
#[verifier::external_body]
fn property_map_get_index(m: &IndexMap<String, EntDefProperty>, i: usize) -> (r: Option<(&String, &EntDefProperty)>)
    ensures
        match r {
            Some((k, p)) => i < property_entries(*m).len() && k@ == property_entries(*m)[i as int].0
                && *p == property_entries(*m)[i as int].1,
            None => i >= property_entries(*m).len(),
        },
{
    m.get_index(i)
}

/// A definition for an entity class, written out to the game's FGD file.
#[derive(Debug)]
pub struct EntityDefinition {
    /// The type of entity this is.
    pub class_type: EntDefClassType,
    /// A more detailed description of this entity class.
    pub description: Option<String>,
    /// Any base classes this entity might have.
    pub base: Vec<String>,
    pub settings: EntDefSettings,
    /// The properties specific to this definition, in order.
    pub properties: IndexMap<String, EntDefProperty>,
}

/// A setting's value as written: every `$tb_scale$` replaced by the scale, newlines removed,
/// and `{ {` and `} }` joined into `{{` and `}}`.
pub open spec fn setting_value_text(v: Seq<char>, scale: Seq<char>) -> Seq<char> {
    replace_all(replace_all(replace_all(replace_all(v, "$tb_scale$"@, scale), "\n"@, Seq::empty()), "{ {"@, "{{"@), "} }"@, "}}"@)
}

/// `name(value) ` for a setting that is given, else nothing.
pub open spec fn def_setting_text(name: Seq<char>, value: Option<String>, scale: Seq<char>) -> Seq<char> {
    match value {
        Some(v) => name + "("@ + setting_value_text(v@, scale) + ") "@,
        None => Seq::empty(),
    }
}

/// The names of `base` separated by `", "`.
pub open spec fn join_names(base: Seq<String>) -> Seq<char>
    decreases base.len(),
{
    if base.len() == 0 {
        Seq::empty()
    } else if base.len() == 1 {
        base[0]@
    } else {
        join_names(base.drop_last()) + ", "@ + base.last()@
    }
}

/// The lines of the choices of a property.
pub open spec fn def_choice_lines(choices: Seq<(String, String)>) -> Seq<char>
    decreases choices.len(),
{
    if choices.len() == 0 {
        Seq::empty()
    } else {
        def_choice_lines(choices.drop_last()) + "\t\t"@ + choices.last().0@ + " : \""@ + choices.last().1@ + "\"\n"@
    }
}

/// The line (and choices) of the property `name`.
pub open spec fn def_property_text(name: Seq<char>, p: EntDefProperty) -> Seq<char> {
    "\t"@ + name + "("@ + (match p.ty { EntDefPropertyType::Value(t) => t@, EntDefPropertyType::Choices(_) => "choices"@ })
        + ") : \""@ + (match p.title { Some(t) => t@, None => name }) + "\" : "@
        + (match p.default_value { Some(d) => d@, None => Seq::empty() }) + " : \""@
        + (match p.description { Some(d) => d@, None => Seq::empty() }) + "\""@
        + (match p.ty {
            EntDefPropertyType::Choices(c) => " = \n\t[\n"@ + def_choice_lines(c@) + "\t]"@,
            EntDefPropertyType::Value(_) => Seq::empty(),
        }) + "\n"@
}

/// The text of the properties `entries`, in order.
pub open spec fn def_properties_text(entries: Seq<(Seq<char>, EntDefProperty)>) -> Seq<char>
    decreases entries.len(),
{
    if entries.len() == 0 {
        Seq::empty()
    } else {
        def_properties_text(entries.drop_last()) + def_property_text(entries.last().0, entries.last().1)
    }
}

impl EntityDefinition {
    /// The first line of the definition and the opening bracket of its properties.
    pub open spec fn spec_header(self, entity_name: Seq<char>, scale: Seq<char>) -> Seq<char> {
        "@"@ + self.class_type.spec_name() + "Class "@
            + (if self.base@.len() > 0 { "base("@ + join_names(self.base@) + ") "@ } else { Seq::empty() })
            + def_setting_text("color"@, self.settings.color, scale)
            + def_setting_text("iconsprite"@, self.settings.iconsprite, scale)
            + def_setting_text("size"@, self.settings.size, scale)
            + def_setting_text("model"@, self.settings.model, scale)
            + "= "@ + entity_name
            + (match self.description { Some(d) => " : \""@ + d@ + "\""@, None => Seq::empty() })
            + "\n[\n"@
    }

    /// This definition in FGD format, for the class `entity_name`; `scale` is the text of the
    /// config's scale.
    pub open spec fn spec_to_fgd(self, entity_name: Seq<char>, scale: Seq<char>) -> Seq<char> {
        self.spec_header(entity_name, scale) + def_properties_text(property_entries(self.properties)) + "]"@
    }

    /// Returns this definition in FGD format; `scale` is the text of the config's scale.
    pub fn to_fgd(&self, entity_name: &str, scale: &str) -> (r: String)
        ensures
            r@ == self.spec_to_fgd(entity_name@, scale@),
    {
        let mut out = String::new();
        self.push_header(&mut out, entity_name, scale);
        let ghost mid = out@;
        let n = property_map_len(&self.properties);
        let mut i: usize = 0;
        while i < n
            invariant
                n == property_entries(self.properties).len(),
                i <= n,
                out@ == mid + def_properties_text(property_entries(self.properties).take(i as int)),
            decreases n - i,
        {
            let ghost entries = property_entries(self.properties);
            assert(entries.take(i + 1).drop_last() == entries.take(i as int));
            match property_map_get_index(&self.properties, i) {
                Some((name, p)) => {
                    push_property(&mut out, name.as_str(), p);
                    proof { lemma_extend(mid, def_properties_text(entries.take(i as int)), def_property_text(name@, *p)); }
                },
                None => {},
            }
            i = i + 1;
        }
        assert(property_entries(self.properties).take(n as int) == property_entries(self.properties));
        push_str(&mut out, "]");
        out
    }

    fn push_header(&self, out: &mut String, entity_name: &str, scale: &str)
        ensures
            final(out)@ == old(out)@ + self.spec_header(entity_name@, scale@),
    {
        let ghost o = out@;
        push_str(out, "@");
        push_str(out, self.class_type.name());
        proof { lemma_extend(o, "@"@, self.class_type.spec_name()); }
        let ghost a = "@"@ + self.class_type.spec_name();
        push_str(out, "Class ");
        proof { lemma_extend(o, a, "Class "@); }
        let ghost a = a + "Class "@;
        let ghost b = if self.base@.len() > 0 { "base("@ + join_names(self.base@) + ") "@ } else { Seq::<char>::empty() };
        let o2 = out.clone();
        if self.base.len() > 0 {
            push_str(out, "base(");
            push_joined(out, &self.base);
            proof { lemma_extend(o2@, "base("@, join_names(self.base@)); }
            push_str(out, ") ");
            proof { lemma_extend(o2@, "base("@ + join_names(self.base@), ") "@); }
        } else {
            assert(out@ == o2@ + b);
        }
        proof { lemma_extend(o, a, b); }
        let ghost a = a + b;
        let ghost s1 = def_setting_text("color"@, self.settings.color, scale@);
        push_setting(out, "color", &self.settings.color, scale);
        proof { lemma_extend(o, a, s1); }
        let ghost a = a + s1;
        let ghost s2 = def_setting_text("iconsprite"@, self.settings.iconsprite, scale@);
        push_setting(out, "iconsprite", &self.settings.iconsprite, scale);
        proof { lemma_extend(o, a, s2); }
        let ghost a = a + s2;
        let ghost s3 = def_setting_text("size"@, self.settings.size, scale@);
        push_setting(out, "size", &self.settings.size, scale);
        proof { lemma_extend(o, a, s3); }
        let ghost a = a + s3;
        let ghost s4 = def_setting_text("model"@, self.settings.model, scale@);
        push_setting(out, "model", &self.settings.model, scale);
        proof { lemma_extend(o, a, s4); }
        let ghost a = a + s4;
        push_str(out, "= ");
        proof { lemma_extend(o, a, "= "@); }
        let ghost a = a + "= "@;
        push_str(out, entity_name);
        proof { lemma_extend(o, a, entity_name@); }
        let ghost a = a + entity_name@;
        let ghost d = match &self.description { Some(d) => " : \""@ + d@ + "\""@, None => Seq::<char>::empty() };
        let o3 = out.clone();
        match &self.description {
            Some(desc) => {
                push_str(out, " : \"");
                push_str(out, desc.as_str());
                proof { lemma_extend(o3@, " : \""@, desc@); }
                push_str(out, "\"");
                proof { lemma_extend(o3@, " : \""@ + desc@, "\""@); }
            },
            None => {
                assert(out@ == o3@ + d);
            },
        }
        proof { lemma_extend(o, a, d); }
        let ghost a = a + d;
        push_str(out, "\n[\n");
        proof {
            lemma_extend(o, a, "\n[\n"@);
            assert(a + "\n[\n"@ =~= self.spec_header(entity_name@, scale@));
        }
    }
}

/// Whether `part` occurs in `text`, starting at some position.
pub open spec fn occurs_in(text: Seq<char>, part: Seq<char>) -> bool {
    exists|k: int| 0 <= k && k + part.len() <= text.len() && #[trigger] text.subrange(k, k + part.len()) == part
}

/// A text that ends in `part` holds it.
proof fn lemma_occurs_at_end(a: Seq<char>, part: Seq<char>)
    ensures
        occurs_in(a + part, part),
{
    let k = a.len() as int;
    assert((a + part).subrange(k, k + part.len()) =~= part);
}

/// What a text holds, the text with more after it holds too.
proof fn lemma_occurs_extend(a: Seq<char>, b: Seq<char>, part: Seq<char>)
    requires
        occurs_in(a, part),
    ensures
        occurs_in(a + b, part),
{
    let k = choose|k: int| 0 <= k && k + part.len() <= a.len() && #[trigger] a.subrange(k, k + part.len()) == part;
    assert((a + b).subrange(k, k + part.len()) =~= a.subrange(k, k + part.len()));
}

/// What the text of a definition up to its settings holds, its whole FGD text holds.
proof fn lemma_occurs_after_settings(def: EntityDefinition, entity_name: Seq<char>, scale: Seq<char>, x: Seq<char>, part: Seq<char>)
    requires
        occurs_in(x, part),
        x == "@"@ + def.class_type.spec_name() + "Class "@
            + (if def.base@.len() > 0 { "base("@ + join_names(def.base@) + ") "@ } else { Seq::empty() })
            + def_setting_text("color"@, def.settings.color, scale)
            + def_setting_text("iconsprite"@, def.settings.iconsprite, scale)
            + def_setting_text("size"@, def.settings.size, scale)
            + def_setting_text("model"@, def.settings.model, scale),
    ensures
        occurs_in(def.spec_to_fgd(entity_name, scale), part),
{
    let d = match def.description { Some(d) => " : \""@ + d@ + "\""@, None => Seq::empty() };
    let props = def_properties_text(property_entries(def.properties));
    lemma_occurs_extend(x, "= "@, part);
    lemma_occurs_extend(x + "= "@, entity_name, part);
    lemma_occurs_extend(x + "= "@ + entity_name, d, part);
    lemma_occurs_extend(x + "= "@ + entity_name + d, "\n[\n"@, part);
    lemma_occurs_extend(x + "= "@ + entity_name + d + "\n[\n"@, props, part);
    lemma_occurs_extend(x + "= "@ + entity_name + d + "\n[\n"@ + props, "]"@, part);
}

/// Each setting that a definition gives is written in its FGD text under its own key:
/// `color(..)` holds the color, `iconsprite(..)` the icon sprite, `size(..)` the size and
/// `model(..)` the model, each value with `$tb_scale$` replaced by the scale.
pub proof fn lemma_settings_under_own_keys(def: EntityDefinition, entity_name: Seq<char>, scale: Seq<char>)
    ensures
        def.settings.color matches Some(v) ==> occurs_in(def.spec_to_fgd(entity_name, scale),
            "color"@ + "("@ + setting_value_text(v@, scale) + ") "@),
        def.settings.iconsprite matches Some(v) ==> occurs_in(def.spec_to_fgd(entity_name, scale),
            "iconsprite"@ + "("@ + setting_value_text(v@, scale) + ") "@),
        def.settings.size matches Some(v) ==> occurs_in(def.spec_to_fgd(entity_name, scale),
            "size"@ + "("@ + setting_value_text(v@, scale) + ") "@),
        def.settings.model matches Some(v) ==> occurs_in(def.spec_to_fgd(entity_name, scale),
            "model"@ + "("@ + setting_value_text(v@, scale) + ") "@),
{
    let pre = "@"@ + def.class_type.spec_name() + "Class "@
        + (if def.base@.len() > 0 { "base("@ + join_names(def.base@) + ") "@ } else { Seq::empty() });
    let s1 = def_setting_text("color"@, def.settings.color, scale);
    let s2 = def_setting_text("iconsprite"@, def.settings.iconsprite, scale);
    let s3 = def_setting_text("size"@, def.settings.size, scale);
    let s4 = def_setting_text("model"@, def.settings.model, scale);
    let x1 = pre + s1;
    let x2 = x1 + s2;
    let x3 = x2 + s3;
    let x4 = x3 + s4;
    if def.settings.color is Some {
        lemma_occurs_at_end(pre, s1);
        lemma_occurs_extend(x1, s2, s1);
        lemma_occurs_extend(x2, s3, s1);
        lemma_occurs_extend(x3, s4, s1);
        lemma_occurs_after_settings(def, entity_name, scale, x4, s1);
    }
    if def.settings.iconsprite is Some {
        lemma_occurs_at_end(x1, s2);
        lemma_occurs_extend(x2, s3, s2);
        lemma_occurs_extend(x3, s4, s2);
        lemma_occurs_after_settings(def, entity_name, scale, x4, s2);
    }
    if def.settings.size is Some {
        lemma_occurs_at_end(x2, s3);
        lemma_occurs_extend(x3, s4, s3);
        lemma_occurs_after_settings(def, entity_name, scale, x4, s3);
    }
    if def.settings.model is Some {
        lemma_occurs_at_end(x3, s4);
        lemma_occurs_after_settings(def, entity_name, scale, x4, s4);
    }
}

/// A definition that gives no setting has no settings in its header: the class type and bases
/// are followed directly by `= ` and the class name.
pub proof fn lemma_no_settings_header(def: EntityDefinition, entity_name: Seq<char>, scale: Seq<char>)
    requires
        def.settings.color is None,
        def.settings.iconsprite is None,
        def.settings.size is None,
        def.settings.model is None,
    ensures
        def.spec_header(entity_name, scale) == "@"@ + def.class_type.spec_name() + "Class "@
            + (if def.base@.len() > 0 { "base("@ + join_names(def.base@) + ") "@ } else { Seq::empty() })
            + "= "@ + entity_name
            + (match def.description { Some(d) => " : \""@ + d@ + "\""@, None => Seq::empty() })
            + "\n[\n"@,
{
    assert(def.spec_header(entity_name, scale) =~= "@"@ + def.class_type.spec_name() + "Class "@
        + (if def.base@.len() > 0 { "base("@ + join_names(def.base@) + ") "@ } else { Seq::empty() })
        + "= "@ + entity_name
        + (match def.description { Some(d) => " : \""@ + d@ + "\""@, None => Seq::empty() })
        + "\n[\n"@);
}

fn push_joined(out: &mut String, base: &Vec<String>)
    ensures
        final(out)@ == old(out)@ + join_names(base@),
{
    let mut i: usize = 0;
    while i < base.len()
        invariant
            i <= base@.len(),
            out@ == old(out)@ + join_names(base@.take(i as int)),
        decreases base@.len() - i,
    {
        assert(base@.take(i + 1).drop_last() == base@.take(i as int));
        if i > 0 {
            push_str(out, ", ");
        }
        push_str(out, base[i].as_str());
        proof {
            if i == 0 {
                assert(join_names(base@.take(1)) == base@[0]@);
            }
        }
        i = i + 1;
    }
    assert(base@.take(base@.len() as int) == base@);
}

/// Appends `name(value) ` for a setting that is given.
fn push_setting(out: &mut String, name: &str, value: &Option<String>, scale: &str)
    ensures
        final(out)@ == old(out)@ + def_setting_text(name@, *value, scale@),
{
    let ghost o = out@;
    match value {
        Some(v) => {
            proof {
                reveal_strlit("$tb_scale$");
                reveal_strlit("\n");
                reveal_strlit("{ {");
                reveal_strlit("} }");
                reveal_strlit("");
                assert(""@ =~= Seq::<char>::empty());
            }
            let t1 = replace_str(v.as_str(), "$tb_scale$", scale);
            let t2 = replace_str(t1.as_str(), "\n", "");
            let t3 = replace_str(t2.as_str(), "{ {", "{{");
            let t4 = replace_str(t3.as_str(), "} }", "}}");
            push_str(out, name);
            push_str(out, "(");
            proof { lemma_extend(o, name@, "("@); }
            push_str(out, t4.as_str());
            proof { lemma_extend(o, name@ + "("@, t4@); }
            push_str(out, ") ");
            proof { lemma_extend(o, name@ + "("@ + t4@, ") "@); }
        },
        None => {
            assert(out@ == o + Seq::<char>::empty());
        },
    }
}

fn push_def_choices(out: &mut String, choices: &Vec<(String, String)>)
    ensures
        final(out)@ == old(out)@ + def_choice_lines(choices@),
{
    let mut i: usize = 0;
    while i < choices.len()
        invariant
            i <= choices@.len(),
            out@ == old(out)@ + def_choice_lines(choices@.take(i as int)),
        decreases choices@.len() - i,
    {
        assert(choices@.take(i + 1).drop_last() == choices@.take(i as int));
        let ghost o = out@;
        push_str(out, "\t\t");
        push_str(out, choices[i].0.as_str());
        proof { lemma_extend(o, "\t\t"@, choices@[i as int].0@); }
        push_str(out, " : \"");
        proof { lemma_extend(o, "\t\t"@ + choices@[i as int].0@, " : \""@); }
        push_str(out, choices[i].1.as_str());
        proof { lemma_extend(o, "\t\t"@ + choices@[i as int].0@ + " : \""@, choices@[i as int].1@); }
        push_str(out, "\"\n");
        proof {
            lemma_extend(o, "\t\t"@ + choices@[i as int].0@ + " : \""@ + choices@[i as int].1@, "\"\n"@);
            lemma_extend(old(out)@, def_choice_lines(choices@.take(i as int)), "\t\t"@ + choices@[i as int].0@ + " : \""@ + choices@[i as int].1@ + "\"\n"@);
            assert(def_choice_lines(choices@.take(i + 1)) =~= def_choice_lines(choices@.take(i as int)) + ("\t\t"@ + choices@[i as int].0@ + " : \""@ + choices@[i as int].1@ + "\"\n"@));
        }
        i = i + 1;
    }
    assert(choices@.take(choices@.len() as int) == choices@);
}

fn push_property(out: &mut String, name: &str, p: &EntDefProperty)
    ensures
        final(out)@ == old(out)@ + def_property_text(name@, *p),
{
    let ghost o = out@;
    let ghost ty_name = match &p.ty { EntDefPropertyType::Value(t) => t@, EntDefPropertyType::Choices(_) => "choices"@ };
    let ghost title = match &p.title { Some(t) => t@, None => name@ };
    let ghost dv = match &p.default_value { Some(d) => d@, None => Seq::<char>::empty() };
    let ghost ds = match &p.description { Some(d) => d@, None => Seq::<char>::empty() };
    let ghost ch = match &p.ty {
        EntDefPropertyType::Choices(c) => " = \n\t[\n"@ + def_choice_lines(c@) + "\t]"@,
        EntDefPropertyType::Value(_) => Seq::<char>::empty(),
    };
    push_str(out, "\t");
    push_str(out, name);
    proof { lemma_extend(o, "\t"@, name@); }
    let ghost a = "\t"@ + name@;
    push_str(out, "(");
    proof { lemma_extend(o, a, "("@); }
    let ghost a = a + "("@;
    match &p.ty {
        EntDefPropertyType::Value(t) => push_str(out, t.as_str()),
        EntDefPropertyType::Choices(_) => push_str(out, "choices"),
    }
    proof { lemma_extend(o, a, ty_name); }
    let ghost a = a + ty_name;
    push_str(out, ") : \"");
    proof { lemma_extend(o, a, ") : \""@); }
    let ghost a = a + ") : \""@;
    match &p.title {
        Some(t) => push_str(out, t.as_str()),
        None => push_str(out, name),
    }
    proof { lemma_extend(o, a, title); }
    let ghost a = a + title;
    push_str(out, "\" : ");
    proof { lemma_extend(o, a, "\" : "@); }
    let ghost a = a + "\" : "@;
    let o2 = out.clone();
    match &p.default_value {
        Some(d) => push_str(out, d.as_str()),
        None => { assert(out@ == o2@ + dv); },
    }
    proof { lemma_extend(o, a, dv); }
    let ghost a = a + dv;
    push_str(out, " : \"");
    proof { lemma_extend(o, a, " : \""@); }
    let ghost a = a + " : \""@;
    let o3 = out.clone();
    match &p.description {
        Some(d) => push_str(out, d.as_str()),
        None => { assert(out@ == o3@ + ds); },
    }
    proof { lemma_extend(o, a, ds); }
    let ghost a = a + ds;
    push_str(out, "\"");
    proof { lemma_extend(o, a, "\""@); }
    let ghost a = a + "\""@;
    let o4 = out.clone();
    match &p.ty {
        EntDefPropertyType::Choices(c) => {
            push_str(out, " = \n\t[\n");
            push_def_choices(out, c);
            proof { lemma_extend(o4@, " = \n\t[\n"@, def_choice_lines(c@)); }
            push_str(out, "\t]");
            proof { lemma_extend(o4@, " = \n\t[\n"@ + def_choice_lines(c@), "\t]"@); }
        },
        EntDefPropertyType::Value(_) => { assert(out@ == o4@ + ch); },
    }
    proof { lemma_extend(o, a, ch); }
    let ghost a = a + ch;
    push_str(out, "\n");
    proof {
        lemma_extend(o, a, "\n"@);
        assert(a + "\n"@ =~= def_property_text(name@, *p));
    }
}

} // verus!
