//! The classname a class attribute gives a type: a literal name, the type's name in a casing,
//! or (by default) the type's name in snake case, prefixed by the class's group if it has one.
use vstd::prelude::*;
use heck::{ToLowerCamelCase, ToPascalCase, ToShoutySnakeCase, ToSnakeCase};
use crate::class::{trim_char, trim_char_bounds};
use crate::text::{chars_of, push_str, str_eq, string_from_chars};

verus! {

/// `heck`'s snake case of `s` (`ToSnakeCase::to_snake_case`).
pub uninterp spec fn snake_case(s: Seq<char>) -> Seq<char>;

/// `heck`'s upper snake case of `s` (`ToShoutySnakeCase::to_shouty_snake_case`).
pub uninterp spec fn shouty_snake_case(s: Seq<char>) -> Seq<char>;

/// `heck`'s lower camel case of `s` (`ToLowerCamelCase::to_lower_camel_case`).
pub uninterp spec fn lower_camel_case(s: Seq<char>) -> Seq<char>;

/// `heck`'s upper camel case of `s` (`ToPascalCase::to_pascal_case`).
pub uninterp spec fn pascal_case(s: Seq<char>) -> Seq<char>;

/// The Unicode lowercase of `s` (`str::to_lowercase`).
pub uninterp spec fn unicode_lowercase(s: Seq<char>) -> Seq<char>;

/// The Unicode uppercase of `s` (`str::to_uppercase`).
pub uninterp spec fn unicode_uppercase(s: Seq<char>) -> Seq<char>;

/// `heck`'s `to_snake_case`: the text is named (`snake_case`), not described.
#[verifier::external_body]
fn to_snake(s: &str) -> (r: String)
    ensures
        r@ == snake_case(s@),
{
    s.to_snake_case()
}

/// `heck`'s `to_shouty_snake_case`: the text is named (`shouty_snake_case`), not described.
#[verifier::external_body]
fn to_shouty_snake(s: &str) -> (r: String)
    ensures
        r@ == shouty_snake_case(s@),
{
    s.to_shouty_snake_case()
}

/// `heck`'s `to_lower_camel_case`: the text is named (`lower_camel_case`), not described.
#[verifier::external_body]
fn to_lower_camel(s: &str) -> (r: String)
    ensures
        r@ == lower_camel_case(s@),
{
    s.to_lower_camel_case()
}

/// `heck`'s `to_pascal_case`: the text is named (`pascal_case`), not described.
#[verifier::external_body]
fn to_pascal(s: &str) -> (r: String)
    ensures
        r@ == pascal_case(s@),
{
    s.to_pascal_case()
}

/// `str::to_lowercase`: the text is named (`unicode_lowercase`), not described.
#[verifier::external_body]
fn to_lower(s: &str) -> (r: String)
    ensures
        r@ == unicode_lowercase(s@),
{
    s.to_lowercase()
}

/// `str::to_uppercase`: the text is named (`unicode_uppercase`), not described.
#[verifier::external_body]
fn to_upper(s: &str) -> (r: String)
    ensures
        r@ == unicode_uppercase(s@),
{
    s.to_uppercase()
}

/// A casing a classname can be given in.
#[derive(Debug, Clone, Copy, PartialEq, Eq, Structural)]
pub enum Casing {
    /// `snake_case`
    SnakeCase,
    /// `UPPER_SNAKE_CASE`
    UpperSnakeCase,
    /// `lowercase`
    Lowercase,
    /// `UPPERCASE`
    Uppercase,
    /// `camelCase`
    CamelCase,
    /// `PascalCase`
    PascalCase,
}

/// The casing written as `name`, if it is one of the six.
pub open spec fn spec_casing(name: Seq<char>) -> Option<Casing> {
    if name == "snake_case"@ {
        Some(Casing::SnakeCase)
    } else if name == "UPPER_SNAKE_CASE"@ {
        Some(Casing::UpperSnakeCase)
    } else if name == "lowercase"@ {
        Some(Casing::Lowercase)
    } else if name == "UPPERCASE"@ {
        Some(Casing::Uppercase)
    } else if name == "camelCase"@ {
        Some(Casing::CamelCase)
    } else if name == "PascalCase"@ {
        Some(Casing::PascalCase)
    } else {
        None
    }
}

/// The casing written as `name`; any other name is invalid (the attribute then fails with
/// "Invalid casing!").
pub fn casing_from_name(name: &str) -> (r: Option<Casing>)
    ensures
        r == spec_casing(name@),
{
    if str_eq(name, "snake_case") {
        Some(Casing::SnakeCase)
    } else if str_eq(name, "UPPER_SNAKE_CASE") {
        Some(Casing::UpperSnakeCase)
    } else if str_eq(name, "lowercase") {
        Some(Casing::Lowercase)
    } else if str_eq(name, "UPPERCASE") {
        Some(Casing::Uppercase)
    } else if str_eq(name, "camelCase") {
        Some(Casing::CamelCase)
    } else if str_eq(name, "PascalCase") {
        Some(Casing::PascalCase)
    } else {
        None
    }
}

/// What the `classname(..)` setting of a class attribute holds.
#[derive(Debug, Clone, PartialEq, Eq)]
pub enum ClassNameSource {
    /// A literal: the literal's text as written, quotes included.
    Literal(String),
    /// A casing to apply to the type's name.
    Casing(Casing),
}

/// `name` in the casing `casing`.
pub open spec fn cased(name: Seq<char>, casing: Casing) -> Seq<char> {
    match casing {
        Casing::SnakeCase => snake_case(name),
        Casing::UpperSnakeCase => shouty_snake_case(name),
        Casing::Lowercase => unicode_lowercase(name),
        Casing::Uppercase => unicode_uppercase(name),
        Casing::CamelCase => lower_camel_case(name),
        Casing::PascalCase => pascal_case(name),
    }
}

/// The classname of the type whose identifier is `ident`: the literal without its quotes, or the type's
/// name in the casing asked for, snake case by default; `group_` in front when the class has a
/// group.
pub open spec fn spec_class_name(ident: Seq<char>, source: Option<ClassNameSource>, group: Option<Seq<char>>) -> Seq<char> {
    let name = match source {
        Some(ClassNameSource::Literal(t)) => trim_char(t@, '"'),
        Some(ClassNameSource::Casing(c)) => cased(ident, c),
        None => snake_case(ident),
    };
    match group {
        Some(g) => g + "_"@ + name,
        None => name,
    }
}

/// The classname a class attribute gives the type with the identifier `ident` (see [`spec_class_name`]).
pub fn class_name(ident: &str, source: &Option<ClassNameSource>, group: Option<&str>) -> (r: String)
    ensures
        r@ == spec_class_name(ident@, *source, match group { Some(g) => Some(g@), None => None }),
{
    let name = match source {
        Some(ClassNameSource::Literal(t)) => {
            let v = chars_of(t.as_str());
            let (lo, hi) = trim_char_bounds(&v, '"');
            string_from_chars(&v, lo, hi)
        },
        Some(ClassNameSource::Casing(c)) => match c {
            Casing::SnakeCase => to_snake(ident),
            Casing::UpperSnakeCase => to_shouty_snake(ident),
            Casing::Lowercase => to_lower(ident),
            Casing::Uppercase => to_upper(ident),
            Casing::CamelCase => to_lower_camel(ident),
            Casing::PascalCase => to_pascal(ident),
        },
        None => to_snake(ident),
    };
    match group {
        Some(g) => {
            let mut out = g.to_owned();
            push_str(&mut out, "_");
            push_str(&mut out, name.as_str());
            out
        },
        None => name,
    }
}

} // verus!
