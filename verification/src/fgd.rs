//! Parsing and printing of entity property values, FGD style.
use vstd::prelude::*;
use crate::class::{ChoicesKey, QuakeClassPropertyType};
use crate::text::{
    ascii_words, split_ascii_whitespace, strings_view, chars_of, int_to_dec, is_unicode_whitespace, lemma_parse_int_to_dec, nat_to_dec, parse_int_chars,
    parse_int_spec, push_char, push_str, string_from_chars, trim, trim_bounds, u64_to_string,
    i64_to_string, IntErrorKind,
};

verus! {

/// Why a property value could not be parsed.
#[derive(Debug, Clone, Copy, PartialEq, Eq, Structural)]
pub enum FgdParseError {
    /// The value is not a valid integer of the expected type.
    Int(IntErrorKind),
    /// The value is neither `true` nor `false`.
    InvalidBool,
    /// The value is a number that no variant of the expected enum has.
    InvalidVariant,
    /// The value has more elements than the array it is parsed into.
    TooManyElements,
}

/// `s` in double quotes when `quoted`, else `s` itself.
pub open spec fn quote_if(quoted: bool, s: Seq<char>) -> Seq<char> {
    if quoted {
        seq!['"'] + s + seq!['"']
    } else {
        s
    }
}

/// Quake/TrenchBroom-specific parsing and stringification of property values.
pub trait FgdType: Sized {
    /// Whether quotes are put around this value when writing out an FGD file.
    spec fn spec_quoted() -> bool;

    /// The error that parsing `input` gives, if any.
    spec fn spec_parse_error(input: Seq<char>) -> Option<FgdParseError>;

    /// Whether parsing `input` gives `value`.
    spec fn spec_parses_to(input: Seq<char>, value: Self) -> bool;

    /// The text of this value in an FGD file, without quotes.
    spec fn spec_unquoted(&self) -> Seq<char>;

    /// If quotes should be put around this value when writing out an FGD file.
    fn fgd_is_quoted() -> (r: bool)
        ensures
            r == Self::spec_quoted(),
    ;

    /// Whether `ty` is the FGD type of properties holding this type.
    spec fn spec_property_type(ty: QuakeClassPropertyType) -> bool;

    /// The FGD type of properties holding this type.
    fn property_type() -> (r: QuakeClassPropertyType)
        ensures
            Self::spec_property_type(r),
    ;

    /// Parses a string into `Self` FGD-style. Used for parsing entity properties.
    fn fgd_parse(input: &str) -> (r: Result<Self, FgdParseError>)
        ensures
            match r {
                Ok(v) => Self::spec_parse_error(input@) is None && Self::spec_parses_to(input@, v),
                Err(e) => Self::spec_parse_error(input@) == Some(e),
            },
    ;

    /// Converts this value into a string used for writing FGDs.
    fn fgd_to_string_unquoted(&self) -> (r: String)
        ensures
            r@ == self.spec_unquoted(),
    ;

    /// Calls `fgd_to_string_unquoted`, but if the type is quoted, surrounds the output with quotes.
    fn fgd_to_string(&self) -> (r: String)
        ensures
            r@ == quote_if(Self::spec_quoted(), self.spec_unquoted()),
    {
        let inner = self.fgd_to_string_unquoted();
        if Self::fgd_is_quoted() {
            let mut s = String::new();
            push_char(&mut s, '"');
            push_str(&mut s, inner.as_str());
            push_char(&mut s, '"');
            s
        } else {
            inner
        }
    }
}

/// Parses `input`, surrounding whitespace removed, as a decimal integer of a type holding `[min, max]`.
pub fn parse_trimmed_int(input: &str, signed: bool, min: i128, max: i128) -> (r: Result<i128, IntErrorKind>)
    requires
        -0x8000_0000_0000_0000 <= min <= 0 <= max <= 0xffff_ffff_ffff_ffff,
    ensures
        match parse_int_spec(trim(input@), signed, min as int, max as int) {
            Ok(x) => r == Ok::<i128, IntErrorKind>(x as i128),
            Err(e) => r == Err::<i128, IntErrorKind>(e),
        },
{
    let v = chars_of(input);
    let (lo, hi) = trim_bounds(&v);
    parse_int_chars(&v, lo, hi, signed, min, max)
}

/// The parse error of an integer type holding `[min, max]`.
pub open spec fn int_parse_error(input: Seq<char>, signed: bool, min: int, max: int) -> Option<FgdParseError> {
    match parse_int_spec(trim(input), signed, min, max) {
        Ok(_) => None,
        Err(e) => Some(FgdParseError::Int(e)),
    }
}

/// Whether an integer type holding `[min, max]` parses `input` to `v`.
pub open spec fn int_parses_to(input: Seq<char>, signed: bool, min: int, max: int, v: int) -> bool {
    parse_int_spec(trim(input), signed, min, max) == Ok::<int, IntErrorKind>(v)
}

fn integer_property_type() -> (r: QuakeClassPropertyType)
    ensures
        r == QuakeClassPropertyType::Value("integer"),
{
    QuakeClassPropertyType::Value("integer")
}

impl FgdType for u8 {
    open spec fn spec_quoted() -> bool { false }
    open spec fn spec_parse_error(input: Seq<char>) -> Option<FgdParseError> { int_parse_error(input, false, 0, 0xff) }
    open spec fn spec_parses_to(input: Seq<char>, value: Self) -> bool { int_parses_to(input, false, 0, 0xff, value as int) }
    open spec fn spec_unquoted(&self) -> Seq<char> { nat_to_dec(*self as nat) }
    fn fgd_is_quoted() -> (r: bool) { false }
    open spec fn spec_property_type(ty: QuakeClassPropertyType) -> bool { ty == QuakeClassPropertyType::Value("integer") }
    fn property_type() -> (r: QuakeClassPropertyType) { integer_property_type() }
    fn fgd_parse(input: &str) -> (r: Result<Self, FgdParseError>) {
        match parse_trimmed_int(input, false, 0, 0xff) {
            Ok(x) => Ok(x as u8),
            Err(e) => Err(FgdParseError::Int(e)),
        }
    }
    fn fgd_to_string_unquoted(&self) -> (r: String) { u64_to_string(*self as u64) }
}

impl FgdType for u16 {
    open spec fn spec_quoted() -> bool { false }
    open spec fn spec_parse_error(input: Seq<char>) -> Option<FgdParseError> { int_parse_error(input, false, 0, 0xffff) }
    open spec fn spec_parses_to(input: Seq<char>, value: Self) -> bool { int_parses_to(input, false, 0, 0xffff, value as int) }
    open spec fn spec_unquoted(&self) -> Seq<char> { nat_to_dec(*self as nat) }
    fn fgd_is_quoted() -> (r: bool) { false }
    open spec fn spec_property_type(ty: QuakeClassPropertyType) -> bool { ty == QuakeClassPropertyType::Value("integer") }
    fn property_type() -> (r: QuakeClassPropertyType) { integer_property_type() }
    fn fgd_parse(input: &str) -> (r: Result<Self, FgdParseError>) {
        match parse_trimmed_int(input, false, 0, 0xffff) {
            Ok(x) => Ok(x as u16),
            Err(e) => Err(FgdParseError::Int(e)),
        }
    }
    fn fgd_to_string_unquoted(&self) -> (r: String) { u64_to_string(*self as u64) }
}

impl FgdType for u32 {
    open spec fn spec_quoted() -> bool { false }
    open spec fn spec_parse_error(input: Seq<char>) -> Option<FgdParseError> { int_parse_error(input, false, 0, 0xffff_ffff) }
    open spec fn spec_parses_to(input: Seq<char>, value: Self) -> bool { int_parses_to(input, false, 0, 0xffff_ffff, value as int) }
    open spec fn spec_unquoted(&self) -> Seq<char> { nat_to_dec(*self as nat) }
    fn fgd_is_quoted() -> (r: bool) { false }
    open spec fn spec_property_type(ty: QuakeClassPropertyType) -> bool { ty == QuakeClassPropertyType::Value("integer") }
    fn property_type() -> (r: QuakeClassPropertyType) { integer_property_type() }
    fn fgd_parse(input: &str) -> (r: Result<Self, FgdParseError>) {
        match parse_trimmed_int(input, false, 0, 0xffff_ffff) {
            Ok(x) => Ok(x as u32),
            Err(e) => Err(FgdParseError::Int(e)),
        }
    }
    fn fgd_to_string_unquoted(&self) -> (r: String) { u64_to_string(*self as u64) }
}

impl FgdType for u64 {
    open spec fn spec_quoted() -> bool { false }
    open spec fn spec_parse_error(input: Seq<char>) -> Option<FgdParseError> { int_parse_error(input, false, 0, 0xffff_ffff_ffff_ffff) }
    open spec fn spec_parses_to(input: Seq<char>, value: Self) -> bool { int_parses_to(input, false, 0, 0xffff_ffff_ffff_ffff, value as int) }
    open spec fn spec_unquoted(&self) -> Seq<char> { nat_to_dec(*self as nat) }
    fn fgd_is_quoted() -> (r: bool) { false }
    open spec fn spec_property_type(ty: QuakeClassPropertyType) -> bool { ty == QuakeClassPropertyType::Value("integer") }
    fn property_type() -> (r: QuakeClassPropertyType) { integer_property_type() }
    fn fgd_parse(input: &str) -> (r: Result<Self, FgdParseError>) {
        match parse_trimmed_int(input, false, 0, 0xffff_ffff_ffff_ffff) {
            Ok(x) => Ok(x as u64),
            Err(e) => Err(FgdParseError::Int(e)),
        }
    }
    fn fgd_to_string_unquoted(&self) -> (r: String) { u64_to_string(*self) }
}

impl FgdType for usize {
    open spec fn spec_quoted() -> bool { false }
    open spec fn spec_parse_error(input: Seq<char>) -> Option<FgdParseError> { int_parse_error(input, false, 0, usize::MAX as int) }
    open spec fn spec_parses_to(input: Seq<char>, value: Self) -> bool { int_parses_to(input, false, 0, usize::MAX as int, value as int) }
    open spec fn spec_unquoted(&self) -> Seq<char> { nat_to_dec(*self as nat) }
    fn fgd_is_quoted() -> (r: bool) { false }
    open spec fn spec_property_type(ty: QuakeClassPropertyType) -> bool { ty == QuakeClassPropertyType::Value("integer") }
    fn property_type() -> (r: QuakeClassPropertyType) { integer_property_type() }
    fn fgd_parse(input: &str) -> (r: Result<Self, FgdParseError>) {
        match parse_trimmed_int(input, false, 0, usize::MAX as i128) {
            Ok(x) => Ok(x as usize),
            Err(e) => Err(FgdParseError::Int(e)),
        }
    }
    fn fgd_to_string_unquoted(&self) -> (r: String) { u64_to_string(*self as u64) }
}

impl FgdType for i8 {
    open spec fn spec_quoted() -> bool { false }
    open spec fn spec_parse_error(input: Seq<char>) -> Option<FgdParseError> { int_parse_error(input, true, -0x80, 0x7f) }
    open spec fn spec_parses_to(input: Seq<char>, value: Self) -> bool { int_parses_to(input, true, -0x80, 0x7f, value as int) }
    open spec fn spec_unquoted(&self) -> Seq<char> { int_to_dec(*self as int) }
    fn fgd_is_quoted() -> (r: bool) { false }
    open spec fn spec_property_type(ty: QuakeClassPropertyType) -> bool { ty == QuakeClassPropertyType::Value("integer") }
    fn property_type() -> (r: QuakeClassPropertyType) { integer_property_type() }
    fn fgd_parse(input: &str) -> (r: Result<Self, FgdParseError>) {
        match parse_trimmed_int(input, true, -0x80, 0x7f) {
            Ok(x) => Ok(x as i8),
            Err(e) => Err(FgdParseError::Int(e)),
        }
    }
    fn fgd_to_string_unquoted(&self) -> (r: String) { i64_to_string(*self as i64) }
}

impl FgdType for i16 {
    open spec fn spec_quoted() -> bool { false }
    open spec fn spec_parse_error(input: Seq<char>) -> Option<FgdParseError> { int_parse_error(input, true, -0x8000, 0x7fff) }
    open spec fn spec_parses_to(input: Seq<char>, value: Self) -> bool { int_parses_to(input, true, -0x8000, 0x7fff, value as int) }
    open spec fn spec_unquoted(&self) -> Seq<char> { int_to_dec(*self as int) }
    fn fgd_is_quoted() -> (r: bool) { false }
    open spec fn spec_property_type(ty: QuakeClassPropertyType) -> bool { ty == QuakeClassPropertyType::Value("integer") }
    fn property_type() -> (r: QuakeClassPropertyType) { integer_property_type() }
    fn fgd_parse(input: &str) -> (r: Result<Self, FgdParseError>) {
        match parse_trimmed_int(input, true, -0x8000, 0x7fff) {
            Ok(x) => Ok(x as i16),
            Err(e) => Err(FgdParseError::Int(e)),
        }
    }
    fn fgd_to_string_unquoted(&self) -> (r: String) { i64_to_string(*self as i64) }
}

impl FgdType for i32 {
    open spec fn spec_quoted() -> bool { false }
    open spec fn spec_parse_error(input: Seq<char>) -> Option<FgdParseError> { int_parse_error(input, true, -0x8000_0000, 0x7fff_ffff) }
    open spec fn spec_parses_to(input: Seq<char>, value: Self) -> bool { int_parses_to(input, true, -0x8000_0000, 0x7fff_ffff, value as int) }
    open spec fn spec_unquoted(&self) -> Seq<char> { int_to_dec(*self as int) }
    fn fgd_is_quoted() -> (r: bool) { false }
    open spec fn spec_property_type(ty: QuakeClassPropertyType) -> bool { ty == QuakeClassPropertyType::Value("integer") }
    fn property_type() -> (r: QuakeClassPropertyType) { integer_property_type() }
    fn fgd_parse(input: &str) -> (r: Result<Self, FgdParseError>) {
        match parse_trimmed_int(input, true, -0x8000_0000, 0x7fff_ffff) {
            Ok(x) => Ok(x as i32),
            Err(e) => Err(FgdParseError::Int(e)),
        }
    }
    fn fgd_to_string_unquoted(&self) -> (r: String) { i64_to_string(*self as i64) }
}

impl FgdType for i64 {
    open spec fn spec_quoted() -> bool { false }
    open spec fn spec_parse_error(input: Seq<char>) -> Option<FgdParseError> { int_parse_error(input, true, -0x8000_0000_0000_0000, 0x7fff_ffff_ffff_ffff) }
    open spec fn spec_parses_to(input: Seq<char>, value: Self) -> bool { int_parses_to(input, true, -0x8000_0000_0000_0000, 0x7fff_ffff_ffff_ffff, value as int) }
    open spec fn spec_unquoted(&self) -> Seq<char> { int_to_dec(*self as int) }
    fn fgd_is_quoted() -> (r: bool) { false }
    open spec fn spec_property_type(ty: QuakeClassPropertyType) -> bool { ty == QuakeClassPropertyType::Value("integer") }
    fn property_type() -> (r: QuakeClassPropertyType) { integer_property_type() }
    fn fgd_parse(input: &str) -> (r: Result<Self, FgdParseError>) {
        match parse_trimmed_int(input, true, -0x8000_0000_0000_0000, 0x7fff_ffff_ffff_ffff) {
            Ok(x) => Ok(x as i64),
            Err(e) => Err(FgdParseError::Int(e)),
        }
    }
    fn fgd_to_string_unquoted(&self) -> (r: String) { i64_to_string(*self) }
}

impl FgdType for isize {
    open spec fn spec_quoted() -> bool { false }
    open spec fn spec_parse_error(input: Seq<char>) -> Option<FgdParseError> { int_parse_error(input, true, isize::MIN as int, isize::MAX as int) }
    open spec fn spec_parses_to(input: Seq<char>, value: Self) -> bool { int_parses_to(input, true, isize::MIN as int, isize::MAX as int, value as int) }
    open spec fn spec_unquoted(&self) -> Seq<char> { int_to_dec(*self as int) }
    fn fgd_is_quoted() -> (r: bool) { false }
    open spec fn spec_property_type(ty: QuakeClassPropertyType) -> bool { ty == QuakeClassPropertyType::Value("integer") }
    fn property_type() -> (r: QuakeClassPropertyType) { integer_property_type() }
    fn fgd_parse(input: &str) -> (r: Result<Self, FgdParseError>) {
        match parse_trimmed_int(input, true, isize::MIN as i128, isize::MAX as i128) {
            Ok(x) => Ok(x as isize),
            Err(e) => Err(FgdParseError::Int(e)),
        }
    }
    fn fgd_to_string_unquoted(&self) -> (r: String) { i64_to_string(*self as i64) }
}


/// Whether `v[lo..hi]` holds exactly the characters of `lit`.
pub fn chars_range_eq(v: &Vec<char>, lo: usize, hi: usize, lit: &str) -> (r: bool)
    requires
        lo <= hi <= v@.len(),
    ensures
        r == (v@.subrange(lo as int, hi as int) == lit@),
{
    let l = chars_of(lit);
    if hi - lo != l.len() {
        return false;
    }
    let mut i: usize = 0;
    while i < l.len()
        invariant
            lo <= hi <= v@.len(),
            hi - lo == l@.len(),
            l@ == lit@,
            i <= l@.len(),
            forall|j: int| 0 <= j < i ==> v@[lo + j] == l@[j],
        decreases l@.len() - i,
    {
        if v[lo + i] != l[i] {
            assert(v@.subrange(lo as int, hi as int)[i as int] != lit@[i as int]);
            return false;
        }
        i = i + 1;
    }
    assert(v@.subrange(lo as int, hi as int) =~= lit@);
    true
}

impl FgdType for bool {
    open spec fn spec_quoted() -> bool { true }
    open spec fn spec_parse_error(input: Seq<char>) -> Option<FgdParseError> {
        if trim(input) == "true"@ || trim(input) == "false"@ { None } else { Some(FgdParseError::InvalidBool) }
    }
    open spec fn spec_parses_to(input: Seq<char>, value: Self) -> bool {
        trim(input) == (if value { "true"@ } else { "false"@ })
    }
    open spec fn spec_unquoted(&self) -> Seq<char> { if *self { "true"@ } else { "false"@ } }
    fn fgd_is_quoted() -> (r: bool) { true }
    open spec fn spec_property_type(ty: QuakeClassPropertyType) -> bool {
        ty matches QuakeClassPropertyType::Choices(c) && c@ == seq![
            (ChoicesKey::String("true"), "true"),
            (ChoicesKey::String("false"), "false"),
        ]
    }
    fn property_type() -> (r: QuakeClassPropertyType) {
        let mut c = Vec::new();
        c.push((ChoicesKey::String("true"), "true"));
        c.push((ChoicesKey::String("false"), "false"));
        assert(c@ =~= seq![(ChoicesKey::String("true"), "true"), (ChoicesKey::String("false"), "false")]);
        QuakeClassPropertyType::Choices(c)
    }
    fn fgd_parse(input: &str) -> (r: Result<Self, FgdParseError>) {
        let v = chars_of(input);
        let (lo, hi) = trim_bounds(&v);
        if chars_range_eq(&v, lo, hi, "true") {
            Ok(true)
        } else if chars_range_eq(&v, lo, hi, "false") {
            Ok(false)
        } else {
            Err(FgdParseError::InvalidBool)
        }
    }
    fn fgd_to_string_unquoted(&self) -> (r: String) {
        if *self { "true".to_owned() } else { "false".to_owned() }
    }
}

impl FgdType for String {
    open spec fn spec_quoted() -> bool { true }
    open spec fn spec_parse_error(input: Seq<char>) -> Option<FgdParseError> { None }
    open spec fn spec_parses_to(input: Seq<char>, value: Self) -> bool { value@ == input }
    open spec fn spec_unquoted(&self) -> Seq<char> { self@ }
    fn fgd_is_quoted() -> (r: bool) { true }
    open spec fn spec_property_type(ty: QuakeClassPropertyType) -> bool { ty == QuakeClassPropertyType::Value("string") }
    fn property_type() -> (r: QuakeClassPropertyType) {
        QuakeClassPropertyType::Value("string")
    }
    fn fgd_parse(input: &str) -> (r: Result<Self, FgdParseError>) {
        Ok(input.to_owned())
    }
    fn fgd_to_string_unquoted(&self) -> (r: String) {
        self.clone()
    }
}

/// [`FgdType`] Wrapper for a `bool` that expects integers rather than boolean strings.
/// Non-zero is `true`, zero is `false`.
#[derive(Debug, Clone, Copy, Default, PartialEq, Eq, Structural)]
pub struct IntBool(pub bool);

impl FgdType for IntBool {
    open spec fn spec_quoted() -> bool { false }
    open spec fn spec_parse_error(input: Seq<char>) -> Option<FgdParseError> {
        int_parse_error(input, true, -0x8000_0000_0000_0000, 0x7fff_ffff_ffff_ffff)
    }
    open spec fn spec_parses_to(input: Seq<char>, value: Self) -> bool {
        match parse_int_spec(trim(input), true, -0x8000_0000_0000_0000, 0x7fff_ffff_ffff_ffff) {
            Ok(x) => value.0 == (x != 0),
            Err(_) => false,
        }
    }
    open spec fn spec_unquoted(&self) -> Seq<char> { if self.0 { "1"@ } else { "0"@ } }
    fn fgd_is_quoted() -> (r: bool) { false }
    open spec fn spec_property_type(ty: QuakeClassPropertyType) -> bool { ty == QuakeClassPropertyType::Value("integer") }
    fn property_type() -> (r: QuakeClassPropertyType) { integer_property_type() }
    fn fgd_parse(input: &str) -> (r: Result<Self, FgdParseError>) {
        match i64::fgd_parse(input) {
            Ok(v) => Ok(IntBool(v != 0)),
            Err(e) => Err(e),
        }
    }
    fn fgd_to_string_unquoted(&self) -> (r: String) {
        if self.0 { "1".to_owned() } else { "0".to_owned() }
    }
}

/// Mainly for BSP compiler properties, 1 translates to [`Enable`](IntBoolOverride::Enable),
/// 0 to [`Inherit`](IntBoolOverride::Inherit), and -1 to [`Disable`](IntBoolOverride::Disable).
#[derive(Debug, Clone, Copy, PartialEq, Eq, Structural)]
pub enum IntBoolOverride {
    Enable,
    Inherit,
    Disable,
}

impl Default for IntBoolOverride {
    fn default() -> (r: Self)
        ensures
            r == IntBoolOverride::Inherit,
    {
        IntBoolOverride::Inherit
    }
}

/// The override an integer stands for: negative disables, zero inherits, positive enables.
pub open spec fn int_bool_override_of(x: int) -> IntBoolOverride {
    if x <= -1 {
        IntBoolOverride::Disable
    } else if x == 0 {
        IntBoolOverride::Inherit
    } else {
        IntBoolOverride::Enable
    }
}

impl FgdType for IntBoolOverride {
    open spec fn spec_quoted() -> bool { false }
    open spec fn spec_parse_error(input: Seq<char>) -> Option<FgdParseError> {
        int_parse_error(input, true, -0x8000_0000_0000_0000, 0x7fff_ffff_ffff_ffff)
    }
    open spec fn spec_parses_to(input: Seq<char>, value: Self) -> bool {
        match parse_int_spec(trim(input), true, -0x8000_0000_0000_0000, 0x7fff_ffff_ffff_ffff) {
            Ok(x) => value == int_bool_override_of(x),
            Err(_) => false,
        }
    }
    open spec fn spec_unquoted(&self) -> Seq<char> {
        match self {
            IntBoolOverride::Enable => "1"@,
            IntBoolOverride::Inherit => "0"@,
            IntBoolOverride::Disable => "-1"@,
        }
    }
    fn fgd_is_quoted() -> (r: bool) { false }
    open spec fn spec_property_type(ty: QuakeClassPropertyType) -> bool { ty == QuakeClassPropertyType::Value("integer") }
    fn property_type() -> (r: QuakeClassPropertyType) { integer_property_type() }
    fn fgd_parse(input: &str) -> (r: Result<Self, FgdParseError>) {
        match i64::fgd_parse(input) {
            Ok(v) => Ok(if v <= -1 {
                IntBoolOverride::Disable
            } else if v == 0 {
                IntBoolOverride::Inherit
            } else {
                IntBoolOverride::Enable
            }),
            Err(e) => Err(e),
        }
    }
    fn fgd_to_string_unquoted(&self) -> (r: String) {
        match self {
            IntBoolOverride::Enable => "1".to_owned(),
            IntBoolOverride::Inherit => "0".to_owned(),
            IntBoolOverride::Disable => "-1".to_owned(),
        }
    }
}

impl<T: FgdType> FgdType for Option<T> {
    open spec fn spec_quoted() -> bool { T::spec_quoted() }
    open spec fn spec_parse_error(input: Seq<char>) -> Option<FgdParseError> {
        if trim(input).len() == 0 { None } else { T::spec_parse_error(input) }
    }
    open spec fn spec_parses_to(input: Seq<char>, value: Self) -> bool {
        match value {
            None => trim(input).len() == 0,
            Some(v) => trim(input).len() != 0 && T::spec_parses_to(input, v),
        }
    }
    open spec fn spec_unquoted(&self) -> Seq<char> {
        match self {
            Some(v) => v.spec_unquoted(),
            None => Seq::empty(),
        }
    }
    fn fgd_is_quoted() -> (r: bool) { T::fgd_is_quoted() }
    open spec fn spec_property_type(ty: QuakeClassPropertyType) -> bool { T::spec_property_type(ty) }
    fn property_type() -> (r: QuakeClassPropertyType) { T::property_type() }
    fn fgd_parse(input: &str) -> (r: Result<Self, FgdParseError>) {
        let v = chars_of(input);
        let (lo, hi) = trim_bounds(&v);
        if lo == hi {
            return Ok(None);
        }
        match T::fgd_parse(input) {
            Ok(x) => Ok(Some(x)),
            Err(e) => Err(e),
        }
    }
    fn fgd_to_string_unquoted(&self) -> (r: String) {
        match self {
            Some(v) => v.fgd_to_string_unquoted(),
            None => String::new(),
        }
    }
}

/// The text that a floating-point property value is read from. Some BSP properties hold
/// European localized numbers (e.g. "1,50"): when `input` holds a comma, every `.` and space
/// is dropped and each comma becomes a `.`; otherwise surrounding whitespace is removed.
pub open spec fn float_source_text(input: Seq<char>) -> Seq<char> {
    if input.contains(',') {
        localized_float_text(input)
    } else {
        trim(input)
    }
}

/// `input` with `.` and spaces dropped, and commas turned into `.`.
pub open spec fn localized_float_text(input: Seq<char>) -> Seq<char>
    decreases input.len(),
{
    if input.len() == 0 {
        Seq::empty()
    } else {
        let c = input.last();
        let rest = localized_float_text(input.drop_last());
        if c == '.' || c == ' ' {
            rest
        } else if c == ',' {
            rest.push('.')
        } else {
            rest.push(c)
        }
    }
}

/// The text that a floating-point FGD property is parsed from (see [`float_source_text`]).
pub fn fgd_float_source(input: &str) -> (r: String)
    ensures
        r@ == float_source_text(input@),
{
    let v = chars_of(input);
    let mut has_comma = false;
    let mut i: usize = 0;
    while i < v.len()
        invariant
            v@ == input@,
            i <= v@.len(),
            has_comma <==> (exists|j: int| 0 <= j < i && v@[j] == ','),
        decreases v@.len() - i,
    {
        if v[i] == ',' {
            has_comma = true;
        }
        i = i + 1;
    }
    assert(has_comma <==> v@.contains(','));
    if !has_comma {
        let (lo, hi) = trim_bounds(&v);
        return string_from_chars(&v, lo, hi);
    }
    let mut out = String::new();
    let mut j: usize = 0;
    while j < v.len()
        invariant
            v@ == input@,
            j <= v@.len(),
            out@ == localized_float_text(v@.take(j as int)),
            v@.contains(','),
        decreases v@.len() - j,
    {
        let c = v[j];
        assert(v@.take(j + 1).drop_last() == v@.take(j as int));
        if c == ',' {
            push_char(&mut out, '.');
        } else if c != '.' && c != ' ' {
            push_char(&mut out, c);
        }
        j = j + 1;
    }
    assert(v@.take(v@.len() as int) == v@);
    out
}

// ---------------------------------------------------------------------------
// Reading back what was written
// ---------------------------------------------------------------------------

/// Parsing the FGD text of a `u8` gives the same `u8` back.
pub proof fn lemma_u8_round_trip(v: u8)
    ensures
        <u8 as FgdType>::spec_parse_error(v.spec_unquoted()) is None,
        <u8 as FgdType>::spec_parses_to(v.spec_unquoted(), v),
{
    lemma_parse_int_to_dec(v as int, false, 0, 0xff);
}

/// Parsing the FGD text of a `u16` gives the same `u16` back.
pub proof fn lemma_u16_round_trip(v: u16)
    ensures
        <u16 as FgdType>::spec_parse_error(v.spec_unquoted()) is None,
        <u16 as FgdType>::spec_parses_to(v.spec_unquoted(), v),
{
    lemma_parse_int_to_dec(v as int, false, 0, 0xffff);
}

/// Parsing the FGD text of a `u32` gives the same `u32` back.
pub proof fn lemma_u32_round_trip(v: u32)
    ensures
        <u32 as FgdType>::spec_parse_error(v.spec_unquoted()) is None,
        <u32 as FgdType>::spec_parses_to(v.spec_unquoted(), v),
{
    lemma_parse_int_to_dec(v as int, false, 0, 0xffff_ffff);
}

/// Parsing the FGD text of a `u64` gives the same `u64` back.
pub proof fn lemma_u64_round_trip(v: u64)
    ensures
        <u64 as FgdType>::spec_parse_error(v.spec_unquoted()) is None,
        <u64 as FgdType>::spec_parses_to(v.spec_unquoted(), v),
{
    lemma_parse_int_to_dec(v as int, false, 0, 0xffff_ffff_ffff_ffff);
}

/// Parsing the FGD text of a `usize` gives the same `usize` back.
pub proof fn lemma_usize_round_trip(v: usize)
    ensures
        <usize as FgdType>::spec_parse_error(v.spec_unquoted()) is None,
        <usize as FgdType>::spec_parses_to(v.spec_unquoted(), v),
{
    lemma_parse_int_to_dec(v as int, false, 0, usize::MAX as int);
}

/// Parsing the FGD text of a `i8` gives the same `i8` back.
pub proof fn lemma_i8_round_trip(v: i8)
    ensures
        <i8 as FgdType>::spec_parse_error(v.spec_unquoted()) is None,
        <i8 as FgdType>::spec_parses_to(v.spec_unquoted(), v),
{
    lemma_parse_int_to_dec(v as int, true, -0x80, 0x7f);
}

/// Parsing the FGD text of a `i16` gives the same `i16` back.
pub proof fn lemma_i16_round_trip(v: i16)
    ensures
        <i16 as FgdType>::spec_parse_error(v.spec_unquoted()) is None,
        <i16 as FgdType>::spec_parses_to(v.spec_unquoted(), v),
{
    lemma_parse_int_to_dec(v as int, true, -0x8000, 0x7fff);
}

/// Parsing the FGD text of a `i32` gives the same `i32` back.
pub proof fn lemma_i32_round_trip(v: i32)
    ensures
        <i32 as FgdType>::spec_parse_error(v.spec_unquoted()) is None,
        <i32 as FgdType>::spec_parses_to(v.spec_unquoted(), v),
{
    lemma_parse_int_to_dec(v as int, true, -0x8000_0000, 0x7fff_ffff);
}

/// Parsing the FGD text of a `i64` gives the same `i64` back.
pub proof fn lemma_i64_round_trip(v: i64)
    ensures
        <i64 as FgdType>::spec_parse_error(v.spec_unquoted()) is None,
        <i64 as FgdType>::spec_parses_to(v.spec_unquoted(), v),
{
    lemma_parse_int_to_dec(v as int, true, -0x8000_0000_0000_0000, 0x7fff_ffff_ffff_ffff);
}

/// Parsing the FGD text of a `isize` gives the same `isize` back.
pub proof fn lemma_isize_round_trip(v: isize)
    ensures
        <isize as FgdType>::spec_parse_error(v.spec_unquoted()) is None,
        <isize as FgdType>::spec_parses_to(v.spec_unquoted(), v),
{
    lemma_parse_int_to_dec(v as int, true, isize::MIN as int, isize::MAX as int);
}

/// Parsing the FGD text of a `bool` gives the same `bool` back.
pub proof fn lemma_bool_round_trip(v: bool)
    ensures
        <bool as FgdType>::spec_parse_error(v.spec_unquoted()) is None,
        <bool as FgdType>::spec_parses_to(v.spec_unquoted(), v),
{
    reveal_strlit("true");
    reveal_strlit("false");
    crate::text::lemma_trim_unchanged("true"@);
    crate::text::lemma_trim_unchanged("false"@);
}

/// Parsing a string as an FGD string gives it back unchanged.
pub proof fn lemma_string_round_trip(v: String)
    ensures
        <String as FgdType>::spec_parse_error(v.spec_unquoted()) is None,
        <String as FgdType>::spec_parses_to(v.spec_unquoted(), v),
{
}

/// `1` and `0`, the FGD text of `IntBool`, parse back to the same value.
pub proof fn lemma_int_bool_round_trip(v: IntBool)
    ensures
        <IntBool as FgdType>::spec_parse_error(v.spec_unquoted()) is None,
        <IntBool as FgdType>::spec_parses_to(v.spec_unquoted(), v),
{
    reveal_strlit("1");
    reveal_strlit("0");
    lemma_parse_int_to_dec(1, true, -0x8000_0000_0000_0000, 0x7fff_ffff_ffff_ffff);
    lemma_parse_int_to_dec(0, true, -0x8000_0000_0000_0000, 0x7fff_ffff_ffff_ffff);
    assert(int_to_dec(1) =~= "1"@);
    assert(int_to_dec(0) =~= "0"@);
}

/// `1`, `0` and `-1`, the FGD text of `IntBoolOverride`, parse back to the same value.
pub proof fn lemma_int_bool_override_round_trip(v: IntBoolOverride)
    ensures
        <IntBoolOverride as FgdType>::spec_parse_error(v.spec_unquoted()) is None,
        <IntBoolOverride as FgdType>::spec_parses_to(v.spec_unquoted(), v),
{
    reveal_strlit("1");
    reveal_strlit("0");
    reveal_strlit("-1");
    lemma_parse_int_to_dec(1, true, -0x8000_0000_0000_0000, 0x7fff_ffff_ffff_ffff);
    lemma_parse_int_to_dec(0, true, -0x8000_0000_0000_0000, 0x7fff_ffff_ffff_ffff);
    lemma_parse_int_to_dec(-1, true, -0x8000_0000_0000_0000, 0x7fff_ffff_ffff_ffff);
    assert(int_to_dec(1) =~= "1"@);
    assert(int_to_dec(0) =~= "0"@);
    assert(int_to_dec(-1) =~= "-1"@);
}

/// An absent optional value is written as nothing, and nothing parses back to absent.
pub proof fn lemma_option_none_round_trip<T: FgdType>()
    ensures
        <Option<T> as FgdType>::spec_parse_error(Option::<T>::None.spec_unquoted()) is None,
        <Option<T> as FgdType>::spec_parses_to(Option::<T>::None.spec_unquoted(), None),
{
    assert(trim(Seq::<char>::empty()) =~= Seq::<char>::empty());
}

/// A present optional value is written as the value, and reads back as present, when the
/// value's text is not blank (blank text reads back as absent).
pub proof fn lemma_option_some_round_trip<T: FgdType>(v: T)
    requires
        T::spec_parse_error(v.spec_unquoted()) is None,
        T::spec_parses_to(v.spec_unquoted(), v),
        trim(v.spec_unquoted()).len() > 0,
    ensures
        <Option<T> as FgdType>::spec_parse_error(Some(v).spec_unquoted()) is None,
        <Option<T> as FgdType>::spec_parses_to(Some(v).spec_unquoted(), Some(v)),
{
}

// ---------------------------------------------------------------------------
// Arrays
// ---------------------------------------------------------------------------

/// `[T::default(); N]`: std's `Default::default` of `T`, copied into each of the `N` elements, so
/// that every element is a value `T::default` returns.
#[verifier::external_body]
fn default_array<T: Default + Copy, const N: usize>() -> (r: [T; N])
    ensures
        forall|i: int| 0 <= i < N ==> call_ensures(T::default, (), #[trigger] r@[i]),
{
    [T::default(); N]
}

/// The first parse error among the first `k` words of `w`, if any.
pub open spec fn words_error<T: FgdType>(w: Seq<Seq<char>>, k: int) -> Option<FgdParseError>
    decreases k,
{
    if k <= 0 {
        None
    } else {
        match words_error::<T>(w, k - 1) {
            Some(e) => Some(e),
            None => T::spec_parse_error(w[k - 1]),
        }
    }
}

/// Once one of the first `a` words fails to parse, the first error among more words is the same.
proof fn lemma_words_error_extends<T: FgdType>(w: Seq<Seq<char>>, a: int, b: int)
    requires
        0 <= a <= b,
        words_error::<T>(w, a) is Some,
    ensures
        words_error::<T>(w, b) == words_error::<T>(w, a),
    decreases b - a,
{
    if a < b {
        lemma_words_error_extends::<T>(w, a, b - 1);
    }
}

/// The unquoted texts of the values `a`, separated by spaces.
pub open spec fn joined_unquoted<T: FgdType>(a: Seq<T>) -> Seq<char>
    decreases a.len(),
{
    if a.len() == 0 {
        Seq::empty()
    } else if a.len() == 1 {
        a[0].spec_unquoted()
    } else {
        joined_unquoted(a.drop_last()) + " "@ + a.last().spec_unquoted()
    }
}

/// An array is written as its elements separated by spaces, and read from the words of the
/// text (split at ASCII whitespace): each word is parsed into the element at its position, the
/// elements without a word keep `T`'s default value, and more words than elements is an error.
impl<T: FgdType + Default + Copy, const N: usize> FgdType for [T; N] {
    open spec fn spec_quoted() -> bool { true }
    open spec fn spec_parse_error(input: Seq<char>) -> Option<FgdParseError> {
        let w = ascii_words(input);
        let k = if w.len() < N { w.len() as int } else { N as int };
        match words_error::<T>(w, k) {
            Some(e) => Some(e),
            None => if w.len() > N { Some(FgdParseError::TooManyElements) } else { None },
        }
    }
    open spec fn spec_parses_to(input: Seq<char>, value: Self) -> bool {
        let w = ascii_words(input);
        &&& w.len() <= N
        &&& forall|i: int| 0 <= i < w.len() ==> T::spec_parses_to(w[i], #[trigger] value@[i])
        &&& forall|i: int| w.len() <= i < N ==> call_ensures(T::default, (), #[trigger] value@[i])
    }
    open spec fn spec_unquoted(&self) -> Seq<char> { joined_unquoted(self@) }

    fn fgd_is_quoted() -> (r: bool) { true }
    open spec fn spec_property_type(ty: QuakeClassPropertyType) -> bool { T::spec_property_type(ty) }
    fn property_type() -> (r: QuakeClassPropertyType) { T::property_type() }

    fn fgd_parse(input: &str) -> (r: Result<Self, FgdParseError>) {
        let words = split_ascii_whitespace(input);
        let ghost w = ascii_words(input@);
        let mut out: [T; N] = default_array();
        let mut i: usize = 0;
        while i < words.len()
            invariant
                w == ascii_words(input@),
                strings_view(words@) == w,
                i <= words@.len(),
                i <= N,
                words_error::<T>(w, i as int) is None,
                forall|j: int| 0 <= j < i ==> T::spec_parses_to(w[j], #[trigger] out@[j]),
                forall|j: int| i <= j < N ==> call_ensures(T::default, (), #[trigger] out@[j]),
            decreases words@.len() - i,
        {
            if i >= N {
                assert(w.len() > N);
                return Err(FgdParseError::TooManyElements);
            }
            assert(words@[i as int]@ == w[i as int]);
            match T::fgd_parse(words[i].as_str()) {
                Ok(x) => {
                    out.set(i, x);
                },
                Err(e) => {
                    proof {
                        let k = if w.len() < N { w.len() as int } else { N as int };
                        assert(words_error::<T>(w, i + 1) == Some(e));
                        lemma_words_error_extends::<T>(w, i + 1, k);
                    }
                    return Err(e);
                },
            }
            i = i + 1;
        }
        Ok(out)
    }

    fn fgd_to_string_unquoted(&self) -> (r: String) {
        let mut out = String::new();
        let mut i: usize = 0;
        while i < N
            invariant
                i <= N,
                out@ == joined_unquoted(self@.take(i as int)),
            decreases N - i,
        {
            assert(self@.take(i + 1).drop_last() == self@.take(i as int));
            let part = self[i].fgd_to_string_unquoted();
            if i > 0 {
                push_str(&mut out, " ");
            }
            push_str(&mut out, part.as_str());
            proof {
                if i == 0 {
                    assert(out@ =~= joined_unquoted(self@.take(1)));
                } else {
                    assert(out@ =~= joined_unquoted(self@.take(i + 1)));
                }
            }
            i = i + 1;
        }
        assert(self@.take(N as int) == self@);
        out
    }
}

/// The words that fill an array of `n` elements from `input`, as the array parser reads them:
/// the first `n` words of the text (split at ASCII whitespace), and whether the text has more
/// words than that, which makes the value an error once those words have been parsed.
pub fn fgd_array_words(input: &str, n: usize) -> (r: (Vec<String>, bool))
    ensures
        strings_view(r.0@) == ascii_words(input@).take(
            if ascii_words(input@).len() < n { ascii_words(input@).len() as int } else { n as int },
        ),
        r.1 == (ascii_words(input@).len() > n),
{
    let words = split_ascii_whitespace(input);
    let ghost w = ascii_words(input@);
    let mut out: Vec<String> = Vec::new();
    let mut i: usize = 0;
    while i < words.len() && i < n
        invariant
            strings_view(words@) == w,
            i <= words@.len(),
            i <= n,
            strings_view(out@) == w.take(i as int),
        decreases words@.len() - i,
    {
        assert(words@[i as int]@ == w[i as int]);
        let ghost before = out@;
        assert(strings_view(before).len() == before.len());
        assert(before.len() == i);
        let word = words[i].clone();
        assert(word@ == w[i as int]);
        out.push(word);
        assert(out@ == before.push(word));
        assert forall|j: int| 0 <= j < i + 1 implies #[trigger] strings_view(out@)[j] == w.take(i + 1)[j] by {
            if j < i {
                assert(strings_view(before)[j] == w.take(i as int)[j]);
                assert(out@[j] == before[j]);
            } else {
                assert(out@[j] == word);
            }
        }
        assert(strings_view(out@) =~= w.take(i + 1));
        i = i + 1;
    }
    (out, words.len() > n)
}

/// Whether `w` is one word: not empty, and without ASCII whitespace.
pub open spec fn is_one_word(w: Seq<char>) -> bool {
    w.len() > 0 && forall|i: int| 0 <= i < w.len() ==> !crate::text::is_ascii_ws(#[trigger] w[i])
}

/// A word written after a text that is empty or ends in whitespace is the text's words and
/// then that word.
proof fn lemma_words_then_word(s: Seq<char>, w: Seq<char>)
    requires
        is_one_word(w),
        s.len() == 0 || crate::text::is_ascii_ws(s.last()),
    ensures
        ascii_words(s + w) == ascii_words(s).push(w),
    decreases w.len(),
{
    if w.len() == 1 {
        assert((s + w).drop_last() =~= s);
        assert(seq![w[0]] =~= w);
    } else {
        let w0 = w.drop_last();
        assert(is_one_word(w0));
        lemma_words_then_word(s, w0);
        assert((s + w).drop_last() =~= s + w0);
        assert((s + w)[(s + w).len() - 2] == w0.last());
        assert(ascii_words(s).push(w0).drop_last() =~= ascii_words(s));
        assert(w0.push(w.last()) =~= w);
    }
}

/// Trailing whitespace adds no word.
proof fn lemma_words_then_space(s: Seq<char>)
    ensures
        ascii_words(s + " "@) == ascii_words(s),
{
    reveal_strlit(" ");
    assert((s + " "@).drop_last() =~= s);
}

/// The texts of the values `a`.
pub open spec fn unquoted_texts<T: FgdType>(a: Seq<T>) -> Seq<Seq<char>> {
    Seq::new(a.len(), |i: int| a[i].spec_unquoted())
}

/// Values that are each written as one word are read back as those words.
proof fn lemma_joined_words<T: FgdType>(a: Seq<T>)
    requires
        forall|i: int| 0 <= i < a.len() ==> is_one_word(#[trigger] a[i].spec_unquoted()),
    ensures
        ascii_words(joined_unquoted(a)) == unquoted_texts(a),
    decreases a.len(),
{
    if a.len() == 1 {
        lemma_words_then_word(Seq::empty(), a[0].spec_unquoted());
        assert(Seq::<char>::empty() + a[0].spec_unquoted() =~= a[0].spec_unquoted());
        assert(unquoted_texts(a) =~= seq![a[0].spec_unquoted()]);
    } else if a.len() > 1 {
        let rest = a.drop_last();
        lemma_joined_words(rest);
        lemma_words_then_space(joined_unquoted(rest));
        reveal_strlit(" ");
        lemma_words_then_word(joined_unquoted(rest) + " "@, a.last().spec_unquoted());
        assert(unquoted_texts(a) =~= unquoted_texts(rest).push(a.last().spec_unquoted()));
    } else {
        assert(unquoted_texts(a) =~= Seq::<Seq<char>>::empty());
    }
}

/// No word among the first `k` fails to parse when each parses.
proof fn lemma_words_error_none<T: FgdType>(w: Seq<Seq<char>>, k: int)
    requires
        0 <= k <= w.len(),
        forall|i: int| 0 <= i < k ==> (#[trigger] T::spec_parse_error(w[i])) is None,
    ensures
        words_error::<T>(w, k) is None,
    decreases k,
{
    if k > 0 {
        lemma_words_error_none::<T>(w, k - 1);
    }
}

/// An array whose elements each read back from their text, written as one word, reads back
/// from its own text.
pub proof fn lemma_array_round_trip<T: FgdType + Default + Copy, const N: usize>(v: [T; N])
    requires
        forall|i: int| 0 <= i < N ==> is_one_word(#[trigger] v@[i].spec_unquoted()),
        forall|i: int| 0 <= i < N ==> (#[trigger] T::spec_parse_error(v@[i].spec_unquoted())) is None,
        forall|i: int| 0 <= i < N ==> T::spec_parses_to(v@[i].spec_unquoted(), #[trigger] v@[i]),
    ensures
        <[T; N] as FgdType>::spec_parse_error(v.spec_unquoted()) is None,
        <[T; N] as FgdType>::spec_parses_to(v.spec_unquoted(), v),
{
    lemma_joined_words(v@);
    let w = ascii_words(v.spec_unquoted());
    assert(w == unquoted_texts(v@));
    assert forall|i: int| 0 <= i < N implies (#[trigger] T::spec_parse_error(w[i])) is None by {
        assert(w[i] == v@[i].spec_unquoted());
    }
    lemma_words_error_none::<T>(w, N as int);
    assert forall|i: int| 0 <= i < w.len() implies T::spec_parses_to(w[i], #[trigger] v@[i]) by {
        assert(w[i] == v@[i].spec_unquoted());
    }
}

} // verus!
