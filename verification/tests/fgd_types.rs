use bevy_trenchbroom::builtin::BspLightAttenuation;
use bevy_trenchbroom::class::{ChoicesKey, QuakeClassPropertyType};
use bevy_trenchbroom::fgd::{fgd_array_words, fgd_float_source, FgdParseError, FgdType, IntBool, IntBoolOverride};
use bevy_trenchbroom::text::IntErrorKind;

#[test]
fn integers_round_trip() {
	assert_eq!(u8::fgd_parse(&255u8.fgd_to_string()), Ok(255));
	assert_eq!(i8::fgd_parse(&(-128i8).fgd_to_string()), Ok(-128));
	assert_eq!(u64::fgd_parse(&u64::MAX.fgd_to_string()), Ok(u64::MAX));
	assert_eq!(i64::fgd_parse(&i64::MIN.fgd_to_string()), Ok(i64::MIN));
	assert_eq!(i32::fgd_parse(&0i32.fgd_to_string()), Ok(0));
	assert_eq!(usize::fgd_parse(&1234usize.fgd_to_string()), Ok(1234));
	assert_eq!(isize::fgd_parse(&(-77isize).fgd_to_string()), Ok(-77));
}

#[test]
fn integers_are_written_in_decimal_without_quotes() {
	assert_eq!(42u32.fgd_to_string(), "42");
	assert_eq!((-7i16).fgd_to_string(), "-7");
	assert_eq!(0u16.fgd_to_string_unquoted(), "0");
	assert!(!u8::fgd_is_quoted());
}

#[test]
fn integers_parse_like_rust() {
	assert_eq!(i32::fgd_parse("  17 "), Ok(17));
	assert_eq!(i32::fgd_parse("+17"), Ok(17));
	assert_eq!(u32::fgd_parse("-1"), Err(FgdParseError::Int(IntErrorKind::InvalidDigit)));
	assert_eq!(u8::fgd_parse("256"), Err(FgdParseError::Int(IntErrorKind::PosOverflow)));
	assert_eq!(i8::fgd_parse("-129"), Err(FgdParseError::Int(IntErrorKind::NegOverflow)));
	assert_eq!(i64::fgd_parse("   "), Err(FgdParseError::Int(IntErrorKind::Empty)));
	assert_eq!(i64::fgd_parse("-"), Err(FgdParseError::Int(IntErrorKind::InvalidDigit)));
	assert_eq!(i64::fgd_parse("12a"), Err(FgdParseError::Int(IntErrorKind::InvalidDigit)));
}

#[test]
fn integer_property_type() {
	assert!(matches!(i32::property_type(), QuakeClassPropertyType::Value("integer")));
}

#[test]
fn bools() {
	assert_eq!(bool::fgd_parse(" true"), Ok(true));
	assert_eq!(bool::fgd_parse("false"), Ok(false));
	assert_eq!(bool::fgd_parse("yes"), Err(FgdParseError::InvalidBool));
	assert_eq!(true.fgd_to_string(), "\"true\"");
	assert_eq!(false.fgd_to_string_unquoted(), "false");
	match bool::property_type() {
		QuakeClassPropertyType::Choices(c) => {
			assert_eq!(c.len(), 2);
			assert_eq!(c[0].0, ChoicesKey::String("true"));
			assert_eq!(c[1].0, ChoicesKey::String("false"));
		},
		_ => panic!("bool is a choices property"),
	}
}

#[test]
fn strings() {
	assert_eq!(String::fgd_parse(" a b "), Ok(" a b ".to_string()));
	assert_eq!("x y".to_string().fgd_to_string(), "\"x y\"");
}

#[test]
fn int_bool_nonzero_is_true() {
	assert_eq!(IntBool::fgd_parse("1"), Ok(IntBool(true)));
	assert_eq!(IntBool::fgd_parse("0"), Ok(IntBool(false)));
	assert_eq!(IntBool::fgd_parse("-3"), Ok(IntBool(true)));
	assert_eq!(IntBool(true).fgd_to_string(), "1");
	assert_eq!(IntBool(false).fgd_to_string(), "0");
	assert_eq!(IntBool::fgd_parse("x"), Err(FgdParseError::Int(IntErrorKind::InvalidDigit)));
}

#[test]
fn int_bool_override_mapping() {
	assert_eq!(IntBoolOverride::fgd_parse("1"), Ok(IntBoolOverride::Enable));
	assert_eq!(IntBoolOverride::fgd_parse("0"), Ok(IntBoolOverride::Inherit));
	assert_eq!(IntBoolOverride::fgd_parse("-1"), Ok(IntBoolOverride::Disable));
	assert_eq!(IntBoolOverride::fgd_parse("5"), Ok(IntBoolOverride::Enable));
	assert_eq!(IntBoolOverride::fgd_parse("-9"), Ok(IntBoolOverride::Disable));
	assert_eq!(IntBoolOverride::Disable.fgd_to_string(), "-1");
	assert_eq!(IntBoolOverride::default(), IntBoolOverride::Inherit);
}

#[test]
fn options() {
	assert_eq!(Option::<i32>::fgd_parse("  "), Ok(None));
	assert_eq!(Option::<i32>::fgd_parse(" 4"), Ok(Some(4)));
	assert_eq!(Option::<i32>::fgd_parse("z"), Err(FgdParseError::Int(IntErrorKind::InvalidDigit)));
	assert_eq!(Option::<String>::None.fgd_to_string(), "\"\"");
	assert_eq!(Some(3u8).fgd_to_string(), "3");
}

#[test]
fn light_attenuation_uses_numbers() {
	assert_eq!(BspLightAttenuation::fgd_parse("3"), Ok(BspLightAttenuation::NoAttenuation));
	assert_eq!(BspLightAttenuation::fgd_parse("5"), Ok(BspLightAttenuation::ReciprocalSquareTweaked));
	assert_eq!(BspLightAttenuation::fgd_parse("6"), Err(FgdParseError::InvalidVariant));
	assert_eq!(BspLightAttenuation::ReciprocalSquare.fgd_to_string(), "2");
	assert_eq!(BspLightAttenuation::default(), BspLightAttenuation::Linear);
	match BspLightAttenuation::property_type() {
		QuakeClassPropertyType::Choices(c) => {
			assert_eq!(c.len(), 6);
			assert_eq!(c[0], (ChoicesKey::Integer(0), "Linear attenuation (default)"));
			assert_eq!(c[1], (ChoicesKey::Integer(1), "1/x attenuation"));
		},
		_ => panic!("attenuation is a choices property"),
	}
}

#[test]
fn localized_floats() {
	assert_eq!(fgd_float_source(" 1.5 "), "1.5");
	assert_eq!(fgd_float_source("1,50"), "1.50");
	assert_eq!(fgd_float_source("1.000,5 2,25"), "1000.52.25");
	assert_eq!(fgd_float_source("1.5 2.5"), "1.5 2.5");
}

#[test]
fn arrays_parse_words() {
	assert_eq!(<[u8; 3]>::fgd_parse("1 2 3"), Ok([1, 2, 3]));
	assert_eq!(<[u8; 3]>::fgd_parse(" 1 \t 2 "), Ok([1, 2, 0]));
	assert_eq!(<[u8; 3]>::fgd_parse(""), Ok([0, 0, 0]));
	assert_eq!(<[i32; 2]>::fgd_parse("-1\n2"), Ok([-1, 2]));
	assert_eq!(<[u8; 3]>::fgd_parse("1 2 3 4"), Err(FgdParseError::TooManyElements));
	assert_eq!(<[u8; 3]>::fgd_parse("1 x 3 4"), Err(FgdParseError::Int(IntErrorKind::InvalidDigit)));
	assert_eq!(<[u8; 3]>::fgd_parse("1 2 300"), Err(FgdParseError::Int(IntErrorKind::PosOverflow)));
	assert_eq!([1u8, 2, 3].fgd_to_string_unquoted(), "1 2 3");
	assert_eq!([7i32].fgd_to_string(), "\"7\"");
	assert!(<[u8; 2]>::fgd_is_quoted());
}

#[test]
fn array_words_take_at_most_the_array_length() {
	assert_eq!(fgd_array_words(" 1.5  2\t3 ", 3), (vec!["1.5".to_string(), "2".to_string(), "3".to_string()], false));
	assert_eq!(fgd_array_words("1 2", 3), (vec!["1".to_string(), "2".to_string()], false));
	assert_eq!(fgd_array_words("1 2 3 4", 3), (vec!["1".to_string(), "2".to_string(), "3".to_string()], true));
	assert_eq!(fgd_array_words("", 2), (Vec::<String>::new(), false));
	assert_eq!(fgd_array_words("x", 0), (Vec::<String>::new(), true));
}
