use bevy_trenchbroom::text::{i64_to_string, replace_str, split_ascii_whitespace, str_eq, u64_to_string};

#[test]
fn decimal_formatting() {
	assert_eq!(u64_to_string(0), "0");
	assert_eq!(u64_to_string(1203), "1203");
	assert_eq!(i64_to_string(-45), "-45");
	assert_eq!(i64_to_string(i64::MIN), "-9223372036854775808");
}

#[test]
fn replacing() {
	assert_eq!(replace_str("a %%scale%% b %%scale%%", "%%scale%%", "3"), "a 3 b 3");
	assert_eq!(replace_str("aaa", "aa", "b"), "ba");
	assert_eq!(replace_str("no match", "xyz", "q"), "no match");
	assert_eq!(replace_str("", "x", "y"), "");
}

#[test]
fn string_equality() {
	assert!(str_eq("abc", "abc"));
	assert!(!str_eq("abc", "abd"));
	assert!(!str_eq("ab", "abc"));
}

#[test]
fn ascii_whitespace_words() {
	assert_eq!(split_ascii_whitespace("  a bc\t\nd\r\x0Ce  "), vec!["a", "bc", "d", "e"]);
	assert!(split_ascii_whitespace(" \t ").is_empty());
	// A non-breaking space is not ASCII whitespace.
	assert_eq!(split_ascii_whitespace("a\u{a0}b c"), vec!["a\u{a0}b", "c"]);
}
