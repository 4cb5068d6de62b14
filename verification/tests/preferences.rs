use bevy_trenchbroom::preferences::{preferences_with_game, PreferencesError};

#[test]
fn game_is_added_to_empty_preferences() {
	let text = preferences_with_game("{}", "game", "/home/me/game").unwrap();
	assert_eq!(text, "{\n  \"Games/game/Path\": \"/home/me/game\"\n}");
}

#[test]
fn game_path_is_replaced_and_other_preferences_kept() {
	let text = preferences_with_game(
		"{\"b\": 1, \"Games/game/Path\": \"/old\", \"a\": [true, null]}",
		"game",
		"/new",
	)
	.unwrap();
	assert_eq!(
		text,
		"{\n  \"Games/game/Path\": \"/new\",\n  \"a\": [\n    true,\n    null\n  ],\n  \"b\": 1\n}"
	);
}

#[test]
fn preferences_errors() {
	assert!(matches!(preferences_with_game("not json", "", "/x"), Err(PreferencesError::Uninitialized)));
	assert!(matches!(preferences_with_game("not json", "game", "/x"), Err(PreferencesError::Deserialize(_))));
	assert!(matches!(preferences_with_game("[1, 2]", "game", "/x"), Err(PreferencesError::JsonObject)));
}
