use bevy_trenchbroom::game_config::{DefaultFaceAttributes, GameConfigError, TrenchBroomConfig};
use bevy_trenchbroom::json::Json;
use bevy_trenchbroom::registry::ClassRegistry;
use bevy_trenchbroom::tb_types::{AssetPackageFormat, BitFlag, MapFileFormat, TrenchBroomTag, TrenchBroomTagAttribute};

fn config(name: &str) -> TrenchBroomConfig {
	TrenchBroomConfig {
		tb_format_version: 9,
		scale: "1".to_string(),
		assets_path: "assets".to_string(),
		name: name.to_string(),
		icon: None,
		file_formats: vec![MapFileFormat::Valve],
		package_format: AssetPackageFormat::Zip,
		material_root: "textures".to_string(),
		texture_extensions: vec!["png".to_string()],
		texture_pallette: "palette.lmp".to_string(),
		texture_exclusions: Vec::new(),
		entity_default_color: "0.6 0.6 0.6 1".to_string(),
		entity_scale_expression: Some("{{ scale == undefined -> %%scale%%, scale }}".to_string()),
		entity_set_default_properties: false,
		brush_tags: Vec::new(),
		face_tags: vec![TrenchBroomConfig::empty_face_tag()],
		surface_flags: Vec::new(),
		content_flags: Vec::new(),
		default_face_attributes: DefaultFaceAttributes::default(),
		soft_map_bounds: None,
	}
}

fn str_of(json: &Json) -> &str {
	match json {
		Json::Str(s) => s.as_str(),
		other => panic!("not a string: {other:?}"),
	}
}

fn entries(json: &Json) -> &Vec<(String, Json)> {
	match json {
		Json::Object(e) => e,
		other => panic!("not an object: {other:?}"),
	}
}

fn keys(json: &Json) -> Vec<&str> {
	entries(json).iter().map(|(k, _)| k.as_str()).collect()
}

#[test]
fn config_strings() {
	assert_eq!(MapFileFormat::Standard.config_str(), "Standard");
	assert_eq!(MapFileFormat::Valve.config_str(), "Valve");
	assert_eq!(MapFileFormat::Quake2Valve.config_str(), "Quake2 (Valve)");
	assert_eq!(MapFileFormat::Quake3Legacy.config_str(), "Quake3 (Legacy)");
	assert_eq!(MapFileFormat::default(), MapFileFormat::Valve);
	assert_eq!(TrenchBroomTagAttribute::Transparent.config_str(), "transparent");
	assert_eq!(AssetPackageFormat::Zip.extension(), "zip");
	assert_eq!(AssetPackageFormat::IdPack.extension(), "pak");
	assert_eq!(AssetPackageFormat::IdPack.format(), "idpak");
	assert_eq!(AssetPackageFormat::DkPack.format(), "dkpak");
	let other = AssetPackageFormat::Other { extension: "pk3", format: "zip" };
	assert_eq!(other.extension(), "pk3");
	assert_eq!(other.format(), "zip");
}

#[test]
fn tag_json_has_material_only_when_set() {
	let tag = TrenchBroomTag::new("trigger", "trigger_*").attributes(vec![TrenchBroomTagAttribute::Transparent]);
	let json = tag.to_json("classname");
	assert_eq!(keys(&json), vec!["name", "attribs", "match", "pattern"]);
	assert_eq!(str_of(&entries(&json)[0].1), "trigger");
	match &entries(&json)[1].1 {
		Json::Array(items) => {
			assert_eq!(items.len(), 1);
			assert_eq!(str_of(&items[0]), "transparent");
		},
		other => panic!("not an array: {other:?}"),
	}
	assert_eq!(str_of(&entries(&json)[2].1), "classname");
	assert_eq!(str_of(&entries(&json)[3].1), "trigger_*");

	let json = tag.material("skip").to_json("classname");
	assert_eq!(keys(&json), vec!["name", "attribs", "match", "pattern", "material"]);
	assert_eq!(str_of(&entries(&json)[4].1), "skip");
}

#[test]
fn bit_flag_json() {
	let json = BitFlag::Unused.to_json();
	assert_eq!(keys(&json), vec!["unused"]);
	assert!(matches!(entries(&json)[0].1, Json::Bool(true)));

	let json = BitFlag::new("ladder", None).to_json();
	assert_eq!(keys(&json), vec!["name"]);
	assert_eq!(str_of(&entries(&json)[0].1), "ladder");

	let json = BitFlag::new("water", Some("Is water")).to_json();
	assert_eq!(keys(&json), vec!["name", "description"]);
	assert_eq!(str_of(&entries(&json)[1].1), "Is water");
}

#[test]
fn face_attributes_color_goes_under_scale() {
	let mut attributes = DefaultFaceAttributes::default();
	assert!(!attributes.is_any_set());
	attributes.surface_value = Some(3);
	attributes.content_flags = vec!["solid".to_string()];
	assert!(attributes.is_any_set());
	let json = attributes.to_json();
	assert_eq!(keys(&json), vec!["surfaceValue", "surfaceContents"]);
	assert!(matches!(entries(&json)[0].1, Json::UInt(3)));

	let mut attributes = DefaultFaceAttributes::default();
	attributes.scale = Some([jzon::number::Number::from(2u32), jzon::number::Number::from(2u32)]);
	attributes.rotation = Some(jzon::number::Number::from(90u32));
	attributes.color = Some([jzon::number::Number::from(1u32); 4]);
	let json = attributes.to_json();
	assert_eq!(keys(&json), vec!["scale", "rotation"]);
	match &entries(&json)[0].1 {
		Json::Array(items) => assert_eq!(items.len(), 4),
		other => panic!("not an array: {other:?}"),
	}
}

#[test]
fn default_texture_exclusions() {
	assert_eq!(TrenchBroomConfig::default_texture_exclusions(), vec!["*_normal", "*_mr", "*_emissive", "*_depth"]);
	let tag = TrenchBroomConfig::empty_face_tag();
	assert_eq!(tag.name, "empty");
	assert_eq!(tag.pattern, "__TB_empty");
	assert_eq!(tag.attributes, vec![TrenchBroomTagAttribute::Transparent]);
	assert_eq!(tag.material, None);
}

#[test]
fn entity_scale_expression_uses_scale() {
	let mut config = config("game");
	config.scale = "39.37008".to_string();
	assert_eq!(
		config.get_entity_scale_expression(),
		Some("{{ scale == undefined -> 39.37008, scale }}".to_string())
	);
	config.entity_scale_expression = None;
	assert_eq!(config.get_entity_scale_expression(), None);
}

#[test]
fn unnamed_game_has_no_configuration() {
	let config = config("");
	let result = config.write_game_config(&ClassRegistry::new());
	assert!(matches!(result, Err(GameConfigError::UninitializedError)));
}

#[test]
fn game_config_text() {
	let config = config("game");
	let files = config.write_game_config(&ClassRegistry::new()).unwrap();
	assert_eq!(files.fgd_file_name, "game.fgd");
	assert_eq!(files.icon, None);
	assert_eq!(files.fgd.text, "");
	let expected = r#"{
    "version": 9,
    "name": "game",
    "fileformats": [
        {
            "format": "Valve"
        }
    ],
    "filesystem": {
        "searchpath": "assets",
        "packageformat": {
            "extension": "zip",
            "format": "zip"
        }
    },
    "materials": {
        "root": "textures",
        "extensions": [
            "png"
        ],
        "palette": "palette.lmp",
        "attribute": "wad",
        "excludes": []
    },
    "entities": {
        "definitions": [
            "game.fgd"
        ],
        "defaultcolor": "0.6 0.6 0.6 1",
        "scale": {{ scale == undefined -> 1, scale }},
        "setDefaultProperties": false
    },
    "tags": {
        "brush": [],
        "brushface": [
            {
                "name": "empty",
                "attribs": [
                    "transparent"
                ],
                "match": "material",
                "pattern": "__TB_empty"
            }
        ]
    }
}"#;
	assert_eq!(files.game_config, expected);
}

#[test]
fn game_config_optional_entries() {
	let mut config = config("game");
	config.icon = Some(vec![1, 2, 3]);
	config.entity_scale_expression = None;
	config.surface_flags = vec![BitFlag::Unused, BitFlag::new("ladder", None)];
	config.soft_map_bounds = Some("-4096 -4096 -4096 4096 4096 4096".to_string());
	let files = config.write_game_config(&ClassRegistry::new()).unwrap();
	assert_eq!(files.icon, Some(vec![1, 2, 3]));
	let text = files.game_config;
	assert!(text.contains("\"scale\": \"$$scale$$\""));
	assert!(text.contains("\"icon\": \"Icon.png\""));
	assert!(text.contains(
		"\"faceattribs\": {\n        \"surfaceflags\": [\n            {\n                \"unused\": true\n            },\n            {\n                \"name\": \"ladder\"\n            }\n        ],\n        \"contentflags\": []\n    }"
	));
	assert!(text.ends_with("\"softMapBounds\": \"-4096 -4096 -4096 4096 4096 4096\"\n}"));
	let icon_at = text.find("\"icon\"").unwrap();
	let face_at = text.find("\"faceattribs\"").unwrap();
	let tags_at = text.find("\"tags\"").unwrap();
	assert!(tags_at < icon_at && icon_at < face_at);
}
