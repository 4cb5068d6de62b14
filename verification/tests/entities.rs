use bevy_trenchbroom::builtin::{
	transform_class_info, visibility_class_info, Target, Targetable, BUILTIN_BASE_CLASS_PREFIX,
	read_rotation_from_entity, read_visibility, InfoPlayerStart, InvalidVisibility, VisibilitySetting, Worldspawn, str_starts_with, BspLightAttenuation, LightingClassesPlugin, LightingWorkflow, PropertyLookup::{Found, Invalid, NotFound},
	RotationError, RotationSource,
};
use bevy_trenchbroom::bsp_models::{get_model_idx, used_models, ModelNotUsed};
use bevy_trenchbroom::fgd::FgdParseError;
use bevy_trenchbroom::insertion::{get_entity_property, get_property, MapEntityInsertionError};
use bevy_trenchbroom::text::IntErrorKind;
use bevy_trenchbroom::class::extract_doc;
use bevy_trenchbroom::class_name::{casing_from_name, class_name, Casing, ClassNameSource};
use bevy_trenchbroom::definitions::{EntDefClassType, EntDefProperty, EntDefPropertyType, EntDefSettings, EntityDefinition};
use bevy_trenchbroom::fgd::FgdType;
use bevy_trenchbroom::insertion::{spawn_maps, MapCandidate};
use bevy_trenchbroom::manifest::{Manifest, ManifestEntry};
use indexmap::IndexMap;

#[test]
fn light_workflow_classes() {
	assert_eq!(LightingClassesPlugin::default().classnames(), vec!["light"]);
	assert_eq!(
		LightingClassesPlugin(LightingWorkflow::DynamicOnly).classnames(),
		vec!["light_point", "light_spot", "light_directional"]
	);
	assert_eq!(
		LightingClassesPlugin(LightingWorkflow::DynamicAndBakedSeparate).classnames(),
		vec!["light", "dynamiclight_point", "dynamiclight_spot", "dynamiclight_directional"]
	);
	assert!(LightingClassesPlugin(LightingWorkflow::Custom).classnames().is_empty());
}

#[test]
fn light_attenuation_numbers() {
	assert_eq!(BspLightAttenuation::default(), BspLightAttenuation::Linear);
	assert_eq!(BspLightAttenuation::NoAttenuation.number(), 3);
	assert_eq!(BspLightAttenuation::ReciprocalSquareTweaked.fgd_to_string_unquoted(), "5");
	assert_eq!(BspLightAttenuation::fgd_parse(" 4 "), Ok(BspLightAttenuation::LocalMinLight));
	assert!(BspLightAttenuation::fgd_parse("6").is_err());
}

#[test]
fn rotation_sources() {
	assert_eq!(read_rotation_from_entity(Some("light_spot"), Found, Found, Found), Ok(RotationSource::MangleYawPitchRoll));
	assert_eq!(read_rotation_from_entity(Some("info_player_start"), Found, NotFound, NotFound), Ok(RotationSource::MangleAsAngles));
	assert_eq!(read_rotation_from_entity(None, Found, NotFound, Invalid), Ok(RotationSource::MangleAsAngles));
	assert_eq!(read_rotation_from_entity(Some("light"), Invalid, Found, Found), Err(RotationError::InvalidMangle));
	assert_eq!(read_rotation_from_entity(Some("light"), NotFound, Found, Invalid), Ok(RotationSource::Angles));
	assert_eq!(read_rotation_from_entity(Some("light"), NotFound, Invalid, NotFound), Err(RotationError::InvalidAngles));
	assert_eq!(read_rotation_from_entity(Some("light"), NotFound, NotFound, NotFound), Ok(RotationSource::Angle));
	assert_eq!(read_rotation_from_entity(Some("light"), NotFound, NotFound, Found), Ok(RotationSource::Angle));
	assert_eq!(read_rotation_from_entity(Some("light"), NotFound, NotFound, Invalid), Err(RotationError::InvalidAngle));
	assert!(str_starts_with("lightning", "light"));
	assert!(!str_starts_with("ligh", "light"));
	assert!(str_starts_with("", ""));
}

#[test]
fn manifest_files_are_collected_once() {
	let entry = ManifestEntry::Directory {
		path: "",
		children: vec![
			ManifestEntry::File { path: "a.png" },
			ManifestEntry::Directory {
				path: "maps",
				children: vec![ManifestEntry::File { path: "maps/e1m1.map" }, ManifestEntry::File { path: "a.png" }],
			},
			ManifestEntry::Directory { path: "empty", children: Vec::new() },
		],
	};
	let manifest = Manifest::new(entry);
	assert_eq!(manifest.file_set(), &vec!["a.png", "maps/e1m1.map"]);
	assert_eq!(manifest.root().path(), "");
	assert_eq!(ManifestEntry::File { path: "x" }.path(), "x");
}

#[test]
fn entity_definition_fgd() {
	let mut properties = IndexMap::new();
	properties.insert(
		"speed".to_string(),
		EntDefProperty {
			ty: EntDefPropertyType::Value("integer".to_string()),
			title: Some("Speed".to_string()),
			description: Some("How fast".to_string()),
			default_value: Some("100".to_string()),
		},
	);
	properties.insert(
		"mode".to_string(),
		EntDefProperty {
			ty: EntDefPropertyType::Choices(vec![("0".to_string(), "Off".to_string()), ("1".to_string(), "On".to_string())]),
			title: None,
			description: None,
			default_value: None,
		},
	);
	let definition = EntityDefinition {
		class_type: EntDefClassType::Point,
		description: Some("A door".to_string()),
		base: vec!["targetable".to_string(), "target".to_string()],
		settings: EntDefSettings {
			model: Some("{ {\"path\" : \"door.glb\", \"scale\" : $tb_scale$ } }".to_string()),
			color: None,
			iconsprite: None,
			size: Some("-8 -8 -8,\n 8 8 8".to_string()),
		},
		properties,
	};
	assert_eq!(
		definition.to_fgd("func_door", "0.5"),
		"@PointClass base(targetable, target) size(-8 -8 -8, 8 8 8) model({{\"path\" : \"door.glb\", \"scale\" : 0.5 }}) = func_door : \"A door\"\n[\n\tspeed(integer) : \"Speed\" : 100 : \"How fast\"\n\tmode(choices) : \"mode\" :  : \"\" = \n\t[\n\t\t0 : \"Off\"\n\t\t1 : \"On\"\n\t]\n]"
	);
}

#[test]
fn empty_entity_definition_fgd() {
	let definition = EntityDefinition {
		class_type: EntDefClassType::default(),
		description: None,
		base: Vec::new(),
		settings: EntDefSettings::default(),
		properties: IndexMap::new(),
	};
	assert_eq!(definition.to_fgd("base", "1"), "@BaseClass = base\n[\n]");
	assert!(matches!(EntDefPropertyType::default(), EntDefPropertyType::Value(s) if s == "string"));
}

#[test]
fn the_last_ready_map_is_spawned() {
	let ready = |uuid| MapCandidate { map_loaded: true, materials_loaded: true, uuid };
	let waiting = MapCandidate { map_loaded: true, materials_loaded: false, uuid: Some(7) };
	let unloaded = MapCandidate { map_loaded: false, materials_loaded: true, uuid: None };
	assert_eq!(spawn_maps(&vec![]), None);
	assert_eq!(spawn_maps(&vec![waiting, unloaded]), None);
	assert_eq!(spawn_maps(&vec![ready(Some(5)), waiting]), Some((0, 5)));
	assert_eq!(spawn_maps(&vec![ready(Some(5)), ready(None), unloaded]), Some((1, 0)));
}

#[test]
fn bsp_model_references() {
	assert_eq!(get_model_idx("worldspawn", None), Some(0));
	assert_eq!(get_model_idx("worldspawn", Some("*5")), Some(0));
	assert_eq!(get_model_idx("func_door", Some("*3")), Some(3));
	assert_eq!(get_model_idx("func_door", Some("**12")), Some(12));
	assert_eq!(get_model_idx("func_door", Some("*+4")), Some(4));
	assert_eq!(get_model_idx("func_door", Some("3")), None);
	assert_eq!(get_model_idx("func_door", Some("*")), None);
	assert_eq!(get_model_idx("func_door", Some("*x")), None);
	assert_eq!(get_model_idx("func_door", Some("*-1")), None);
	assert_eq!(get_model_idx("func_door", None), None);
}

#[test]
fn builtin_class_descriptions_follow_their_documentation() {
	let mut doc = None;
	for line in [
		" Defines the single-player start point and direction.",
		"",
		" (If this is not inside level geometry, `qbsp` reports warnings like",
		" `WARNING: Reached occupant \"info_player_start\" at (1000 -296 -40), no filling performed.`",
		" which fails the build just as if level geometry is not enclosed.)",
	] {
		extract_doc(line, &mut doc);
	}
	assert_eq!(InfoPlayerStart::class_info().description, doc.as_deref());
	assert_eq!(InfoPlayerStart::class_info().name, "info_player_start");

	let mut doc = None;
	for line in [
		" The worldspawn entity contains the main structural geometry in the world, and its properties represent map-wide settings. Exactly one must be in every map.",
		"",
		" This is an empty worldspawn implementation to get you up and running with as few lines of code as possible. You will almost certainly override this class with your own at some point.",
	] {
		extract_doc(line, &mut doc);
	}
	assert_eq!(Worldspawn::class_info().description, doc.as_deref());
}

#[test]
fn visibility_property() {
	assert_eq!(read_visibility(None), Ok(VisibilitySetting::Inherited));
	assert_eq!(read_visibility(Some("Inherited")), Ok(VisibilitySetting::Inherited));
	assert_eq!(read_visibility(Some("Hidden")), Ok(VisibilitySetting::Hidden));
	assert_eq!(read_visibility(Some("Visible")), Ok(VisibilitySetting::Visible));
	assert_eq!(read_visibility(Some("visible")), Err(InvalidVisibility));
}

#[test]
fn builtin_base_class_prefix() {
	for class in [Target::class_info(), Targetable::class_info(), transform_class_info(), visibility_class_info()] {
		if class.ty.is_base() {
			assert!(
				str_starts_with(class.name, BUILTIN_BASE_CLASS_PREFIX),
				"class {:?} does not start with prefix {BUILTIN_BASE_CLASS_PREFIX:?}",
				class.name
			);
		}
	}
}

#[test]
fn entity_properties_with_defaults() {
	let properties = vec![("speed".to_string(), "\"100\"".to_string()), ("name".to_string(), "door".to_string())];
	assert_eq!(get_property::<u32>(&properties, None, "speed"), Ok(100));
	assert_eq!(get_property::<u32>(&properties, Some("5"), "speed"), Ok(100));
	assert_eq!(get_property::<u32>(&properties, Some("\"5\""), "delay"), Ok(5));
	assert_eq!(get_property::<String>(&properties, None, "name"), Ok("door".to_string()));
	assert_eq!(
		get_property::<u32>(&properties, None, "delay"),
		Err(MapEntityInsertionError::RequiredPropertyNotFound { property: "delay".to_string() })
	);
	assert_eq!(
		get_property::<u32>(&properties, None, "name"),
		Err(MapEntityInsertionError::PropertyParseError {
			property: "name".to_string(),
			error: FgdParseError::Int(IntErrorKind::InvalidDigit),
		})
	);
}

#[test]
fn entity_without_classname_gives_that_error() {
	let properties = vec![("speed".to_string(), "100".to_string())];
	let missing = MapEntityInsertionError::RequiredPropertyNotFound { property: "classname".to_string() };
	assert_eq!(get_entity_property::<u32>(Err(missing.clone()), &properties, None, "speed"), Err(missing.clone()));
	assert_eq!(get_entity_property::<u32>(Err(missing.clone()), &properties, Some("5"), "delay"), Err(missing));
	assert_eq!(get_entity_property::<u32>(Ok("func_door"), &properties, None, "speed"), Ok(100));
	assert_eq!(get_entity_property::<u32>(Ok("func_door"), &properties, Some("5"), "delay"), Ok(5));
	assert_eq!(
		get_entity_property::<u32>(Ok("func_door"), &properties, None, "delay"),
		Err(MapEntityInsertionError::RequiredPropertyNotFound { property: "delay".to_string() })
	);
}

#[test]
fn every_bsp_model_must_be_used() {
	assert_eq!(used_models(vec![Some("a"), Some("b")]), Ok(vec!["a", "b"]));
	assert_eq!(used_models(vec![Some(1), None, None]), Err(ModelNotUsed { model_idx: 1 }));
	assert_eq!(used_models::<u8>(vec![]), Ok(vec![]));
}

#[test]
fn class_names_from_attributes() {
	assert_eq!(class_name("FuncDoor", &None, None), "func_door");
	assert_eq!(class_name("FuncDoor", &None, Some("tb")), "tb_func_door");
	assert_eq!(class_name("FuncDoor", &Some(ClassNameSource::Literal("\"worldspawn\"".to_string())), None), "worldspawn");
	assert_eq!(class_name("FuncDoor", &Some(ClassNameSource::Casing(Casing::UpperSnakeCase)), None), "FUNC_DOOR");
	assert_eq!(class_name("FuncDoor", &Some(ClassNameSource::Casing(Casing::Lowercase)), None), "funcdoor");
	assert_eq!(class_name("FuncDoor", &Some(ClassNameSource::Casing(Casing::Uppercase)), None), "FUNCDOOR");
	assert_eq!(class_name("FuncDoor", &Some(ClassNameSource::Casing(Casing::CamelCase)), None), "funcDoor");
	assert_eq!(class_name("func_door", &Some(ClassNameSource::Casing(Casing::PascalCase)), None), "FuncDoor");
	assert_eq!(casing_from_name("camelCase"), Some(Casing::CamelCase));
	assert_eq!(casing_from_name("kebab-case"), None);
}
