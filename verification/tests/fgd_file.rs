use bevy_trenchbroom::builtin::{transform_class_info, visibility_class_info, FuncGroup, Target, Targetable};
use bevy_trenchbroom::class::{extract_doc, ChoicesKey, ErasedQuakeClass, QuakeClassInfo, QuakeClassProperty, QuakeClassPropertyType, QuakeClassType};
use bevy_trenchbroom::fgd_write::write_fgd;
use bevy_trenchbroom::registry::{ClassRegistry, QuakeClassPlugin};

fn info(ty: QuakeClassType, name: &'static str, base: Vec<ErasedQuakeClass>) -> QuakeClassInfo {
	QuakeClassInfo {
		ty,
		name,
		description: None,
		base,
		model: None,
		color: None,
		iconsprite: None,
		size: None,
		decal: false,
		properties: Vec::new(),
	}
}

fn class(type_id: u64, ty: QuakeClassType, name: &'static str, base: Vec<ErasedQuakeClass>) -> ErasedQuakeClass {
	ErasedQuakeClass { type_id, info: info(ty, name, base) }
}

#[test]
fn classes_are_written_by_name_and_unused_bases_are_left_out() {
	let mut registry = ClassRegistry::new();
	registry.register(1, "game::Zed", Some(class(1, QuakeClassType::Point, "zed", vec![class(3, QuakeClassType::Base, "__used", vec![])])));
	registry.register(2, "game::Alpha", Some(class(2, QuakeClassType::Solid, "alpha", vec![])));
	registry.register(3, "game::Used", Some(class(3, QuakeClassType::Base, "__used", vec![])));
	registry.register(4, "game::Unused", Some(class(4, QuakeClassType::Base, "__unused", vec![])));
	let out = write_fgd(&registry);
	assert_eq!(
		out.text,
		"@BaseClass = __used\n[\n]\n\n@SolidClass = alpha\n[\n]\n\n@PointClass base(__used) = zed\n[\n]\n\n"
	);
	assert!(out.missing_bases.is_empty());
}

#[test]
fn classes_with_unregistered_bases_are_reported() {
	let mut registry = ClassRegistry::new();
	registry.register(1, "game::Lamp", Some(class(1, QuakeClassType::Point, "lamp", vec![class(9, QuakeClassType::Base, "__glow", vec![])])));
	let out = write_fgd(&registry);
	assert_eq!(out.text, "");
	assert_eq!(out.missing_bases, vec![("lamp", "__glow")]);
}

#[test]
fn class_header_and_properties() {
	let mut lamp = info(QuakeClassType::Point, "lamp", vec![]);
	lamp.description = Some("A lamp");
	lamp.color = Some("255 0 0");
	lamp.iconsprite = Some("\"sprites/lamp.png\"");
	lamp.size = Some("-8 -8 -8, 8 8 8");
	lamp.model = Some("\"models/lamp.glb\"");
	lamp.properties = vec![
		QuakeClassProperty {
			ty: QuakeClassPropertyType::Value("integer"),
			name: "brightness",
			title: Some("Brightness"),
			description: Some("How bright"),
			default_value: Some("300".to_string()),
		},
		QuakeClassProperty {
			ty: QuakeClassPropertyType::Choices(vec![(ChoicesKey::Integer(0), "Off"), (ChoicesKey::String("on"), "On")]),
			name: "state",
			title: None,
			description: None,
			default_value: None,
		},
		QuakeClassProperty {
			ty: QuakeClassPropertyType::Flags(vec![(1, "Hidden"), (2, "Loud"), (4, "Red")]),
			name: "spawnflags",
			title: None,
			description: None,
			default_value: Some("5".to_string()),
		},
	];
	let mut registry = ClassRegistry::new();
	registry.register(1, "game::Lamp", Some(ErasedQuakeClass { type_id: 1, info: lamp }));
	let out = write_fgd(&registry);
	assert_eq!(
		out.text,
		"@PointClass color(255 0 0) iconsprite(\"sprites/lamp.png\") size(-8 -8 -8, 8 8 8) model(\"models/lamp.glb\") = lamp : \"A lamp\"\n[\n\
		\tbrightness(integer) : \"Brightness\" : 300 : \"How bright\"\n\
		\tstate(choices) : \"state\" :  : \"\" = \n\t[\n\t\t0 : \"Off\"\n\t\t\"on\" : \"On\"\n\t]\n\
		\tspawnflags(flags) =\n\t[\n\t\t1 : \"Hidden\" : 1\n\t\t2 : \"Loud\" : 0\n\t\t4 : \"Red\" : 1\n\t]\n\
		]\n\n"
	);
}

#[test]
fn disabled_classes_are_not_written() {
	let mut registry = ClassRegistry::new();
	registry.register(1, "game::A", Some(class(1, QuakeClassType::Point, "a", vec![])));
	registry.register(2, "game::B", Some(class(2, QuakeClassType::Point, "b", vec![])));
	registry.disable_class(1);
	assert_eq!(write_fgd(&registry).text, "@PointClass = b\n[\n]\n\n");
	assert!(registry.class_by_name("a").is_none());
	assert_eq!(registry.class_by_name("b").unwrap().type_id, 2);
}

#[test]
fn registering_twice_keeps_the_first() {
	let mut registry = ClassRegistry::new();
	assert!(registry.register(1, "game::A", Some(class(1, QuakeClassType::Point, "a", vec![]))));
	assert!(!registry.register(1, "game::Other", Some(class(1, QuakeClassType::Point, "other", vec![]))));
	assert_eq!(registry.registrations().len(), 1);
	assert_eq!(registry.registrations()[0].type_path, "game::A");
	assert!(registry.class_by_name("other").is_none());
}

#[test]
fn override_class_replaces_same_name() {
	let mut registry = ClassRegistry::new();
	registry.register(1, "game::Light", Some(class(1, QuakeClassType::Point, "light", vec![])));
	registry.override_class(2, "mygame::Light", class(2, QuakeClassType::Point, "light", vec![]));
	let regs = registry.registrations();
	assert_eq!(regs.len(), 2);
	assert!(!regs[0].class.as_ref().unwrap().enabled);
	assert!(regs[1].class.as_ref().unwrap().enabled);
	assert_eq!(registry.class_by_name("light").unwrap().type_id, 2);
	assert!(QuakeClassPlugin::verify_classes(&registry).is_empty());
}

#[test]
fn verify_classes_reports_duplicate_names() {
	let mut registry = ClassRegistry::new();
	registry.register(1, "game::Light", Some(class(1, QuakeClassType::Point, "light", vec![])));
	registry.register(2, "other::Light", Some(class(2, QuakeClassType::Point, "light", vec![])));
	registry.register(3, "game::Door", Some(class(3, QuakeClassType::Solid, "door", vec![])));
	assert!(!registry.register(3, "game::Door", None));
	let conflicts = QuakeClassPlugin::verify_classes(&registry);
	assert_eq!(conflicts.len(), 1);
	assert_eq!(conflicts[0].classname, "light");
	assert_eq!(conflicts[0].type_paths, vec!["game::Light", "other::Light"]);
	assert_eq!(registry.class_by_name("light").unwrap().type_id, 2);
	assert!(registry.class_by_name("window").is_none());
	assert!(registry.contains(3));
	assert!(!registry.contains(4));
}

#[test]
fn derives_from() {
	let transform = || class(10, QuakeClassType::Base, "__transform", vec![]);
	let visibility = || class(11, QuakeClassType::Base, "__visibility", vec![]);
	let point_light = class(12, QuakeClassType::Base, "__point_light", vec![transform(), visibility()]);
	let light = info(QuakeClassType::Point, "light_point", vec![point_light]);
	assert!(light.derives_from(10));
	assert!(light.derives_from(11));
	assert!(light.derives_from(12));
	assert!(!light.derives_from(13));
	assert!(!transform().info.derives_from(10));
	assert!(light.derives_from_name("__visibility"));
	assert!(!light.derives_from_name("light_point"));
}

#[test]
fn spawn_deduplication() {
	let base = || class(1, QuakeClassType::Base, "base", vec![]);
	let class = class(2, QuakeClassType::Point, "class", vec![base(), base()]);
	assert_eq!(class.spawn_order(), vec![1, 2]);
}

#[test]
fn spawn_order_is_depth_first() {
	let d = || class(4, QuakeClassType::Base, "d", vec![]);
	let a = class(1, QuakeClassType::Base, "a", vec![d()]);
	let b = class(2, QuakeClassType::Base, "b", vec![d()]);
	let c = class(3, QuakeClassType::Point, "c", vec![a, b]);
	assert_eq!(c.spawn_order(), vec![4, 1, 2, 3]);
}

#[test]
fn model_path() {
	let mut my_class = info(QuakeClassType::Point, "my_class", vec![]);
	my_class.model = Some("\"models/my_class.glb\"");
	assert_eq!(my_class.model_path(), Some("models/my_class.glb"));
	my_class.model = Some("{ path: \"models/a.glb\" }");
	assert_eq!(my_class.model_path(), None);
	my_class.model = None;
	assert_eq!(my_class.model_path(), None);
}

#[test]
fn target_classes() {
	let target = Target::class_info();
	assert_eq!(target.name, "__target");
	assert_eq!(target.properties.len(), 2);
	assert_eq!(target.properties[0].name, "target");
	assert_eq!(target.properties[1].default_value.as_deref(), Some("\"\""));
	let targetable = Targetable::class_info();
	let mut registry = ClassRegistry::new();
	registry.register(1, "Targetable", Some(ErasedQuakeClass { type_id: 1, info: targetable }));
	registry.register(2, "Door", Some(class(2, QuakeClassType::Solid, "door", vec![ErasedQuakeClass { type_id: 1, info: Targetable::class_info() }])));
	let text = write_fgd(&registry).text;
	assert!(text.starts_with(
		"@BaseClass = __targetable\n[\n\ttargetname(string) : \"targetname\" : \"\" : \"The name for entities with [`Target`] components to point to.\"\n]\n\n"
	));
}

#[test]
fn descriptions_from_documentation() {
	let mut doc = None;
	extract_doc(" A door ", &mut doc);
	assert_eq!(doc.as_deref(), Some("A door"));
	extract_doc("", &mut doc);
	assert_eq!(doc.as_deref(), Some("A door \n"));
	extract_doc(" that says \"hi\"", &mut doc);
	assert_eq!(doc.as_deref(), Some("A door \n that says ''hi''"));
	let mut empty = None;
	extract_doc("   ", &mut empty);
	assert_eq!(empty.as_deref(), Some("\n"));
}

#[test]
fn func_group_and_its_visibility_base() {
	let mut registry = ClassRegistry::new();
	registry.register(10, "bevy::Visibility", Some(ErasedQuakeClass { type_id: 10, info: visibility_class_info() }));
	registry.register(11, "FuncGroup", Some(ErasedQuakeClass { type_id: 11, info: FuncGroup::class_info(10) }));
	assert_eq!(
		write_fgd(&registry).text,
		"@BaseClass = __visibility\n[\n\tvisibility(choices) : \"Visibility\" : \"Inherited\" : \"\" = \n\t[\n\t\t\"Inherited\" : \"Uses the visibility of its parents. If its a root-level entity, it will be visible.\"\n\t\t\"Hidden\" : \"Always not rendered, regardless of its parent's visibility.\"\n\t\t\"Visible\" : \"Always rendered, regardless of its parent's visibility.\"\n\t]\n]\n\n@SolidClass base(__visibility) = func_group : \"Groups a set of brushes together in-editor.\"\n[\n]\n\n"
	);
}

#[test]
fn transform_class_text() {
	let mut registry = ClassRegistry::new();
	registry.register(20, "bevy::Transform", Some(ErasedQuakeClass { type_id: 20, info: transform_class_info() }));
	registry.register(21, "Thing", Some(class(21, QuakeClassType::Point, "thing", vec![ErasedQuakeClass { type_id: 20, info: transform_class_info() }])));
	assert_eq!(
		write_fgd(&registry).text,
		"@BaseClass = __transform\n[\n\torigin(vector) : \"Translation/Origin\" : \"0 0 0\" : \"\"\n\tangles(vector) : \"Rotation (pitch yaw roll) in degrees\" : \"0 0 0\" : \"\"\n\tscale(vector) : \"Scale\" : \"1 1 1\" : \"\"\n]\n\n@PointClass base(__transform) = thing\n[\n]\n\n"
	);
}

#[test]
fn class_kinds_and_choice_keys() {
	assert!(QuakeClassType::Point.is_point());
	assert!(!QuakeClassType::Point.is_solid());
	assert!(QuakeClassType::Solid.is_solid());
	assert!(QuakeClassType::default().is_base());
	assert_eq!(QuakeClassType::Solid.fgd_name(), "Solid");
	assert_eq!(ChoicesKey::String("on").to_fgd_string(), "\"on\"");
	assert_eq!(ChoicesKey::Integer(-3).to_fgd_string(), "-3");
}
