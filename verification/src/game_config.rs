//! The TrenchBroom game configuration (`GameConfig.cfg`) of a game.
use vstd::prelude::*;
use crate::json::{
    entries_view, keys_distinct, lemma_array_view, lemma_object_view, object_insert, view_insert, Json, JsonView,
};
use crate::tb_types::{json_str, AssetPackageFormat, BitFlag, MapFileFormat, TrenchBroomTag, TrenchBroomTagAttribute};
use crate::json::{json_depth, jzon_pretty, lemma_array_depth, lemma_object_depth, pretty};
use crate::tb_types::attributes_json;
use crate::text::{push_str, replace_all, replace_str};
use crate::class::ErasedQuakeClass;
use crate::fgd_write::{flags_fit, write_fgd, FgdOutput};
use crate::registry::{enabled_classes, ClassRegistry};

verus! {

/// Default values for the attributes of new brush faces.
///
/// The fractional values are held as `jzon` numbers, made from the `f32`s they stand for.
#[derive(Debug, Clone)]
pub struct DefaultFaceAttributes {
    /// If [`Some`], overrides the default x and y texture offset.
    pub offset: Option<[jzon::number::Number; 2]>,
    /// If [`Some`], overrides the default texture scale.
    pub scale: Option<[jzon::number::Number; 2]>,
    /// If [`Some`], overrides the default texture rotation.
    pub rotation: Option<jzon::number::Number>,
    /// Number specifying the default surface value (only applicable if surfaceflags exist)
    pub surface_value: Option<u32>,
    /// List of strings naming the default surface flags
    pub surface_flags: Vec<String>,
    /// List of strings naming the default content flags
    pub content_flags: Vec<String>,
    /// The default surface color (only applicable for Daikatana)
    pub color: Option<[jzon::number::Number; 4]>,
}

/// A JSON array of numbers.
pub open spec fn numbers_json(ns: Seq<jzon::number::Number>) -> JsonView {
    JsonView::Array(Seq::new(ns.len(), |i: int| JsonView::Number(ns[i])))
}

/// A JSON array of strings.
pub open spec fn strings_json(v: Seq<String>) -> JsonView {
    JsonView::Array(Seq::new(v.len(), |i: int| json_str(v[i]@)))
}

/// Inserts `(key, value)` into `e` when `value` is given.
pub open spec fn insert_if(e: Seq<(Seq<char>, JsonView)>, key: Seq<char>, value: Option<JsonView>) -> Seq<(Seq<char>, JsonView)> {
    match value {
        Some(v) => view_insert(e, key, v),
        None => e,
    }
}

impl DefaultFaceAttributes {
    /// Whether any attribute is set.
    pub open spec fn spec_is_any_set(self) -> bool {
        self.offset is Some || self.scale is Some || self.rotation is Some || self.surface_value is Some
            || self.surface_flags@.len() > 0 || self.content_flags@.len() > 0 || self.color is Some
    }

    /// Returns `true` if any attribute is set to something not the default, else `false`.
    pub fn is_any_set(&self) -> (r: bool)
        ensures
            r == self.spec_is_any_set(),
    {
        self.offset.is_some() || self.scale.is_some() || self.rotation.is_some() || self.surface_value.is_some()
            || self.surface_flags.len() > 0 || self.content_flags.len() > 0 || self.color.is_some()
    }

    /// The JSON form of the attributes: one entry per attribute that is set, inserted in the
    /// order offset, scale, rotation, surface value, surface flags, content flags, color. The
    /// color is inserted under the key `scale`, so it replaces the scale when both are set.
    pub open spec fn spec_json(self) -> JsonView {
        let e0 = Seq::<(Seq<char>, JsonView)>::empty();
        let e1 = insert_if(e0, "offset"@, match self.offset { Some(o) => Some(numbers_json(o@)), None => None });
        let e2 = insert_if(e1, "scale"@, match self.scale { Some(o) => Some(numbers_json(o@)), None => None });
        let e3 = insert_if(e2, "rotation"@, match self.rotation { Some(n) => Some(JsonView::Number(n)), None => None });
        let e4 = insert_if(e3, "surfaceValue"@, match self.surface_value { Some(n) => Some(JsonView::UInt(n as u64)), None => None });
        let e5 = insert_if(e4, "surfaceFlags"@, if self.surface_flags@.len() > 0 { Some(strings_json(self.surface_flags@)) } else { None });
        let e6 = insert_if(e5, "surfaceContents"@, if self.content_flags@.len() > 0 { Some(strings_json(self.content_flags@)) } else { None });
        let e7 = insert_if(e6, "scale"@, match self.color { Some(c) => Some(numbers_json(c@)), None => None });
        JsonView::Object(e7)
    }

    /// The JSON form of the attributes (see [`Self::spec_json`]).
    pub fn to_json(&self) -> (r: Json)
        ensures
            r.view_of() == self.spec_json(),
    {
        let mut e: Vec<(String, Json)> = Vec::new();
        assert(entries_view(e@) =~= Seq::<(Seq<char>, JsonView)>::empty());
        if let Some(o) = self.offset {
            object_insert(&mut e, "offset", numbers_to_json(&o));
        }
        if let Some(o) = self.scale {
            object_insert(&mut e, "scale", numbers_to_json(&o));
        }
        if let Some(n) = self.rotation {
            object_insert(&mut e, "rotation", Json::Number(n));
        }
        if let Some(n) = self.surface_value {
            object_insert(&mut e, "surfaceValue", Json::UInt(n as u64));
        }
        if self.surface_flags.len() > 0 {
            object_insert(&mut e, "surfaceFlags", strings_to_json(&self.surface_flags));
        }
        if self.content_flags.len() > 0 {
            object_insert(&mut e, "surfaceContents", strings_to_json(&self.content_flags));
        }
        if let Some(c) = self.color {
            object_insert(&mut e, "scale", numbers_to_json(&c));
        }
        proof { lemma_object_view(e); }
        Json::Object(e)
    }
}

impl Default for DefaultFaceAttributes {
    fn default() -> (r: Self)
        ensures
            !r.spec_is_any_set(),
    {
        DefaultFaceAttributes {
            offset: None,
            scale: None,
            rotation: None,
            surface_value: None,
            surface_flags: Vec::new(),
            content_flags: Vec::new(),
            color: None,
        }
    }
}

/// The numbers `ns` as a JSON array.
fn numbers_to_json(ns: &[jzon::number::Number]) -> (r: Json)
    ensures
        r.view_of() == numbers_json(ns@),
{
    let mut items: Vec<Json> = Vec::new();
    let mut i: usize = 0;
    while i < ns.len()
        invariant
            i <= ns@.len(),
            items@.len() == i,
            forall|k: int| 0 <= k < i ==> (#[trigger] items@[k]).view_of() == JsonView::Number(ns@[k]),
        decreases ns@.len() - i,
    {
        items.push(Json::Number(ns[i]));
        i = i + 1;
    }
    proof {
        lemma_array_view(items);
        assert(Seq::new(items@.len(), |k: int| items@[k].view_of()) =~= Seq::new(ns@.len(), |k: int| JsonView::Number(ns@[k])));
    }
    Json::Array(items)
}

/// The strings `v` as a JSON array.
fn strings_to_json(v: &Vec<String>) -> (r: Json)
    ensures
        r.view_of() == strings_json(v@),
{
    let mut items: Vec<Json> = Vec::new();
    let mut i: usize = 0;
    while i < v.len()
        invariant
            i <= v@.len(),
            items@.len() == i,
            forall|k: int| 0 <= k < i ==> (#[trigger] items@[k]).view_of() == json_str(v@[k]@),
        decreases v@.len() - i,
    {
        items.push(Json::Str(v[i].clone()));
        i = i + 1;
    }
    proof {
        lemma_array_view(items);
        assert(Seq::new(items@.len(), |k: int| items@[k].view_of()) =~= Seq::new(v@.len(), |k: int| json_str(v@[k]@)));
    }
    Json::Array(items)
}

/// The map file formats as JSON: an object `{"format": ..}` for each.
pub open spec fn file_formats_json(f: Seq<MapFileFormat>) -> JsonView {
    JsonView::Array(Seq::new(f.len(), |i: int| JsonView::Object(seq![("format"@, json_str(f[i].spec_config_str()))])))
}

/// Tags as JSON, matched against `match_type`.
pub open spec fn tags_json(t: Seq<TrenchBroomTag>, match_type: Seq<char>) -> JsonView {
    JsonView::Array(Seq::new(t.len(), |i: int| t[i].spec_json(match_type)))
}

/// Bit flags as JSON.
pub open spec fn flags_json(f: Seq<BitFlag>) -> JsonView {
    JsonView::Array(Seq::new(f.len(), |i: int| f[i].spec_json()))
}

/// The placeholder written as the entity scale, replaced by the scale expression afterwards.
pub open spec fn scale_placeholder() -> Seq<char> {
    "$$scale$$"@
}

/// The settings of a game that go into its TrenchBroom game configuration.
///
/// Values that are floating-point numbers in a game are held here as the text they are written
/// as.
#[derive(Debug, Clone)]
pub struct TrenchBroomConfig {
    /// The format version of the TrenchBroom config file, you almost certainly should not change this.
    pub tb_format_version: u16,
    /// How many units in the TrenchBroom world take up 1 unit in the Bevy world, as text.
    pub scale: String,
    /// The path to your game assets.
    pub assets_path: String,
    /// The name of your game.
    pub name: String,
    /// Optional icon for the TrenchBroom UI: the data of a PNG file.
    pub icon: Option<Vec<u8>>,
    /// Supported map file formats.
    pub file_formats: Vec<MapFileFormat>,
    /// The format for asset packages.
    pub package_format: AssetPackageFormat,
    /// The root directory to look for textures in the assets path.
    pub material_root: String,
    /// The supported extensions of your texture files.
    pub texture_extensions: Vec<String>,
    /// The palette file path used for WADs.
    pub texture_pallette: String,
    /// Patterns to match to exclude certain texture files from showing up in-editor.
    pub texture_exclusions: Vec<String>,
    /// The default color for entities in RGBA, as the text `"r g b a"`.
    pub entity_default_color: String,
    /// An expression to evaluate how big entities' models are. Any instances of the string
    /// "%%scale%%" will be replaced with this config's scale.
    pub entity_scale_expression: Option<String>,
    /// Whether to set property defaults into an entity on creation.
    pub entity_set_default_properties: bool,
    /// Tags to apply to brushes.
    pub brush_tags: Vec<TrenchBroomTag>,
    /// Tags to apply to brush faces.
    pub face_tags: Vec<TrenchBroomTag>,
    /// Game-defined flags per face.
    pub surface_flags: Vec<BitFlag>,
    /// Game-defined flags per face, affecting the brush containing the face.
    pub content_flags: Vec<BitFlag>,
    pub default_face_attributes: DefaultFaceAttributes,
    /// The optional bounding box enclosing the map to draw in the 2d viewports, as its FGD text.
    pub soft_map_bounds: Option<String>,
}

/// Whether both are absent, or both present with the same bytes.
pub open spec fn same_bytes(a: Option<Vec<u8>>, b: Option<Vec<u8>>) -> bool {
    match (a, b) {
        (Some(x), Some(y)) => x@ == y@,
        (None, None) => true,
        _ => false,
    }
}

/// The files of a game configuration, to be written into its directory.
#[derive(Debug)]
pub struct GameConfigFiles {
    /// `Icon.png`, when the game has an icon.
    pub icon: Option<Vec<u8>>,
    /// `GameConfig.cfg`.
    pub game_config: String,
    /// The name of the FGD file: the game's name and `.fgd`.
    pub fgd_file_name: String,
    /// The FGD file.
    pub fgd: FgdOutput,
}

/// Why a game configuration could not be written.
#[derive(Debug, Clone, Copy, PartialEq, Eq, Structural)]
pub enum GameConfigError {
    /// The game has no name.
    UninitializedError,
}

impl TrenchBroomConfig {
    /// The face attributes object, when there is anything to put in it.
    pub open spec fn spec_faceattribs_json(self) -> Option<JsonView> {
        let defaults = self.default_face_attributes.spec_is_any_set();
        if defaults || self.surface_flags@.len() > 0 || self.content_flags@.len() > 0 {
            let base = seq![
                ("surfaceflags"@, flags_json(self.surface_flags@)),
                ("contentflags"@, flags_json(self.content_flags@)),
            ];
            Some(JsonView::Object(if defaults { base.push(("defaults"@, self.default_face_attributes.spec_json())) } else { base }))
        } else {
            None
        }
    }

    /// The entries every game configuration has, in order.
    pub open spec fn spec_game_config_base(self) -> Seq<(Seq<char>, JsonView)> {
        seq![
            ("version"@, JsonView::UInt(self.tb_format_version as u64)),
            ("name"@, json_str(self.name@)),
            ("fileformats"@, file_formats_json(self.file_formats@)),
            ("filesystem"@, JsonView::Object(seq![
                ("searchpath"@, json_str(self.assets_path@)),
                ("packageformat"@, JsonView::Object(seq![
                    ("extension"@, json_str(self.package_format.spec_extension())),
                    ("format"@, json_str(self.package_format.spec_format())),
                ])),
            ])),
            ("materials"@, JsonView::Object(seq![
                ("root"@, json_str(self.material_root@)),
                ("extensions"@, strings_json(self.texture_extensions@)),
                ("palette"@, json_str(self.texture_pallette@)),
                ("attribute"@, json_str("wad"@)),
                ("excludes"@, strings_json(self.texture_exclusions@)),
            ])),
            ("entities"@, JsonView::Object(seq![
                ("definitions"@, JsonView::Array(seq![json_str(self.name@ + ".fgd"@)])),
                ("defaultcolor"@, json_str(self.entity_default_color@)),
                ("scale"@, json_str(scale_placeholder())),
                ("setDefaultProperties"@, JsonView::Bool(self.entity_set_default_properties)),
            ])),
            ("tags"@, JsonView::Object(seq![
                ("brush"@, tags_json(self.brush_tags@, "classname"@)),
                ("brushface"@, tags_json(self.face_tags@, "material"@)),
            ])),
        ]
    }

    /// The game configuration as JSON, with the placeholder as the entity scale.
    pub open spec fn spec_game_config_json(self) -> JsonView {
        let base = self.spec_game_config_base();
        let e1 = if self.icon is Some { base.push(("icon"@, json_str("Icon.png"@))) } else { base };
        let e2 = match self.spec_faceattribs_json() {
            Some(f) => e1.push(("faceattribs"@, f)),
            None => e1,
        };
        let e3 = match self.soft_map_bounds {
            Some(b) => e2.push(("softMapBounds"@, json_str(b@))),
            None => e2,
        };
        JsonView::Object(e3)
    }

    /// The entity scale expression with every "%%scale%%" replaced by the scale.
    pub open spec fn spec_entity_scale_expression(self) -> Option<Seq<char>> {
        match self.entity_scale_expression {
            Some(e) => Some(replace_all(e@, "%%scale%%"@, self.scale@)),
            None => None,
        }
    }

    /// The text of `GameConfig.cfg`: the JSON printed by `jzon` with four spaces, the quoted
    /// placeholder then replaced by the entity scale expression when there is one.
    pub open spec fn spec_game_config_text(self) -> Seq<char> {
        let text = jzon_pretty(self.spec_game_config_json(), 4);
        match self.spec_entity_scale_expression() {
            Some(e) => replace_all(text, "\"$$scale$$\""@, e),
            None => text,
        }
    }

    /// Returns a copy of the entity scale expression, replacing all instances of "%%scale%%"
    /// with this config's scale.
    pub fn get_entity_scale_expression(&self) -> (r: Option<String>)
        ensures
            match self.spec_entity_scale_expression() {
                Some(e) => r matches Some(s) && s@ == e,
                None => r is None,
            },
    {
        match &self.entity_scale_expression {
            Some(e) => {
                proof { reveal_strlit("%%scale%%"); }
                Some(replace_str(e.as_str(), "%%scale%%", self.scale.as_str()))
            },
            None => None,
        }
    }

    /// The patterns of texture files excluded by default.
    pub fn default_texture_exclusions() -> (r: Vec<String>)
        ensures
            r@.len() == 4,
            r@[0]@ == "*_normal"@,
            r@[1]@ == "*_mr"@,
            r@[2]@ == "*_emissive"@,
            r@[3]@ == "*_depth"@,
    {
        let mut v: Vec<String> = Vec::new();
        v.push("*_normal".to_owned());
        v.push("*_mr".to_owned());
        v.push("*_emissive".to_owned());
        v.push("*_depth".to_owned());
        v
    }

    /// The face tag that makes `__TB_empty` transparent.
    pub fn empty_face_tag() -> (r: TrenchBroomTag)
        ensures
            r.name@ == "empty"@,
            r.pattern@ == "__TB_empty"@,
            r.attributes@ == seq![TrenchBroomTagAttribute::Transparent],
            r.material is None,
    {
        let mut attributes: Vec<TrenchBroomTagAttribute> = Vec::new();
        attributes.push(TrenchBroomTagAttribute::Transparent);
        TrenchBroomTag::new("empty", "__TB_empty").attributes(attributes)
    }

    /// The game configuration as JSON (see [`Self::spec_game_config_json`]).
    pub fn game_config_json(&self) -> (r: Json)
        ensures
            r.view_of() == self.spec_game_config_json(),
    {
        let mut e: Vec<(String, Json)> = Vec::new();
        e.push(("version".to_owned(), Json::UInt(self.tb_format_version as u64)));
        e.push(("name".to_owned(), Json::Str(self.name.clone())));
        e.push(("fileformats".to_owned(), file_formats_to_json(&self.file_formats)));
        e.push(("filesystem".to_owned(), self.filesystem_json()));
        e.push(("materials".to_owned(), self.materials_json()));
        e.push(("entities".to_owned(), self.entities_json()));
        e.push(("tags".to_owned(), self.tags_to_json()));
        let ghost base = entries_view(e@);
        assert(base =~= self.spec_game_config_base());
        if self.icon.is_some() {
            e.push(("icon".to_owned(), Json::Str("Icon.png".to_owned())));
        }
        let ghost e1 = entries_view(e@);
        assert(e1 =~= (if self.icon is Some { base.push(("icon"@, json_str("Icon.png"@))) } else { base }));
        match self.faceattribs_json() {
            Some(f) => {
                e.push(("faceattribs".to_owned(), f));
            },
            None => {},
        }
        let ghost e2 = entries_view(e@);
        assert(e2 =~= (match self.spec_faceattribs_json() {
            Some(f) => e1.push(("faceattribs"@, f)),
            None => e1,
        }));
        if let Some(b) = &self.soft_map_bounds {
            e.push(("softMapBounds".to_owned(), Json::Str(b.clone())));
        }
        proof {
            assert(entries_view(e@) =~= (match self.soft_map_bounds {
                Some(b) => e2.push(("softMapBounds"@, json_str(b@))),
                None => e2,
            }));
            lemma_object_view(e);
        }
        Json::Object(e)
    }

    fn filesystem_json(&self) -> (r: Json)
        ensures
            r.view_of() == JsonView::Object(seq![
                ("searchpath"@, json_str(self.assets_path@)),
                ("packageformat"@, JsonView::Object(seq![
                    ("extension"@, json_str(self.package_format.spec_extension())),
                    ("format"@, json_str(self.package_format.spec_format())),
                ])),
            ]),
    {
        let mut pf: Vec<(String, Json)> = Vec::new();
        pf.push(("extension".to_owned(), Json::Str(self.package_format.extension().to_owned())));
        pf.push(("format".to_owned(), Json::Str(self.package_format.format().to_owned())));
        proof {
            assert(entries_view(pf@) =~= seq![
                ("extension"@, json_str(self.package_format.spec_extension())),
                ("format"@, json_str(self.package_format.spec_format())),
            ]);
            lemma_object_view(pf);
        }
        let mut e: Vec<(String, Json)> = Vec::new();
        e.push(("searchpath".to_owned(), Json::Str(self.assets_path.clone())));
        e.push(("packageformat".to_owned(), Json::Object(pf)));
        proof {
            lemma_object_view(e);
            assert(entries_view(e@) =~= seq![
                ("searchpath"@, json_str(self.assets_path@)),
                ("packageformat"@, JsonView::Object(seq![
                    ("extension"@, json_str(self.package_format.spec_extension())),
                    ("format"@, json_str(self.package_format.spec_format())),
                ])),
            ]);
        }
        Json::Object(e)
    }

    fn materials_json(&self) -> (r: Json)
        ensures
            r.view_of() == JsonView::Object(seq![
                ("root"@, json_str(self.material_root@)),
                ("extensions"@, strings_json(self.texture_extensions@)),
                ("palette"@, json_str(self.texture_pallette@)),
                ("attribute"@, json_str("wad"@)),
                ("excludes"@, strings_json(self.texture_exclusions@)),
            ]),
    {
        let mut e: Vec<(String, Json)> = Vec::new();
        e.push(("root".to_owned(), Json::Str(self.material_root.clone())));
        e.push(("extensions".to_owned(), strings_to_json(&self.texture_extensions)));
        e.push(("palette".to_owned(), Json::Str(self.texture_pallette.clone())));
        e.push(("attribute".to_owned(), Json::Str("wad".to_owned())));
        e.push(("excludes".to_owned(), strings_to_json(&self.texture_exclusions)));
        proof {
            lemma_object_view(e);
            assert(entries_view(e@) =~= seq![
                ("root"@, json_str(self.material_root@)),
                ("extensions"@, strings_json(self.texture_extensions@)),
                ("palette"@, json_str(self.texture_pallette@)),
                ("attribute"@, json_str("wad"@)),
                ("excludes"@, strings_json(self.texture_exclusions@)),
            ]);
        }
        Json::Object(e)
    }

    fn entities_json(&self) -> (r: Json)
        ensures
            r.view_of() == JsonView::Object(seq![
                ("definitions"@, JsonView::Array(seq![json_str(self.name@ + ".fgd"@)])),
                ("defaultcolor"@, json_str(self.entity_default_color@)),
                ("scale"@, json_str(scale_placeholder())),
                ("setDefaultProperties"@, JsonView::Bool(self.entity_set_default_properties)),
            ]),
    {
        let mut fgd_name = self.name.clone();
        push_str(&mut fgd_name, ".fgd");
        let mut defs: Vec<Json> = Vec::new();
        defs.push(Json::Str(fgd_name));
        proof {
            lemma_array_view(defs);
            assert(Seq::new(defs@.len(), |i: int| defs@[i].view_of()) =~= seq![json_str(self.name@ + ".fgd"@)]);
        }
        let mut e: Vec<(String, Json)> = Vec::new();
        e.push(("definitions".to_owned(), Json::Array(defs)));
        e.push(("defaultcolor".to_owned(), Json::Str(self.entity_default_color.clone())));
        e.push(("scale".to_owned(), Json::Str("$$scale$$".to_owned())));
        e.push(("setDefaultProperties".to_owned(), Json::Bool(self.entity_set_default_properties)));
        proof {
            lemma_object_view(e);
            assert(entries_view(e@) =~= seq![
                ("definitions"@, JsonView::Array(seq![json_str(self.name@ + ".fgd"@)])),
                ("defaultcolor"@, json_str(self.entity_default_color@)),
                ("scale"@, json_str(scale_placeholder())),
                ("setDefaultProperties"@, JsonView::Bool(self.entity_set_default_properties)),
            ]);
        }
        Json::Object(e)
    }

    fn tags_to_json(&self) -> (r: Json)
        ensures
            r.view_of() == JsonView::Object(seq![
                ("brush"@, tags_json(self.brush_tags@, "classname"@)),
                ("brushface"@, tags_json(self.face_tags@, "material"@)),
            ]),
    {
        let mut e: Vec<(String, Json)> = Vec::new();
        e.push(("brush".to_owned(), tag_list_json(&self.brush_tags, "classname")));
        e.push(("brushface".to_owned(), tag_list_json(&self.face_tags, "material")));
        proof {
            lemma_object_view(e);
            assert(entries_view(e@) =~= seq![
                ("brush"@, tags_json(self.brush_tags@, "classname"@)),
                ("brushface"@, tags_json(self.face_tags@, "material"@)),
            ]);
        }
        Json::Object(e)
    }

    fn faceattribs_json(&self) -> (r: Option<Json>)
        ensures
            match self.spec_faceattribs_json() {
                Some(f) => r matches Some(j) && j.view_of() == f,
                None => r is None,
            },
    {
        let defaults = self.default_face_attributes.is_any_set();
        if defaults || self.surface_flags.len() > 0 || self.content_flags.len() > 0 {
            let mut e: Vec<(String, Json)> = Vec::new();
            e.push(("surfaceflags".to_owned(), flag_list_json(&self.surface_flags)));
            e.push(("contentflags".to_owned(), flag_list_json(&self.content_flags)));
            let ghost base = entries_view(e@);
            if defaults {
                e.push(("defaults".to_owned(), self.default_face_attributes.to_json()));
            }
            proof {
                assert(base =~= seq![
                    ("surfaceflags"@, flags_json(self.surface_flags@)),
                    ("contentflags"@, flags_json(self.content_flags@)),
                ]);
                assert(entries_view(e@) =~= (if defaults { base.push(("defaults"@, self.default_face_attributes.spec_json())) } else { base }));
                lemma_object_view(e);
            }
            Some(Json::Object(e))
        } else {
            None
        }
    }

    /// The files of the game configuration: the icon, `GameConfig.cfg` and the FGD file of the
    /// enabled classes of `registry`. A game without a name has no configuration.
    pub fn write_game_config(&self, registry: &ClassRegistry) -> (r: Result<GameConfigFiles, GameConfigError>)
        requires
            forall|k: int| 0 <= k < enabled_classes(registry@).len() ==> flags_fit(#[trigger] enabled_classes(registry@)[k].info),
        ensures
            self.name@.len() == 0 ==> r == Err::<GameConfigFiles, GameConfigError>(GameConfigError::UninitializedError),
            self.name@.len() > 0 ==> (r matches Ok(files) && {
                &&& same_bytes(files.icon, self.icon)
                &&& files.game_config@ == self.spec_game_config_text()
                &&& files.fgd_file_name@ == self.name@ + ".fgd"@
                &&& files.fgd.text@ == crate::fgd_write::fgd_text(registry@)
                &&& crate::fgd_write::report_views(files.fgd.missing_bases@) == crate::fgd_write::missing_base_reports(
                    registry@,
                    crate::fgd_write::fgd_order(registry@),
                )
            }),
    {
        if self.name.as_str().unicode_len() == 0 {
            return Err(GameConfigError::UninitializedError);
        }
        let json = self.game_config_json();
        proof { self.lemma_game_config_depth(); }
        let mut text = pretty(&json, 4);
        match self.get_entity_scale_expression() {
            Some(e) => {
                proof { reveal_strlit("\"$$scale$$\""); }
                text = replace_str(text.as_str(), "\"$$scale$$\"", e.as_str());
            },
            None => {},
        }
        let mut fgd_file_name = self.name.clone();
        push_str(&mut fgd_file_name, ".fgd");
        let icon = match &self.icon {
            Some(i) => Some(i.clone()),
            None => None,
        };
        Ok(GameConfigFiles { icon, game_config: text, fgd_file_name, fgd: write_fgd(registry) })
    }
}

/// Inserting a value no deeper than `b` among values no deeper than `b` keeps them so.
proof fn lemma_insert_if_depth(e: Seq<(Seq<char>, JsonView)>, key: Seq<char>, value: Option<JsonView>, b: nat)
    requires
        forall|i: int| 0 <= i < e.len() ==> json_depth(#[trigger] e[i].1) <= b,
        value matches Some(v) ==> json_depth(v) <= b,
    ensures
        forall|i: int| 0 <= i < insert_if(e, key, value).len() ==> json_depth(#[trigger] insert_if(e, key, value)[i].1) <= b,
{
}

/// Strings and numbers as JSON arrays are one level deep.
proof fn lemma_flat_arrays_depth(v: Seq<String>, ns: Seq<jzon::number::Number>, attrs: Seq<TrenchBroomTagAttribute>)
    ensures
        json_depth(strings_json(v)) <= 1,
        json_depth(numbers_json(ns)) <= 1,
        json_depth(attributes_json(attrs)) <= 1,
{
    lemma_array_depth(Seq::new(v.len(), |i: int| json_str(v[i]@)), 0);
    lemma_array_depth(Seq::new(ns.len(), |i: int| JsonView::Number(ns[i])), 0);
    lemma_array_depth(Seq::new(attrs.len(), |i: int| json_str(attrs[i].spec_config_str())), 0);
}

/// The face attributes' JSON is two levels deep at most.
proof fn lemma_face_attributes_depth(a: DefaultFaceAttributes)
    ensures
        json_depth(a.spec_json()) <= 2,
{
    let e0 = Seq::<(Seq<char>, JsonView)>::empty();
    lemma_flat_arrays_depth(a.surface_flags@, Seq::empty(), Seq::empty());
    lemma_flat_arrays_depth(a.content_flags@, Seq::empty(), Seq::empty());
    match a.offset { Some(o) => lemma_flat_arrays_depth(Seq::empty(), o@, Seq::empty()), None => {} }
    match a.scale { Some(o) => lemma_flat_arrays_depth(Seq::empty(), o@, Seq::empty()), None => {} }
    match a.color { Some(o) => lemma_flat_arrays_depth(Seq::empty(), o@, Seq::empty()), None => {} }
    let e1 = insert_if(e0, "offset"@, match a.offset { Some(o) => Some(numbers_json(o@)), None => None });
    lemma_insert_if_depth(e0, "offset"@, match a.offset { Some(o) => Some(numbers_json(o@)), None => None }, 1);
    let e2 = insert_if(e1, "scale"@, match a.scale { Some(o) => Some(numbers_json(o@)), None => None });
    lemma_insert_if_depth(e1, "scale"@, match a.scale { Some(o) => Some(numbers_json(o@)), None => None }, 1);
    let e3 = insert_if(e2, "rotation"@, match a.rotation { Some(n) => Some(JsonView::Number(n)), None => None });
    lemma_insert_if_depth(e2, "rotation"@, match a.rotation { Some(n) => Some(JsonView::Number(n)), None => None }, 1);
    let e4 = insert_if(e3, "surfaceValue"@, match a.surface_value { Some(n) => Some(JsonView::UInt(n as u64)), None => None });
    lemma_insert_if_depth(e3, "surfaceValue"@, match a.surface_value { Some(n) => Some(JsonView::UInt(n as u64)), None => None }, 1);
    let e5 = insert_if(e4, "surfaceFlags"@, if a.surface_flags@.len() > 0 { Some(strings_json(a.surface_flags@)) } else { None });
    lemma_insert_if_depth(e4, "surfaceFlags"@, if a.surface_flags@.len() > 0 { Some(strings_json(a.surface_flags@)) } else { None }, 1);
    let e6 = insert_if(e5, "surfaceContents"@, if a.content_flags@.len() > 0 { Some(strings_json(a.content_flags@)) } else { None });
    lemma_insert_if_depth(e5, "surfaceContents"@, if a.content_flags@.len() > 0 { Some(strings_json(a.content_flags@)) } else { None }, 1);
    let e7 = insert_if(e6, "scale"@, match a.color { Some(c) => Some(numbers_json(c@)), None => None });
    lemma_insert_if_depth(e6, "scale"@, match a.color { Some(c) => Some(numbers_json(c@)), None => None }, 1);
    lemma_object_depth(e7, 1);
}

/// Tags as JSON are three levels deep at most.
proof fn lemma_tags_depth(t: Seq<TrenchBroomTag>, match_type: Seq<char>)
    ensures
        json_depth(tags_json(t, match_type)) <= 3,
{
    let items = Seq::new(t.len(), |i: int| t[i].spec_json(match_type));
    assert forall|i: int| 0 <= i < items.len() implies json_depth(#[trigger] items[i]) <= 2 by {
        let tag = t[i];
        lemma_flat_arrays_depth(Seq::empty(), Seq::empty(), tag.attributes@);
        let base = seq![
            ("name"@, json_str(tag.name@)),
            ("attribs"@, attributes_json(tag.attributes@)),
            ("match"@, json_str(match_type)),
            ("pattern"@, json_str(tag.pattern@)),
        ];
        match tag.material {
            Some(m) => lemma_object_depth(base.push(("material"@, json_str(m@))), 1),
            None => lemma_object_depth(base, 1),
        }
    }
    lemma_array_depth(items, 2);
}

/// Bit flags as JSON are two levels deep at most.
proof fn lemma_flags_depth(f: Seq<BitFlag>)
    ensures
        json_depth(flags_json(f)) <= 2,
{
    let items = Seq::new(f.len(), |i: int| f[i].spec_json());
    assert forall|i: int| 0 <= i < items.len() implies json_depth(#[trigger] items[i]) <= 1 by {
        match f[i] {
            BitFlag::Unused => lemma_object_depth(seq![("unused"@, JsonView::Bool(true))], 0),
            BitFlag::Used { name, description } => match description {
                Some(d) => lemma_object_depth(seq![("name"@, json_str(name@)), ("description"@, json_str(d@))], 0),
                None => lemma_object_depth(seq![("name"@, json_str(name@))], 0),
            },
        }
    }
    lemma_array_depth(items, 1);
}

impl TrenchBroomConfig {
    /// The game configuration's JSON is five levels deep at most, so it prints with any small
    /// indentation.
    proof fn lemma_game_config_depth(self)
        ensures
            json_depth(self.spec_game_config_json()) <= 5,
    {
        lemma_flat_arrays_depth(self.texture_extensions@, Seq::empty(), Seq::empty());
        lemma_flat_arrays_depth(self.texture_exclusions@, Seq::empty(), Seq::empty());
        let formats = Seq::new(self.file_formats@.len(), |i: int| JsonView::Object(seq![("format"@, json_str(self.file_formats@[i].spec_config_str()))]));
        assert forall|i: int| 0 <= i < formats.len() implies json_depth(#[trigger] formats[i]) <= 1 by {
            lemma_object_depth(seq![("format"@, json_str(self.file_formats@[i].spec_config_str()))], 0);
        }
        lemma_array_depth(formats, 1);
        let package = seq![
            ("extension"@, json_str(self.package_format.spec_extension())),
            ("format"@, json_str(self.package_format.spec_format())),
        ];
        lemma_object_depth(package, 0);
        lemma_object_depth(seq![("searchpath"@, json_str(self.assets_path@)), ("packageformat"@, JsonView::Object(package))], 1);
        lemma_object_depth(seq![
            ("root"@, json_str(self.material_root@)),
            ("extensions"@, strings_json(self.texture_extensions@)),
            ("palette"@, json_str(self.texture_pallette@)),
            ("attribute"@, json_str("wad"@)),
            ("excludes"@, strings_json(self.texture_exclusions@)),
        ], 1);
        lemma_array_depth(seq![json_str(self.name@ + ".fgd"@)], 0);
        lemma_object_depth(seq![
            ("definitions"@, JsonView::Array(seq![json_str(self.name@ + ".fgd"@)])),
            ("defaultcolor"@, json_str(self.entity_default_color@)),
            ("scale"@, json_str(scale_placeholder())),
            ("setDefaultProperties"@, JsonView::Bool(self.entity_set_default_properties)),
        ], 1);
        lemma_tags_depth(self.brush_tags@, "classname"@);
        lemma_tags_depth(self.face_tags@, "material"@);
        lemma_object_depth(seq![
            ("brush"@, tags_json(self.brush_tags@, "classname"@)),
            ("brushface"@, tags_json(self.face_tags@, "material"@)),
        ], 3);
        lemma_flags_depth(self.surface_flags@);
        lemma_flags_depth(self.content_flags@);
        lemma_face_attributes_depth(self.default_face_attributes);
        let fbase = seq![
            ("surfaceflags"@, flags_json(self.surface_flags@)),
            ("contentflags"@, flags_json(self.content_flags@)),
        ];
        lemma_object_depth(fbase, 2);
        lemma_object_depth(fbase.push(("defaults"@, self.default_face_attributes.spec_json())), 2);
        let base = self.spec_game_config_base();
        let e1 = if self.icon is Some { base.push(("icon"@, json_str("Icon.png"@))) } else { base };
        let e2 = match self.spec_faceattribs_json() {
            Some(f) => e1.push(("faceattribs"@, f)),
            None => e1,
        };
        let e3 = match self.soft_map_bounds {
            Some(b) => e2.push(("softMapBounds"@, json_str(b@))),
            None => e2,
        };
        assert forall|i: int| 0 <= i < e3.len() implies json_depth(#[trigger] e3[i].1) <= 4 by {
            if i < base.len() {
                assert(e3[i] == base[i]);
            } else if i < e1.len() {
                assert(e3[i] == e1[i]);
            } else if i < e2.len() {
                assert(e3[i] == e2[i]);
            }
        }
        lemma_object_depth(e3, 4);
    }
}

/// The map file formats as JSON.
fn file_formats_to_json(f: &Vec<MapFileFormat>) -> (r: Json)
    ensures
        r.view_of() == file_formats_json(f@),
{
    let mut items: Vec<Json> = Vec::new();
    let mut i: usize = 0;
    while i < f.len()
        invariant
            i <= f@.len(),
            items@.len() == i,
            forall|k: int| 0 <= k < i ==> (#[trigger] items@[k]).view_of() == JsonView::Object(seq![("format"@, json_str(f@[k].spec_config_str()))]),
        decreases f@.len() - i,
    {
        let mut e: Vec<(String, Json)> = Vec::new();
        e.push(("format".to_owned(), Json::Str(f[i].config_str().to_owned())));
        proof {
            lemma_object_view(e);
            assert(entries_view(e@) =~= seq![("format"@, json_str(f@[i as int].spec_config_str()))]);
        }
        items.push(Json::Object(e));
        i = i + 1;
    }
    proof {
        lemma_array_view(items);
        assert(Seq::new(items@.len(), |k: int| items@[k].view_of()) =~= Seq::new(f@.len(), |k: int| JsonView::Object(seq![("format"@, json_str(f@[k].spec_config_str()))])));
    }
    Json::Array(items)
}

/// Tags as a JSON array.
fn tag_list_json(t: &Vec<TrenchBroomTag>, match_type: &str) -> (r: Json)
    ensures
        r.view_of() == tags_json(t@, match_type@),
{
    let mut items: Vec<Json> = Vec::new();
    let mut i: usize = 0;
    while i < t.len()
        invariant
            i <= t@.len(),
            items@.len() == i,
            forall|k: int| 0 <= k < i ==> (#[trigger] items@[k]).view_of() == t@[k].spec_json(match_type@),
        decreases t@.len() - i,
    {
        items.push(t[i].to_json(match_type));
        i = i + 1;
    }
    proof {
        lemma_array_view(items);
        assert(Seq::new(items@.len(), |k: int| items@[k].view_of()) =~= Seq::new(t@.len(), |k: int| t@[k].spec_json(match_type@)));
    }
    Json::Array(items)
}

/// Bit flags as a JSON array.
fn flag_list_json(f: &Vec<BitFlag>) -> (r: Json)
    ensures
        r.view_of() == flags_json(f@),
{
    let mut items: Vec<Json> = Vec::new();
    let mut i: usize = 0;
    while i < f.len()
        invariant
            i <= f@.len(),
            items@.len() == i,
            forall|k: int| 0 <= k < i ==> (#[trigger] items@[k]).view_of() == f@[k].spec_json(),
        decreases f@.len() - i,
    {
        items.push(f[i].to_json());
        i = i + 1;
    }
    proof {
        lemma_array_view(items);
        assert(Seq::new(items@.len(), |k: int| items@[k].view_of()) =~= Seq::new(f@.len(), |k: int| f@[k].spec_json()));
    }
    Json::Array(items)
}

} // verus!
