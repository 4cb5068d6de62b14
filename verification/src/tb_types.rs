//! Plain configuration types that are written into a TrenchBroom game configuration.
use vstd::prelude::*;
use crate::json::{entries_view, keys_distinct, lemma_array_view, lemma_object_view, object_insert, view_insert, Json, JsonView};

verus! {

/// The format for asset packages.
#[derive(Debug, Clone, PartialEq, Eq)]
pub enum AssetPackageFormat {
    /// Simple ZIP file, uses the .zip extension, if you want to use another extension like pk3, `Other`
    Zip,
    /// Id pak file
    IdPack,
    /// Daikatana pak file
    DkPack,
    Other { extension: &'static str, format: &'static str },
}

impl AssetPackageFormat {
    pub open spec fn spec_extension(&self) -> Seq<char> {
        match self {
            AssetPackageFormat::Zip => "zip"@,
            AssetPackageFormat::IdPack => "pak"@,
            AssetPackageFormat::DkPack => "pak"@,
            AssetPackageFormat::Other { extension, format: _ } => extension@,
        }
    }

    pub open spec fn spec_format(&self) -> Seq<char> {
        match self {
            AssetPackageFormat::Zip => "zip"@,
            AssetPackageFormat::IdPack => "idpak"@,
            AssetPackageFormat::DkPack => "dkpak"@,
            AssetPackageFormat::Other { extension: _, format } => format@,
        }
    }

    /// The extension used by this package format.
    pub fn extension(&self) -> (r: &'static str)
        ensures
            r@ == self.spec_extension(),
    {
        match self {
            AssetPackageFormat::Zip => "zip",
            AssetPackageFormat::IdPack => "pak",
            AssetPackageFormat::DkPack => "pak",
            AssetPackageFormat::Other { extension, format: _ } => extension,
        }
    }

    /// The format id used by this package format.
    pub fn format(&self) -> (r: &'static str)
        ensures
            r@ == self.spec_format(),
    {
        match self {
            AssetPackageFormat::Zip => "zip",
            AssetPackageFormat::IdPack => "idpak",
            AssetPackageFormat::DkPack => "dkpak",
            AssetPackageFormat::Other { extension: _, format } => format,
        }
    }
}

impl Default for AssetPackageFormat {
    fn default() -> (r: Self)
        ensures
            r == AssetPackageFormat::Zip,
    {
        AssetPackageFormat::Zip
    }
}

/// A map file format TrenchBroom can edit.
#[derive(Debug, Clone, Copy, PartialEq, Eq, Structural)]
pub enum MapFileFormat {
    Standard,
    Valve,
    Quake2,
    Quake2Valve,
    Quake3Legacy,
    Quake3Valve,
    Hexen2,
}

impl Default for MapFileFormat {
    fn default() -> (r: Self)
        ensures
            r == MapFileFormat::Valve,
    {
        MapFileFormat::Valve
    }
}

impl MapFileFormat {
    pub open spec fn spec_config_str(self) -> Seq<char> {
        match self {
            MapFileFormat::Standard => "Standard"@,
            MapFileFormat::Valve => "Valve"@,
            MapFileFormat::Quake2 => "Quake2"@,
            MapFileFormat::Quake2Valve => "Quake2 (Valve)"@,
            MapFileFormat::Quake3Legacy => "Quake3 (Legacy)"@,
            MapFileFormat::Quake3Valve => "Quake3 (Valve)"@,
            MapFileFormat::Hexen2 => "Hexen2"@,
        }
    }

    /// How this format is referred to in the config file.
    pub fn config_str(self) -> (r: &'static str)
        ensures
            r@ == self.spec_config_str(),
    {
        match self {
            MapFileFormat::Standard => "Standard",
            MapFileFormat::Valve => "Valve",
            MapFileFormat::Quake2 => "Quake2",
            MapFileFormat::Quake2Valve => "Quake2 (Valve)",
            MapFileFormat::Quake3Legacy => "Quake3 (Legacy)",
            MapFileFormat::Quake3Valve => "Quake3 (Valve)",
            MapFileFormat::Hexen2 => "Hexen2",
        }
    }
}

/// Attribute for [`TrenchBroomTag`], currently the only option is `Transparent`.
#[derive(Debug, Clone, Copy, PartialEq, Eq, Structural)]
pub enum TrenchBroomTagAttribute {
    Transparent,
}

impl TrenchBroomTagAttribute {
    pub open spec fn spec_config_str(self) -> Seq<char> {
        match self {
            TrenchBroomTagAttribute::Transparent => "transparent"@,
        }
    }

    /// How this attribute is referred to in the config file.
    pub fn config_str(self) -> (r: &'static str)
        ensures
            r@ == self.spec_config_str(),
    {
        match self {
            TrenchBroomTagAttribute::Transparent => "transparent",
        }
    }
}

/// Tag for applying attributes to certain brushes/faces, for example, making a `trigger` material transparent.
#[derive(Debug, Clone)]
pub struct TrenchBroomTag {
    /// Name of the tag.
    pub name: String,
    /// The attributes applied to the brushes/faces the tag targets.
    pub attributes: Vec<TrenchBroomTagAttribute>,
    /// The pattern to match for, if this is a brush tag, it will match against the `classname`, if it is a face tag, it will match against the material.
    pub pattern: String,
    /// Only used if this is a brush tag. When this tag is applied by the use of its keyboard shortcut, then the selected brushes will receive this material if it is specified.
    pub material: Option<String>,
}

/// A string as a JSON value.
pub open spec fn json_str(s: Seq<char>) -> JsonView {
    JsonView::Str(s)
}

/// The names of the attributes `attrs` as a JSON array.
pub open spec fn attributes_json(attrs: Seq<TrenchBroomTagAttribute>) -> JsonView {
    JsonView::Array(Seq::new(attrs.len(), |i: int| json_str(attrs[i].spec_config_str())))
}

impl TrenchBroomTag {
    /// Creates a new tag.
    ///
    /// The name is a simple name to identify the tag. The pattern is a pattern to match for allowing wildcards.
    /// If this is a brush tag, it will match against the `classname`, if it is a face tag, it will match against the material.
    pub fn new(name: &str, pattern: &str) -> (r: Self)
        ensures
            r.name@ == name@,
            r.pattern@ == pattern@,
            r.attributes@.len() == 0,
            r.material is None,
    {
        TrenchBroomTag { name: name.to_owned(), attributes: Vec::new(), pattern: pattern.to_owned(), material: None }
    }

    /// Sets the attributes applied to the brushes/faces the tag targets.
    pub fn attributes(self, attributes: Vec<TrenchBroomTagAttribute>) -> (r: Self)
        ensures
            r.name == self.name,
            r.pattern == self.pattern,
            r.material == self.material,
            r.attributes == attributes,
    {
        TrenchBroomTag { attributes, ..self }
    }

    /// Sets the material given to brushes the tag is applied to.
    pub fn material(self, material: &str) -> (r: Self)
        ensures
            r.name == self.name,
            r.pattern == self.pattern,
            r.attributes == self.attributes,
            r.material matches Some(m) && m@ == material@,
    {
        TrenchBroomTag { material: Some(material.to_owned()), ..self }
    }

    /// The JSON form of this tag in a game configuration; `match_type` is what the pattern is
    /// matched against (`classname` or `material`).
    pub open spec fn spec_json(self, match_type: Seq<char>) -> JsonView {
        let base = seq![
            ("name"@, json_str(self.name@)),
            ("attribs"@, attributes_json(self.attributes@)),
            ("match"@, json_str(match_type)),
            ("pattern"@, json_str(self.pattern@)),
        ];
        JsonView::Object(match self.material {
            Some(m) => base.push(("material"@, json_str(m@))),
            None => base,
        })
    }

    /// The JSON form of this tag in a game configuration.
    pub fn to_json(&self, match_type: &str) -> (r: Json)
        ensures
            r.view_of() == self.spec_json(match_type@),
    {
        let mut attribs: Vec<Json> = Vec::new();
        let mut i: usize = 0;
        while i < self.attributes.len()
            invariant
                i <= self.attributes@.len(),
                attribs@.len() == i,
                forall|k: int| 0 <= k < i ==> (#[trigger] attribs@[k]).view_of() == json_str(self.attributes@[k].spec_config_str()),
            decreases self.attributes@.len() - i,
        {
            attribs.push(Json::Str(self.attributes[i].config_str().to_owned()));
            i = i + 1;
        }
        proof {
            lemma_array_view(attribs);
            assert(Seq::new(attribs@.len(), |k: int| attribs@[k].view_of()) =~= Seq::new(self.attributes@.len(), |k: int| json_str(self.attributes@[k].spec_config_str())));
        }
        let attribs = Json::Array(attribs);
        let mut entries: Vec<(String, Json)> = Vec::new();
        entries.push(("name".to_owned(), Json::Str(self.name.clone())));
        entries.push(("attribs".to_owned(), attribs));
        entries.push(("match".to_owned(), Json::Str(match_type.to_owned())));
        entries.push(("pattern".to_owned(), Json::Str(self.pattern.clone())));
        if let Some(m) = &self.material {
            entries.push(("material".to_owned(), Json::Str(m.clone())));
        }
        proof {
            lemma_object_view(entries);
            assert(entries_view(entries@) =~= (match self.material {
                Some(m) => seq![
                    ("name"@, json_str(self.name@)),
                    ("attribs"@, attributes_json(self.attributes@)),
                    ("match"@, json_str(match_type@)),
                    ("pattern"@, json_str(self.pattern@)),
                ].push(("material"@, json_str(m@))),
                None => seq![
                    ("name"@, json_str(self.name@)),
                    ("attribs"@, attributes_json(self.attributes@)),
                    ("match"@, json_str(match_type@)),
                    ("pattern"@, json_str(self.pattern@)),
                ],
            }));
        }
        Json::Object(entries)
    }
}

impl Default for TrenchBroomTag {
    fn default() -> (r: Self)
        ensures
            r.name@.len() == 0,
            r.pattern@.len() == 0,
            r.attributes@.len() == 0,
            r.material is None,
    {
        TrenchBroomTag { name: String::new(), attributes: Vec::new(), pattern: String::new(), material: None }
    }
}

/// Definition of a bit flag for a game configuration. The position of the flag definition
/// determines the position of the bit.
#[derive(Debug, Clone)]
pub enum BitFlag {
    Unused,
    /// Shows up in-editor with the specified name and optional description.
    Used { name: String, description: Option<String> },
}

impl Default for BitFlag {
    fn default() -> (r: Self)
        ensures
            r is Unused,
    {
        BitFlag::Unused
    }
}

impl BitFlag {
    pub fn new(name: &'static str, description: Option<&'static str>) -> (r: Self)
        ensures
            r matches BitFlag::Used { name: n, description: d } && n@ == name@ && match description {
                Some(s) => d matches Some(t) && t@ == s@,
                None => d is None,
            },
    {
        BitFlag::Used {
            name: name.to_owned(),
            description: match description {
                Some(d) => Some(d.to_owned()),
                None => None,
            },
        }
    }

    /// The JSON form of this flag in a game configuration.
    pub open spec fn spec_json(self) -> JsonView {
        match self {
            BitFlag::Unused => JsonView::Object(seq![("unused"@, JsonView::Bool(true))]),
            BitFlag::Used { name, description } => JsonView::Object(match description {
                Some(d) => seq![("name"@, json_str(name@)), ("description"@, json_str(d@))],
                None => seq![("name"@, json_str(name@))],
            }),
        }
    }

    /// The JSON form of this flag in a game configuration.
    pub fn to_json(&self) -> (r: Json)
        ensures
            r.view_of() == self.spec_json(),
    {
        let mut entries: Vec<(String, Json)> = Vec::new();
        match self {
            BitFlag::Unused => {
                entries.push(("unused".to_owned(), Json::Bool(true)));
                assert(entries_view(entries@) =~= seq![("unused"@, JsonView::Bool(true))]);
            },
            BitFlag::Used { name, description } => {
                entries.push(("name".to_owned(), Json::Str(name.clone())));
                match description {
                    Some(d) => {
                        entries.push(("description".to_owned(), Json::Str(d.clone())));
                        assert(entries_view(entries@) =~= seq![("name"@, json_str(name@)), ("description"@, json_str(d@))]);
                    },
                    None => {
                        assert(entries_view(entries@) =~= seq![("name"@, json_str(name@))]);
                    },
                }
            },
        }
        proof { lemma_object_view(entries); }
        Json::Object(entries)
    }
}

} // verus!
