//! Classes and property types that come with the library.
use vstd::prelude::*;
use crate::class::{ChoicesKey, ErasedQuakeClass, QuakeClassInfo, QuakeClassProperty, QuakeClassPropertyType, QuakeClassType};
use crate::fgd::{int_parse_error, parse_trimmed_int, FgdParseError, FgdType};
use crate::text::{chars_of, str_eq, int_to_dec, lemma_parse_int_to_dec, nat_to_dec, parse_int_spec, trim, u64_to_string};

verus! {

/// How light fades over distance. Used in the `delay` property of light entities; written and
/// read as the number of the variant.
#[derive(Debug, Clone, Copy, PartialEq, Eq, Structural)]
pub enum BspLightAttenuation {
    /// Linear attenuation (default)
    Linear,
    /// 1/x attenuation
    Reciprocal,
    /// 1/(x^2) attenuation
    ReciprocalSquare,
    /// No attenuation (same brightness at any distance)
    NoAttenuation,
    /// No attenuation, and like minlight
    /// it won’t raise the lighting above it’s light value.
    /// Unlike minlight, it will only affect surfaces within
    /// line of sight of the entity.
    LocalMinLight,
    /// 1/(x^2) attenuation, but slightly more attenuated and
    /// without the extra bright effect that [`ReciprocalSquare`](BspLightAttenuation::ReciprocalSquare) has
    /// near the source.
    ReciprocalSquareTweaked,
}

impl Default for BspLightAttenuation {
    fn default() -> (r: Self)
        ensures
            r == BspLightAttenuation::Linear,
    {
        BspLightAttenuation::Linear
    }
}

/// The attenuation numbered `n`, if there is one.
pub open spec fn attenuation_of(n: int) -> Option<BspLightAttenuation> {
    if n == 0 {
        Some(BspLightAttenuation::Linear)
    } else if n == 1 {
        Some(BspLightAttenuation::Reciprocal)
    } else if n == 2 {
        Some(BspLightAttenuation::ReciprocalSquare)
    } else if n == 3 {
        Some(BspLightAttenuation::NoAttenuation)
    } else if n == 4 {
        Some(BspLightAttenuation::LocalMinLight)
    } else if n == 5 {
        Some(BspLightAttenuation::ReciprocalSquareTweaked)
    } else {
        None
    }
}

impl BspLightAttenuation {
    /// The number of this attenuation.
    pub open spec fn spec_number(self) -> nat {
        match self {
            BspLightAttenuation::Linear => 0,
            BspLightAttenuation::Reciprocal => 1,
            BspLightAttenuation::ReciprocalSquare => 2,
            BspLightAttenuation::NoAttenuation => 3,
            BspLightAttenuation::LocalMinLight => 4,
            BspLightAttenuation::ReciprocalSquareTweaked => 5,
        }
    }

    /// The number of this attenuation.
    pub fn number(&self) -> (r: u64)
        ensures
            r == self.spec_number(),
    {
        match self {
            BspLightAttenuation::Linear => 0,
            BspLightAttenuation::Reciprocal => 1,
            BspLightAttenuation::ReciprocalSquare => 2,
            BspLightAttenuation::NoAttenuation => 3,
            BspLightAttenuation::LocalMinLight => 4,
            BspLightAttenuation::ReciprocalSquareTweaked => 5,
        }
    }
}

impl FgdType for BspLightAttenuation {
    open spec fn spec_quoted() -> bool { false }
    open spec fn spec_parse_error(input: Seq<char>) -> Option<FgdParseError> {
        match parse_int_spec(trim(input), true, -0x8000_0000_0000_0000, 0x7fff_ffff_ffff_ffff) {
            Ok(x) => if attenuation_of(x) is Some { None } else { Some(FgdParseError::InvalidVariant) },
            Err(e) => Some(FgdParseError::Int(e)),
        }
    }
    open spec fn spec_parses_to(input: Seq<char>, value: Self) -> bool {
        match parse_int_spec(trim(input), true, -0x8000_0000_0000_0000, 0x7fff_ffff_ffff_ffff) {
            Ok(x) => attenuation_of(x) == Some(value),
            Err(_) => false,
        }
    }
    open spec fn spec_unquoted(&self) -> Seq<char> { nat_to_dec(self.spec_number()) }

    fn fgd_is_quoted() -> (r: bool) { false }

    open spec fn spec_property_type(ty: QuakeClassPropertyType) -> bool {
        ty matches QuakeClassPropertyType::Choices(c) && c@.len() == 6
            && forall|k: int| 0 <= k < 6 ==> (#[trigger] c@[k]).0 == ChoicesKey::Integer(k as i32)
    }
    fn property_type() -> (r: QuakeClassPropertyType) {
        let mut c: Vec<(ChoicesKey, &'static str)> = Vec::new();
        c.push((ChoicesKey::Integer(0), "Linear attenuation (default)"));
        c.push((ChoicesKey::Integer(1), "1/x attenuation"));
        c.push((ChoicesKey::Integer(2), "1/(x^2) attenuation"));
        c.push((ChoicesKey::Integer(3), "No attenuation (same brightness at any distance)"));
        c.push((ChoicesKey::Integer(4), "No attenuation, and like minlight it won’t raise the lighting above it’s light value. Unlike minlight, it will only affect surfaces within line of sight of the entity."));
        c.push((ChoicesKey::Integer(5), "1/(x^2) attenuation, but slightly more attenuated and without the extra bright effect that [`ReciprocalSquare`](BspLightAttenuation::ReciprocalSquare) has near the source."));
        QuakeClassPropertyType::Choices(c)
    }

    fn fgd_parse(input: &str) -> (r: Result<Self, FgdParseError>) {
        match parse_trimmed_int(input, true, -0x8000_0000_0000_0000, 0x7fff_ffff_ffff_ffff) {
            Ok(x) => {
                if x == 0 {
                    Ok(BspLightAttenuation::Linear)
                } else if x == 1 {
                    Ok(BspLightAttenuation::Reciprocal)
                } else if x == 2 {
                    Ok(BspLightAttenuation::ReciprocalSquare)
                } else if x == 3 {
                    Ok(BspLightAttenuation::NoAttenuation)
                } else if x == 4 {
                    Ok(BspLightAttenuation::LocalMinLight)
                } else if x == 5 {
                    Ok(BspLightAttenuation::ReciprocalSquareTweaked)
                } else {
                    Err(FgdParseError::InvalidVariant)
                }
            },
            Err(e) => Err(FgdParseError::Int(e)),
        }
    }

    fn fgd_to_string_unquoted(&self) -> (r: String) {
        u64_to_string(self.number())
    }
}

/// Parsing the FGD text of an attenuation (its number) gives the same attenuation back.
pub proof fn lemma_bsp_light_attenuation_round_trip(v: BspLightAttenuation)
    ensures
        <BspLightAttenuation as FgdType>::spec_parse_error(v.spec_unquoted()) is None,
        <BspLightAttenuation as FgdType>::spec_parses_to(v.spec_unquoted(), v),
{
    lemma_parse_int_to_dec(v.spec_number() as int, true, -0x8000_0000_0000_0000, 0x7fff_ffff_ffff_ffff);
}

/// Commonly used workflows with Quake maps and BSPs, to set up lighting with minimal boilerplate.
#[derive(Debug, Clone, Copy, PartialEq, Eq, Structural)]
pub enum LightingWorkflow {
    /// Only use dynamic lighting, no BSP baked lighting.
    /// Adds point, spot, and directional lights as separate entities, with Bevy-only properties.
    DynamicOnly,
    /// Only use BSP baked lighting, no Bevy dynamic lighting.
    /// Adds a single `light` entity, which by default represents a point light, and by setting properties can become a spot, or directional light.
    BakedOnly,
    /// Use BSP baked lighting only if loading a BSP, else use dynamic lighting.
    MapDynamicBspBaked,
    /// Uses the same entity setup as [`MapDynamicBspBaked`](LightingWorkflow::MapDynamicBspBaked), but doesn't make a distinction based on what type of map is being loaded.
    DynamicAndBakedCombined,
    /// Use both baked and dynamic lighting, with baked lights being a separate `light` entity from real-time dynamic lights which are under the `dynamiclight_` prefix.
    DynamicAndBakedSeparate,
    /// Don't register any ready-to-go light types, you're on your own.
    Custom,
}

impl Default for LightingWorkflow {
    fn default() -> (r: Self)
        ensures
            r == LightingWorkflow::MapDynamicBspBaked,
    {
        LightingWorkflow::MapDynamicBspBaked
    }
}

/// The light classes a workflow registers, by classname.
pub open spec fn workflow_classnames(w: LightingWorkflow) -> Seq<Seq<char>> {
    match w {
        LightingWorkflow::DynamicOnly => seq!["light_point"@, "light_spot"@, "light_directional"@],
        LightingWorkflow::BakedOnly => seq!["light"@],
        LightingWorkflow::MapDynamicBspBaked => seq!["light"@],
        LightingWorkflow::DynamicAndBakedCombined => seq!["light"@],
        LightingWorkflow::DynamicAndBakedSeparate => seq!["light"@, "dynamiclight_point"@, "dynamiclight_spot"@, "dynamiclight_directional"@],
        LightingWorkflow::Custom => seq![],
    }
}

/// Sets up the light classes of a [`LightingWorkflow`].
#[derive(Debug, Clone, Copy)]
pub struct LightingClassesPlugin(pub LightingWorkflow);

impl LightingClassesPlugin {
    /// The classnames of the light classes this plugin registers, in order.
    pub fn classnames(&self) -> (r: Vec<&'static str>)
        ensures
            r@.len() == workflow_classnames(self.0).len(),
            forall|k: int| 0 <= k < r@.len() ==> (#[trigger] r@[k])@ == workflow_classnames(self.0)[k],
    {
        let mut r: Vec<&'static str> = Vec::new();
        match self.0 {
            LightingWorkflow::DynamicOnly => {
                r.push("light_point");
                r.push("light_spot");
                r.push("light_directional");
            },
            LightingWorkflow::BakedOnly | LightingWorkflow::MapDynamicBspBaked | LightingWorkflow::DynamicAndBakedCombined => {
                r.push("light");
            },
            LightingWorkflow::DynamicAndBakedSeparate => {
                r.push("light");
                r.push("dynamiclight_point");
                r.push("dynamiclight_spot");
                r.push("dynamiclight_directional");
            },
            LightingWorkflow::Custom => {},
        }
        r
    }
}

impl Default for LightingClassesPlugin {
    fn default() -> (r: Self)
        ensures
            r.0 == LightingWorkflow::MapDynamicBspBaked,
    {
        LightingClassesPlugin(LightingWorkflow::MapDynamicBspBaked)
    }
}

/// Whether `p` is the property `name` of a text value that may be unset: FGD type `string`,
/// no title, the description `description`, and an empty quoted default.
pub open spec fn optional_text_property(p: QuakeClassProperty, name: Seq<char>, description: Seq<char>) -> bool {
    &&& p.ty == QuakeClassPropertyType::Value("string")
    &&& p.name@ == name
    &&& p.title is None
    &&& p.description matches Some(d) && d@ == description
    &&& p.default_value matches Some(v) && v@ == "\"\""@
}

/// Whether `info` describes a base class named `name` with nothing but its properties.
pub open spec fn plain_base_class(info: QuakeClassInfo, name: Seq<char>) -> bool {
    &&& info.ty == QuakeClassType::Base
    &&& info.name@ == name
    &&& info.description is None
    &&& info.base@.len() == 0
    &&& info.model is None
    &&& info.color is None
    &&& info.iconsprite is None
    &&& info.size is None
    &&& !info.decal
}

fn optional_text(name: &'static str, description: &'static str) -> (p: QuakeClassProperty)
    ensures
        optional_text_property(p, name@, description@),
{
    proof { reveal_strlit("\"\""); }
    QuakeClassProperty {
        ty: QuakeClassPropertyType::Value("string"),
        name,
        title: None,
        description: Some(description),
        default_value: Some("\"\"".to_owned()),
    }
}

/// Quake entity IO - Able to target entities with the [`Targetable`] component.
#[derive(Debug, Clone)]
pub struct Target {
    /// If [`Some`], when this entity's IO fires, it will activate all entities with its [`Targetable::targetname`] set to this, with whatever input that functionality that entity has set up.
    pub target: Option<String>,
    /// If [`Some`], when this entity's IO fires, it will kill all entities with its [`Targetable::targetname`] set to this.
    pub killtarget: Option<String>,
}

impl Target {
    /// The class `__target`: the optional text properties `target` and `killtarget`.
    pub fn class_info() -> (r: QuakeClassInfo)
        ensures
            plain_base_class(r, "__target"@),
            r.properties@.len() == 2,
            optional_text_property(r.properties@[0], "target"@, "If [`Some`], when this entity's IO fires, it will activate all entities with its [`Targetable::targetname`] set to this, with whatever input that functionality that entity has set up."@),
            optional_text_property(r.properties@[1], "killtarget"@, "If [`Some`], when this entity's IO fires, it will kill all entities with its [`Targetable::targetname`] set to this."@),
    {
        let mut properties: Vec<QuakeClassProperty> = Vec::new();
        properties.push(optional_text("target", "If [`Some`], when this entity's IO fires, it will activate all entities with its [`Targetable::targetname`] set to this, with whatever input that functionality that entity has set up."));
        properties.push(optional_text("killtarget", "If [`Some`], when this entity's IO fires, it will kill all entities with its [`Targetable::targetname`] set to this."));
        QuakeClassInfo {
            ty: QuakeClassType::Base,
            name: "__target",
            description: None,
            base: Vec::new(),
            model: None,
            color: None,
            iconsprite: None,
            size: None,
            decal: false,
            properties,
        }
    }
}

impl Default for Target {
    fn default() -> (r: Self)
        ensures
            r.target is None && r.killtarget is None,
    {
        Target { target: None, killtarget: None }
    }
}

/// Quake entity IO - Able to be targeted from a [`Target`] component.
#[derive(Debug, Clone)]
pub struct Targetable {
    /// The name for entities with [`Target`] components to point to.
    pub targetname: Option<String>,
}

impl Targetable {
    /// The class `__targetable`: the optional text property `targetname`.
    pub fn class_info() -> (r: QuakeClassInfo)
        ensures
            plain_base_class(r, "__targetable"@),
            r.properties@.len() == 1,
            optional_text_property(r.properties@[0], "targetname"@, "The name for entities with [`Target`] components to point to."@),
    {
        let mut properties: Vec<QuakeClassProperty> = Vec::new();
        properties.push(optional_text("targetname", "The name for entities with [`Target`] components to point to."));
        QuakeClassInfo {
            ty: QuakeClassType::Base,
            name: "__targetable",
            description: None,
            base: Vec::new(),
            model: None,
            color: None,
            iconsprite: None,
            size: None,
            decal: false,
            properties,
        }
    }
}

impl Default for Targetable {
    fn default() -> (r: Self)
        ensures
            r.targetname is None,
    {
        Targetable { targetname: None }
    }
}

/// What looking up a vector property of a map entity found.
#[derive(Debug, Clone, Copy, PartialEq, Eq, Structural)]
pub enum PropertyLookup {
    /// The property is set to a valid value.
    Found,
    /// The property is not set.
    NotFound,
    /// The property is set, but its value could not be parsed.
    Invalid,
}

/// Where the rotation of an entity comes from.
#[derive(Debug, Clone, Copy, PartialEq, Eq, Structural)]
pub enum RotationSource {
    /// `mangle`, as yaw, pitch and roll (for entities whose classname begins with `light`).
    MangleYawPitchRoll,
    /// `mangle`, as a synonym for `angles` (pitch, yaw and roll).
    MangleAsAngles,
    /// `angles`: pitch, yaw and roll.
    Angles,
    /// `angle`: a yaw alone, 0 when it is not set.
    Angle,
}

/// Why the rotation of an entity could not be read: the property whose value is invalid.
#[derive(Debug, Clone, Copy, PartialEq, Eq, Structural)]
pub enum RotationError {
    InvalidMangle,
    InvalidAngles,
    InvalidAngle,
}

/// Whether `s` begins with `prefix`.
pub open spec fn starts_with(s: Seq<char>, prefix: Seq<char>) -> bool {
    prefix.len() <= s.len() && s.take(prefix.len() as int) == prefix
}

/// Where an entity's rotation is read from: `mangle` if it is set (as yaw, pitch, roll when the
/// classname begins with `light`, as `angles` otherwise), else `angles`, else `angle`. An invalid
/// value of the property that decides is an error.
pub open spec fn rotation_source(classname: Option<Seq<char>>, mangle: PropertyLookup, angles: PropertyLookup, angle: PropertyLookup) -> Result<RotationSource, RotationError> {
    match mangle {
        PropertyLookup::Found => Ok(
            if classname matches Some(c) && starts_with(c, "light"@) {
                RotationSource::MangleYawPitchRoll
            } else {
                RotationSource::MangleAsAngles
            },
        ),
        PropertyLookup::Invalid => Err(RotationError::InvalidMangle),
        PropertyLookup::NotFound => match angles {
            PropertyLookup::Found => Ok(RotationSource::Angles),
            PropertyLookup::Invalid => Err(RotationError::InvalidAngles),
            PropertyLookup::NotFound => match angle {
                PropertyLookup::Invalid => Err(RotationError::InvalidAngle),
                _ => Ok(RotationSource::Angle),
            },
        },
    }
}

/// Whether `s` begins with `prefix`.
pub fn str_starts_with(s: &str, prefix: &str) -> (r: bool)
    ensures
        r == starts_with(s@, prefix@),
{
    let v = chars_of(s);
    let p = chars_of(prefix);
    if p.len() > v.len() {
        return false;
    }
    let mut i: usize = 0;
    while i < p.len()
        invariant
            p@.len() <= v@.len(),
            v@ == s@,
            p@ == prefix@,
            i <= p@.len(),
            forall|j: int| 0 <= j < i ==> v@[j] == p@[j],
        decreases p@.len() - i,
    {
        if v[i] != p[i] {
            assert(v@.take(p@.len() as int)[i as int] != p@[i as int]);
            return false;
        }
        i = i + 1;
    }
    assert(v@.take(p@.len() as int) =~= p@);
    true
}

/// Decides which property an entity's rotation is read from, given its classname (if it has
/// one) and what looking up `mangle`, `angles` and `angle` found (see [`rotation_source`]).
pub fn read_rotation_from_entity(classname: Option<&str>, mangle: PropertyLookup, angles: PropertyLookup, angle: PropertyLookup) -> (r: Result<RotationSource, RotationError>)
    ensures
        r == rotation_source(match classname { Some(c) => Some(c@), None => None }, mangle, angles, angle),
{
    match mangle {
        PropertyLookup::Found => {
            let is_light = match classname {
                Some(c) => str_starts_with(c, "light"),
                None => false,
            };
            Ok(if is_light { RotationSource::MangleYawPitchRoll } else { RotationSource::MangleAsAngles })
        },
        PropertyLookup::Invalid => Err(RotationError::InvalidMangle),
        PropertyLookup::NotFound => match angles {
            PropertyLookup::Found => Ok(RotationSource::Angles),
            PropertyLookup::Invalid => Err(RotationError::InvalidAngles),
            PropertyLookup::NotFound => match angle {
                PropertyLookup::Invalid => Err(RotationError::InvalidAngle),
                _ => Ok(RotationSource::Angle),
            },
        },
    }
}

// ---------------------------------------------------------------------------
// Built-in base, point and solid classes
// ---------------------------------------------------------------------------

/// The prefix used by base classes provided by this library.
///
/// You should not use this prefix in your base classes to avoid conflicts.
pub const BUILTIN_BASE_CLASS_PREFIX: &'static str = "__";

/// Whether `info` is a class of kind `ty` named `name` with the description `description`, no
/// editor settings and no properties of its own.
pub open spec fn documented_class(info: QuakeClassInfo, ty: QuakeClassType, name: Seq<char>, description: Seq<char>) -> bool {
    &&& info.ty == ty
    &&& info.name@ == name
    &&& info.description matches Some(d) && d@ == description
    &&& info.model is None
    &&& info.color is None
    &&& info.iconsprite is None
    &&& info.size is None
    &&& !info.decal
    &&& info.properties@.len() == 0
}

/// Whether `p` is the property `name` of type `vector` titled `title`, defaulting to `default`.
pub open spec fn vector_property(p: QuakeClassProperty, name: Seq<char>, title: Seq<char>, default: Seq<char>) -> bool {
    &&& p.ty == QuakeClassPropertyType::Value("vector")
    &&& p.name@ == name
    &&& p.title matches Some(t) && t@ == title
    &&& p.description is None
    &&& p.default_value matches Some(v) && v@ == default
}

fn vector(name: &'static str, title: &'static str, default: &'static str) -> (p: QuakeClassProperty)
    ensures
        vector_property(p, name@, title@, default@),
{
    QuakeClassProperty {
        ty: QuakeClassPropertyType::Value("vector"),
        name,
        title: Some(title),
        description: None,
        default_value: Some(default.to_owned()),
    }
}

/// The class `__transform` of an entity's transform: `origin`, `angles` (pitch, yaw, roll in
/// degrees) and `scale`, vectors defaulting to zero, zero and one.
pub fn transform_class_info() -> (r: QuakeClassInfo)
    ensures
        plain_base_class(r, "__transform"@),
        r.properties@.len() == 3,
        vector_property(r.properties@[0], "origin"@, "Translation/Origin"@, "\"0 0 0\""@),
        vector_property(r.properties@[1], "angles"@, "Rotation (pitch yaw roll) in degrees"@, "\"0 0 0\""@),
        vector_property(r.properties@[2], "scale"@, "Scale"@, "\"1 1 1\""@),
{
    let mut properties: Vec<QuakeClassProperty> = Vec::new();
    properties.push(vector("origin", "Translation/Origin", "\"0 0 0\""));
    properties.push(vector("angles", "Rotation (pitch yaw roll) in degrees", "\"0 0 0\""));
    properties.push(vector("scale", "Scale", "\"1 1 1\""));
    QuakeClassInfo {
        ty: QuakeClassType::Base,
        name: "__transform",
        description: None,
        base: Vec::new(),
        model: None,
        color: None,
        iconsprite: None,
        size: None,
        decal: false,
        properties,
    }
}

/// The class `__visibility`: the `visibility` property, one of `Inherited`, `Hidden` and
/// `Visible`, defaulting to `"Inherited"`.
pub fn visibility_class_info() -> (r: QuakeClassInfo)
    ensures
        plain_base_class(r, "__visibility"@),
        r.properties@.len() == 1,
        r.properties@[0].name@ == "visibility"@,
        r.properties@[0].title matches Some(t) && t@ == "Visibility"@,
        r.properties@[0].description is None,
        r.properties@[0].default_value matches Some(v) && v@ == "\"Inherited\""@,
        r.properties@[0].ty matches QuakeClassPropertyType::Choices(c) && c@.len() == 3
            && c@[0].0 == ChoicesKey::String("Inherited")
            && c@[1].0 == ChoicesKey::String("Hidden")
            && c@[2].0 == ChoicesKey::String("Visible"),
{
    let mut choices: Vec<(ChoicesKey, &'static str)> = Vec::new();
    choices.push((ChoicesKey::String("Inherited"), "Uses the visibility of its parents. If its a root-level entity, it will be visible."));
    choices.push((ChoicesKey::String("Hidden"), "Always not rendered, regardless of its parent's visibility."));
    choices.push((ChoicesKey::String("Visible"), "Always rendered, regardless of its parent's visibility."));
    let mut properties: Vec<QuakeClassProperty> = Vec::new();
    properties.push(QuakeClassProperty {
        ty: QuakeClassPropertyType::Choices(choices),
        name: "visibility",
        title: Some("Visibility"),
        description: None,
        default_value: Some("\"Inherited\"".to_owned()),
    });
    QuakeClassInfo {
        ty: QuakeClassType::Base,
        name: "__visibility",
        description: None,
        base: Vec::new(),
        model: None,
        color: None,
        iconsprite: None,
        size: None,
        decal: false,
        properties,
    }
}

/// Whether an entity is drawn.
#[derive(Debug, Clone, Copy, PartialEq, Eq, Structural)]
pub enum VisibilitySetting {
    /// Uses the visibility of its parents; a root-level entity is visible.
    Inherited,
    /// Never drawn.
    Hidden,
    /// Always drawn.
    Visible,
}

/// A `visibility` property that is none of `Inherited`, `Hidden` and `Visible`.
#[derive(Debug, Clone, Copy, PartialEq, Eq, Structural)]
pub struct InvalidVisibility;

/// The visibility an entity with the `visibility` property `value` (if it has one) spawns with.
pub open spec fn spec_visibility(value: Option<Seq<char>>) -> Result<VisibilitySetting, InvalidVisibility> {
    match value {
        None => Ok(VisibilitySetting::Inherited),
        Some(v) => if v == "Inherited"@ {
            Ok(VisibilitySetting::Inherited)
        } else if v == "Hidden"@ {
            Ok(VisibilitySetting::Hidden)
        } else if v == "Visible"@ {
            Ok(VisibilitySetting::Visible)
        } else {
            Err(InvalidVisibility)
        },
    }
}

/// Reads the `visibility` property of an entity (see [`spec_visibility`]): a missing property is
/// `Inherited`, and anything but the three names is an error.
pub fn read_visibility(value: Option<&str>) -> (r: Result<VisibilitySetting, InvalidVisibility>)
    ensures
        r == spec_visibility(match value { Some(v) => Some(v@), None => None }),
{
    match value {
        None => Ok(VisibilitySetting::Inherited),
        Some(v) => {
            if str_eq(v, "Inherited") {
                Ok(VisibilitySetting::Inherited)
            } else if str_eq(v, "Hidden") {
                Ok(VisibilitySetting::Hidden)
            } else if str_eq(v, "Visible") {
                Ok(VisibilitySetting::Visible)
            } else {
                Err(InvalidVisibility)
            }
        },
    }
}

fn documented(ty: QuakeClassType, name: &'static str, description: &'static str, base: Vec<ErasedQuakeClass>) -> (r: QuakeClassInfo)
    ensures
        documented_class(r, ty, name@, description@),
        r.base == base,
{
    QuakeClassInfo {
        ty,
        name,
        description: Some(description),
        base,
        model: None,
        color: None,
        iconsprite: None,
        size: None,
        decal: false,
        properties: Vec::new(),
    }
}

/// Defines the single-player start point and direction.
#[derive(Debug, Clone, Copy)]
pub struct InfoPlayerStart;

impl InfoPlayerStart {
    /// The point class `info_player_start`, described by its documentation.
    pub fn class_info() -> (r: QuakeClassInfo)
        ensures
            documented_class(r, QuakeClassType::Point, "info_player_start"@, "Defines the single-player start point and direction. \n (If this is not inside level geometry, `qbsp` reports warnings like `WARNING: Reached occupant ''info_player_start'' at (1000 -296 -40), no filling performed.` which fails the build just as if level geometry is not enclosed.)"@),
            r.base@.len() == 0,
    {
        documented(
            QuakeClassType::Point,
            "info_player_start",
            "Defines the single-player start point and direction. \n (If this is not inside level geometry, `qbsp` reports warnings like `WARNING: Reached occupant ''info_player_start'' at (1000 -296 -40), no filling performed.` which fails the build just as if level geometry is not enclosed.)",
            Vec::new(),
        )
    }
}

/// The worldspawn entity contains the main structural geometry in the world, and its properties
/// represent map-wide settings. Exactly one must be in every map.
#[derive(Debug, Clone, Copy)]
pub struct Worldspawn;

impl Worldspawn {
    /// The solid class `worldspawn`, described by its documentation.
    pub fn class_info() -> (r: QuakeClassInfo)
        ensures
            documented_class(r, QuakeClassType::Solid, "worldspawn"@, "The worldspawn entity contains the main structural geometry in the world, and its properties represent map-wide settings. Exactly one must be in every map. \n This is an empty worldspawn implementation to get you up and running with as few lines of code as possible. You will almost certainly override this class with your own at some point."@),
            r.base@.len() == 0,
    {
        documented(
            QuakeClassType::Solid,
            "worldspawn",
            "The worldspawn entity contains the main structural geometry in the world, and its properties represent map-wide settings. Exactly one must be in every map. \n This is an empty worldspawn implementation to get you up and running with as few lines of code as possible. You will almost certainly override this class with your own at some point.",
            Vec::new(),
        )
    }
}

/// Groups a set of brushes together in-editor.
#[derive(Debug, Clone, Copy)]
pub struct FuncGroup;

impl FuncGroup {
    /// The solid class `func_group`, based on `__visibility` (registered with the type id
    /// `visibility_id`).
    pub fn class_info(visibility_id: u64) -> (r: QuakeClassInfo)
        ensures
            documented_class(r, QuakeClassType::Solid, "func_group"@, "Groups a set of brushes together in-editor."@),
            r.base@.len() == 1,
            r.base@[0].type_id == visibility_id,
            plain_base_class(r.base@[0].info, "__visibility"@),
    {
        let mut base: Vec<ErasedQuakeClass> = Vec::new();
        base.push(ErasedQuakeClass { type_id: visibility_id, info: visibility_class_info() });
        documented(QuakeClassType::Solid, "func_group", "Groups a set of brushes together in-editor.", base)
    }
}

/// Generic brush entity to separate from world geometry. bevy_trenchbroom's version of Quake's
/// `func_wall`.
#[derive(Debug, Clone, Copy)]
pub struct FuncGeneric;

impl FuncGeneric {
    /// The solid class `func_generic`, based on `__visibility` (registered with the type id
    /// `visibility_id`).
    pub fn class_info(visibility_id: u64) -> (r: QuakeClassInfo)
        ensures
            documented_class(r, QuakeClassType::Solid, "func_generic"@, "Generic brush entity to separate from world geometry. bevy_trenchbroom's version of Quake's `func_wall`."@),
            r.base@.len() == 1,
            r.base@[0].type_id == visibility_id,
            plain_base_class(r.base@[0].info, "__visibility"@),
    {
        let mut base: Vec<ErasedQuakeClass> = Vec::new();
        base.push(ErasedQuakeClass { type_id: visibility_id, info: visibility_class_info() });
        documented(
            QuakeClassType::Solid,
            "func_generic",
            "Generic brush entity to separate from world geometry. bevy_trenchbroom's version of Quake's `func_wall`.",
            base,
        )
    }
}

} // verus!
