use vstd::prelude::*;

use crate::binding::{Binding, FieldType, DecodeError, SpecDecodeError, spec_strict_error};
use crate::value::{LuaValue, LuaTable, SpecValue, lookup};

verus! {

/// Default albedo channel: the bit pattern of the light gray the engine
/// paints with when a script sets no material.
pub const DEFAULT_ALBEDO_CHANNEL_BITS: u32 = 0x435E_0000;

/// Full alpha: the bit pattern of the largest color channel value.
pub const FULL_CHANNEL_BITS: u32 = 0x437F_0000;

/// A 2-component vector as a script writes it. Channels carry the 32-bit
/// pattern of the number read, uninterpreted by this crate.
#[derive(Debug, PartialEq, Eq, Structural, Clone, Copy)]
pub struct Vector {
    pub x: u32,
    pub y: u32,
}

/// An RGBA color as a script writes it, one 32-bit pattern per channel.
#[derive(Debug, PartialEq, Eq, Structural, Clone, Copy)]
pub struct Color {
    pub r: u32,
    pub g: u32,
    pub b: u32,
    pub a: u32,
}

/// Position, rotation and scale of one entity, as its script writes them.
#[derive(Debug, PartialEq, Eq, Structural, Clone, Copy)]
pub struct Transform {
    pub position: Vector,
    pub rotation: u32,
    pub scale: Vector,
}

/// Surface parameters of one entity: an albedo color and, optionally, the
/// name of a texture to sample.
#[derive(Debug, PartialEq, Eq)]
pub struct Material {
    pub albedo: Color,
    pub texture: Option<String>,
}

/// One type-tagged component entry: a discriminator string and its raw
/// payload table, forwarded undecoded to whichever decoder the tag selects.
#[derive(Debug, PartialEq, Eq)]
pub struct Component {
    pub c_type: String,
    pub data: LuaTable,
}

/// What reading one strictly required numeric field yields.
pub open spec fn spec_num_field(es: Seq<(Seq<char>, SpecValue)>, name: Seq<char>) -> Result<
    u32,
    SpecDecodeError,
> {
    match lookup(es, name) {
        Some(SpecValue::Number(n)) => Ok(n),
        other => Err(spec_strict_error(other, name)),
    }
}

/// What reading one strictly required text field yields.
pub open spec fn spec_text_field(es: Seq<(Seq<char>, SpecValue)>, name: Seq<char>) -> Result<
    Seq<char>,
    SpecDecodeError,
> {
    match lookup(es, name) {
        Some(SpecValue::Text(s)) => Ok(s),
        other => Err(spec_strict_error(other, name)),
    }
}

/// What reading one strictly required nested table field yields.
pub open spec fn spec_table_field(es: Seq<(Seq<char>, SpecValue)>, name: Seq<char>) -> Result<
    Seq<(Seq<char>, SpecValue)>,
    SpecDecodeError,
> {
    match lookup(es, name) {
        Some(SpecValue::Table(des)) => Ok(des),
        other => Err(spec_strict_error(other, name)),
    }
}

/// What reading one optional text field yields: absent decodes to "none",
/// never to a failure.
pub open spec fn spec_opt_text_field(es: Seq<(Seq<char>, SpecValue)>, name: Seq<char>) -> Result<
    Option<Seq<char>>,
    SpecDecodeError,
> {
    match lookup(es, name) {
        Some(SpecValue::Text(s)) => Ok(Some(s)),
        Some(SpecValue::Nil) => Ok(None),
        None => Ok(None),
        _ => Err(SpecDecodeError::Mismatch(name)),
    }
}

/// Read one strictly required numeric field.
fn num_field(t: &LuaTable, name: &str) -> (r: Result<u32, DecodeError>)
    ensures
        match r {
            Ok(n) => spec_num_field(t@, name@) == Ok::<u32, SpecDecodeError>(n),
            Err(e) => spec_num_field(t@, name@) == Err::<u32, SpecDecodeError>(e@),
        },
{
    match t.get(name) {
        Some(LuaValue::Number(n)) => Ok(*n),
        Some(LuaValue::Nil) | None => Err(DecodeError::Missing(name.to_owned())),
        Some(_) => Err(DecodeError::Mismatch(name.to_owned())),
    }
}

/// Read one strictly required text field.
fn text_field(t: &LuaTable, name: &str) -> (r: Result<String, DecodeError>)
    ensures
        match r {
            Ok(s) => spec_text_field(t@, name@) == Ok::<Seq<char>, SpecDecodeError>(s@),
            Err(e) => spec_text_field(t@, name@) == Err::<Seq<char>, SpecDecodeError>(e@),
        },
{
    match t.get(name) {
        Some(LuaValue::Text(s)) => Ok(s.clone()),
        Some(LuaValue::Nil) | None => Err(DecodeError::Missing(name.to_owned())),
        Some(_) => Err(DecodeError::Mismatch(name.to_owned())),
    }
}

/// Read one strictly required nested table field.
fn table_field<'a>(t: &'a LuaTable, name: &str) -> (r: Result<&'a LuaTable, DecodeError>)
    ensures
        match r {
            Ok(d) => spec_table_field(t@, name@) == Ok::<
                Seq<(Seq<char>, SpecValue)>,
                SpecDecodeError,
            >(d@),
            Err(e) => spec_table_field(t@, name@) == Err::<
                Seq<(Seq<char>, SpecValue)>,
                SpecDecodeError,
            >(e@),
        },
{
    match t.get(name) {
        Some(LuaValue::Table(d)) => Ok(d),
        Some(LuaValue::Nil) | None => Err(DecodeError::Missing(name.to_owned())),
        Some(_) => Err(DecodeError::Mismatch(name.to_owned())),
    }
}

/// What decoding a `Vector` from table entries yields.
pub open spec fn spec_vector(es: Seq<(Seq<char>, SpecValue)>) -> Result<Vector, SpecDecodeError> {
    match spec_num_field(es, "x"@) {
        Ok(x) => match spec_num_field(es, "y"@) {
            Ok(y) => Ok(Vector { x, y }),
            Err(e) => Err(e),
        },
        Err(e) => Err(e),
    }
}

/// What decoding a `Color` from table entries yields.
pub open spec fn spec_color(es: Seq<(Seq<char>, SpecValue)>) -> Result<Color, SpecDecodeError> {
    match spec_num_field(es, "r"@) {
        Ok(r) => match spec_num_field(es, "g"@) {
            Ok(g) => match spec_num_field(es, "b"@) {
                Ok(b) => match spec_num_field(es, "a"@) {
                    Ok(a) => Ok(Color { r, g, b, a }),
                    Err(e) => Err(e),
                },
                Err(e) => Err(e),
            },
            Err(e) => Err(e),
        },
        Err(e) => Err(e),
    }
}

/// What decoding a `Transform` from table entries yields.
pub open spec fn spec_transform(es: Seq<(Seq<char>, SpecValue)>) -> Result<
    Transform,
    SpecDecodeError,
> {
    match spec_table_field(es, "position"@) {
        Ok(pes) => match spec_vector(pes) {
            Ok(position) => match spec_num_field(es, "rotation"@) {
                Ok(rotation) => match spec_table_field(es, "scale"@) {
                    Ok(ses) => match spec_vector(ses) {
                        Ok(scale) => Ok(Transform { position, rotation, scale }),
                        Err(e) => Err(e),
                    },
                    Err(e) => Err(e),
                },
                Err(e) => Err(e),
            },
            Err(e) => Err(e),
        },
        Err(e) => Err(e),
    }
}

/// The mathematical reading of a decoded `Material`.
pub struct SpecMaterial {
    pub albedo: Color,
    pub texture: Option<Seq<char>>,
}

impl Material {
    /// The mathematical reading of this material.
    pub open spec fn model(self) -> SpecMaterial {
        SpecMaterial {
            albedo: self.albedo,
            texture: match self.texture {
                Some(s) => Some(s@),
                None => None,
            },
        }
    }
}

/// What decoding a `Material` from table entries yields.
pub open spec fn spec_material(es: Seq<(Seq<char>, SpecValue)>) -> Result<
    SpecMaterial,
    SpecDecodeError,
> {
    match spec_table_field(es, "albedo"@) {
        Ok(aes) => match spec_color(aes) {
            Ok(albedo) => match spec_opt_text_field(es, "texture"@) {
                Ok(texture) => Ok(SpecMaterial { albedo, texture }),
                Err(e) => Err(e),
            },
            Err(e) => Err(e),
        },
        Err(e) => Err(e),
    }
}

/// The mathematical reading of a decoded `Component`.
pub struct SpecComponent {
    pub c_type: Seq<char>,
    pub data: Seq<(Seq<char>, SpecValue)>,
}

impl Component {
    /// The mathematical reading of this component entry.
    pub open spec fn model(self) -> SpecComponent {
        SpecComponent { c_type: self.c_type@, data: self.data@ }
    }
}

/// What decoding a `Component` from table entries yields: the tag read
/// strictly, the payload table passed through raw.
pub open spec fn spec_component(es: Seq<(Seq<char>, SpecValue)>) -> Result<
    SpecComponent,
    SpecDecodeError,
> {
    match spec_text_field(es, "c_type"@) {
        Ok(c_type) => match spec_table_field(es, "data"@) {
            Ok(data) => Ok(SpecComponent { c_type, data }),
            Err(e) => Err(e),
        },
        Err(e) => Err(e),
    }
}

impl Vector {
    /// Decode from a script table, strictly.
    pub fn from_lua_table(t: &LuaTable) -> (r: Result<Vector, DecodeError>)
        ensures
            match r {
                Ok(v) => spec_vector(t@) == Ok::<Vector, SpecDecodeError>(v),
                Err(e) => spec_vector(t@) == Err::<Vector, SpecDecodeError>(e@),
            },
    {
        let x = match num_field(t, "x") {
            Ok(n) => n,
            Err(e) => {
                return Err(e);
            },
        };
        let y = match num_field(t, "y") {
            Ok(n) => n,
            Err(e) => {
                return Err(e);
            },
        };
        Ok(Vector { x, y })
    }

    /// The declarative field list this structure decodes by.
    pub fn binding() -> (b: Binding)
        ensures
            b.fields@.len() == 2,
            b.fields@[0].name@ == "x"@ && b.fields@[0].ty == FieldType::Num,
            b.fields@[1].name@ == "y"@ && b.fields@[1].ty == FieldType::Num,
    {
        Binding::new("Vector".to_owned()).field("x".to_owned(), FieldType::Num).field(
            "y".to_owned(),
            FieldType::Num,
        )
    }
}

impl Color {
    /// Decode from a script table, strictly.
    pub fn from_lua_table(t: &LuaTable) -> (res: Result<Color, DecodeError>)
        ensures
            match res {
                Ok(c) => spec_color(t@) == Ok::<Color, SpecDecodeError>(c),
                Err(e) => spec_color(t@) == Err::<Color, SpecDecodeError>(e@),
            },
    {
        let r = match num_field(t, "r") {
            Ok(n) => n,
            Err(e) => {
                return Err(e);
            },
        };
        let g = match num_field(t, "g") {
            Ok(n) => n,
            Err(e) => {
                return Err(e);
            },
        };
        let b = match num_field(t, "b") {
            Ok(n) => n,
            Err(e) => {
                return Err(e);
            },
        };
        let a = match num_field(t, "a") {
            Ok(n) => n,
            Err(e) => {
                return Err(e);
            },
        };
        Ok(Color { r, g, b, a })
    }
}

impl Transform {
    /// Decode from a script table, strictly and recursively.
    pub fn from_lua_table(t: &LuaTable) -> (r: Result<Transform, DecodeError>)
        ensures
            match r {
                Ok(tr) => spec_transform(t@) == Ok::<Transform, SpecDecodeError>(tr),
                Err(e) => spec_transform(t@) == Err::<Transform, SpecDecodeError>(e@),
            },
    {
        let position = match table_field(t, "position") {
            Ok(pt) => match Vector::from_lua_table(pt) {
                Ok(v) => v,
                Err(e) => {
                    return Err(e);
                },
            },
            Err(e) => {
                return Err(e);
            },
        };
        let rotation = match num_field(t, "rotation") {
            Ok(n) => n,
            Err(e) => {
                return Err(e);
            },
        };
        let scale = match table_field(t, "scale") {
            Ok(st) => match Vector::from_lua_table(st) {
                Ok(v) => v,
                Err(e) => {
                    return Err(e);
                },
            },
            Err(e) => {
                return Err(e);
            },
        };
        Ok(Transform { position, rotation, scale })
    }
}

impl Material {
    /// The fallback material: light gray, fully opaque, no texture.
    pub fn new() -> (m: Material)
        ensures
            m.albedo == (Color {
                r: DEFAULT_ALBEDO_CHANNEL_BITS,
                g: DEFAULT_ALBEDO_CHANNEL_BITS,
                b: DEFAULT_ALBEDO_CHANNEL_BITS,
                a: FULL_CHANNEL_BITS,
            }),
            m.texture is None,
    {
        Material {
            albedo: Color {
                r: DEFAULT_ALBEDO_CHANNEL_BITS,
                g: DEFAULT_ALBEDO_CHANNEL_BITS,
                b: DEFAULT_ALBEDO_CHANNEL_BITS,
                a: FULL_CHANNEL_BITS,
            },
            texture: None,
        }
    }

    /// Decode from a script table: the albedo strictly, the texture name
    /// optionally.
    pub fn from_lua_table(t: &LuaTable) -> (r: Result<Material, DecodeError>)
        ensures
            match r {
                Ok(m) => spec_material(t@) == Ok::<SpecMaterial, SpecDecodeError>(m.model()),
                Err(e) => spec_material(t@) == Err::<SpecMaterial, SpecDecodeError>(e@),
            },
    {
        let albedo = match table_field(t, "albedo") {
            Ok(at) => match Color::from_lua_table(at) {
                Ok(c) => c,
                Err(e) => {
                    return Err(e);
                },
            },
            Err(e) => {
                return Err(e);
            },
        };
        let texture = match t.get("texture") {
            Some(LuaValue::Text(s)) => Some(s.clone()),
            Some(LuaValue::Nil) | None => None,
            Some(_) => {
                return Err(DecodeError::Mismatch("texture".to_owned()));
            },
        };
        Ok(Material { albedo, texture })
    }
}

impl Component {
    /// Decode from a script table: the `c_type` tag strictly, the payload
    /// passed through for the decoder the tag selects.
    pub fn from_lua_table(t: &LuaTable) -> (r: Result<Component, DecodeError>)
        ensures
            match r {
                Ok(c) => spec_component(t@) == Ok::<SpecComponent, SpecDecodeError>(c.model()),
                Err(e) => spec_component(t@) == Err::<SpecComponent, SpecDecodeError>(e@),
            },
    {
        let c_type = match text_field(t, "c_type") {
            Ok(s) => s,
            Err(e) => {
                return Err(e);
            },
        };
        let data = match table_field(t, "data") {
            Ok(d) => d.clone(),
            Err(e) => {
                return Err(e);
            },
        };
        Ok(Component { c_type, data })
    }

    /// The declarative field list a component entry decodes by.
    pub fn binding() -> (b: Binding)
        ensures
            b.fields@.len() == 2,
            b.fields@[0].name@ == "c_type"@ && b.fields@[0].ty == FieldType::Text,
            b.fields@[1].name@ == "data"@ && b.fields@[1].ty == FieldType::Opaque,
    {
        Binding::new("Component".to_owned()).field("c_type".to_owned(), FieldType::Text).field(
            "data".to_owned(),
            FieldType::Opaque,
        )
    }
}

} // verus!
