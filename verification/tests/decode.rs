use pebble::assets::{texture_assets, AssetStorage, LuaAsset};
use pebble::binding::{Binding, DecodeError, FieldType, FieldValue};
use pebble::components::{Color, Component, Material, Transform, Vector};
use pebble::projection::LuaArray;
use pebble::strutil::{resolve_log_source, str_contains};
use pebble::value::{LuaTable, LuaValue};
use pebble::{pebble_mode_from_str, Empty, PebbleMode};

fn dt_table(entries: Vec<(&str, LuaValue)>) -> LuaTable {
    let mut t = LuaTable::new();
    for (k, v) in entries {
        t.push(k.to_string(), v);
    }
    t
}

fn dt_num(x: f32) -> LuaValue {
    LuaValue::Number(x.to_bits())
}

fn dt_text(s: &str) -> LuaValue {
    LuaValue::Text(s.to_string())
}

#[test]
fn decode_two_field_numeric() {
    let t = dt_table(vec![("x", dt_num(1.0)), ("y", dt_num(2.0))]);
    let b = Binding::new("Point".to_string())
        .field("x".to_string(), FieldType::Num)
        .field("y".to_string(), FieldType::Num);
    let d = b.decode(&LuaValue::Table(t)).unwrap();
    assert_eq!(d.fields.len(), 2);
    assert_eq!(d.fields[0].name, "x".to_string());
    assert_eq!(d.fields[0].value, FieldValue::Num(1.0f32.to_bits()));
    assert_eq!(d.fields[1].name, "y".to_string());
    assert_eq!(d.fields[1].value, FieldValue::Num(2.0f32.to_bits()));
}

#[test]
fn decode_missing_field_fails() {
    let t = dt_table(vec![("x", dt_num(1.0))]);
    let b = Binding::new("Point".to_string())
        .field("x".to_string(), FieldType::Num)
        .field("y".to_string(), FieldType::Num);
    let e = b.decode(&LuaValue::Table(t)).unwrap_err();
    assert_eq!(e, DecodeError::Missing("y".to_string()));
}

#[test]
fn decode_mismatched_field_fails() {
    let t = dt_table(vec![("x", dt_text("not a number"))]);
    let b = Binding::new("P".to_string()).field("x".to_string(), FieldType::Num);
    let e = b.decode(&LuaValue::Table(t)).unwrap_err();
    assert_eq!(e, DecodeError::Mismatch("x".to_string()));
}

#[test]
fn decode_non_table_fails() {
    let b = Binding::new("P".to_string()).field("x".to_string(), FieldType::Num);
    assert_eq!(
        b.decode(&LuaValue::Boolean(true)).unwrap_err(),
        DecodeError::NotATable
    );
    assert_eq!(b.decode(&LuaValue::Nil).unwrap_err(), DecodeError::NotATable);
    assert_eq!(b.decode(&LuaValue::Other).unwrap_err(), DecodeError::NotATable);
}

#[test]
fn optional_field_absent_decodes_to_absent() {
    let t = dt_table(vec![("x", dt_num(1.0))]);
    let b = Binding::new("P".to_string())
        .field("x".to_string(), FieldType::Num)
        .field(
            "note".to_string(),
            FieldType::Optional(Box::new(FieldType::Text)),
        );
    let d = b.decode(&LuaValue::Table(t)).unwrap();
    assert_eq!(d.fields[1].name, "note".to_string());
    assert_eq!(d.fields[1].value, FieldValue::Absent);
}

#[test]
fn optional_field_nil_decodes_to_absent() {
    let t = dt_table(vec![("x", dt_num(1.0)), ("note", LuaValue::Nil)]);
    let b = Binding::new("P".to_string())
        .field("x".to_string(), FieldType::Num)
        .field(
            "note".to_string(),
            FieldType::Optional(Box::new(FieldType::Text)),
        );
    let d = b.decode(&LuaValue::Table(t)).unwrap();
    assert_eq!(d.fields[1].value, FieldValue::Absent);
}

#[test]
fn optional_field_present_decodes_to_value() {
    let t = dt_table(vec![("note", dt_text("hi"))]);
    let b = Binding::new("P".to_string()).field(
        "note".to_string(),
        FieldType::Optional(Box::new(FieldType::Text)),
    );
    let d = b.decode(&LuaValue::Table(t)).unwrap();
    assert_eq!(d.fields[0].value, FieldValue::Text("hi".to_string()));
}

#[test]
fn nested_binding_decodes_recursively() {
    let inner = dt_table(vec![("x", dt_num(3.0)), ("y", dt_num(4.0))]);
    let t = dt_table(vec![("position", LuaValue::Table(inner))]);
    let b = Binding::new("T".to_string()).field(
        "position".to_string(),
        FieldType::Nested(Box::new(
            Binding::new("V".to_string())
                .field("x".to_string(), FieldType::Num)
                .field("y".to_string(), FieldType::Num),
        )),
    );
    let d = b.decode(&LuaValue::Table(t)).unwrap();
    match &d.fields[0].value {
        FieldValue::Nested(inner) => {
            assert_eq!(inner.fields[0].value, FieldValue::Num(3.0f32.to_bits()));
            assert_eq!(inner.fields[1].value, FieldValue::Num(4.0f32.to_bits()));
        }
        other => panic!("expected a nested value, got {:?}", other),
    }
}

#[test]
fn nested_binding_propagates_first_failure() {
    let inner = dt_table(vec![("x", dt_num(3.0))]);
    let t = dt_table(vec![("position", LuaValue::Table(inner))]);
    let b = Binding::new("T".to_string()).field(
        "position".to_string(),
        FieldType::Nested(Box::new(
            Binding::new("V".to_string())
                .field("x".to_string(), FieldType::Num)
                .field("y".to_string(), FieldType::Num),
        )),
    );
    let e = b.decode(&LuaValue::Table(t)).unwrap_err();
    assert_eq!(e, DecodeError::Missing("y".to_string()));
}

#[test]
fn opaque_field_passes_table_through() {
    let payload = dt_table(vec![("anything", dt_num(7.0))]);
    let t = dt_table(vec![("data", LuaValue::Table(payload.clone()))]);
    let b = Binding::new("C".to_string()).field("data".to_string(), FieldType::Opaque);
    let d = b.decode(&LuaValue::Table(t)).unwrap();
    assert_eq!(d.fields[0].value, FieldValue::Opaque(payload));
}

#[test]
fn decoded_get_finds_field_by_name() {
    let t = dt_table(vec![("x", dt_num(1.0)), ("y", dt_num(2.0))]);
    let b = Binding::new("P".to_string())
        .field("x".to_string(), FieldType::Num)
        .field("y".to_string(), FieldType::Num);
    let d = b.decode(&LuaValue::Table(t)).unwrap();
    assert_eq!(d.get("y"), Some(&FieldValue::Num(2.0f32.to_bits())));
    assert_eq!(d.get("z"), None);
}

#[test]
fn array_projection_iterates_actual_entries() {
    let entry_a = dt_table(vec![
        ("c_type", dt_text("Transform")),
        ("data", LuaValue::Table(dt_table(vec![("rotation", dt_num(0.0))]))),
    ]);
    let entry_b = dt_table(vec![
        ("c_type", dt_text("Material")),
        ("data", LuaValue::Table(dt_table(vec![]))),
    ]);
    let t = dt_table(vec![
        ("count", dt_num(2.0)),
        (
            "data",
            LuaValue::Table(dt_table(vec![
                ("a", LuaValue::Table(entry_a)),
                ("b", LuaValue::Table(entry_b)),
            ])),
        ),
    ]);
    let arr = LuaArray::from_lua(&LuaValue::Table(t)).unwrap();
    let items = arr.iter(&Component::binding());
    assert_eq!(items.len(), 2);
    assert_eq!(items[0].0, "a".to_string());
    assert_eq!(items[1].0, "b".to_string());
    assert!(items[0].1.is_ok());
    assert!(items[1].1.is_ok());
}

#[test]
fn array_projection_count_is_advisory() {
    let entry = dt_table(vec![
        ("c_type", dt_text("Material")),
        ("data", LuaValue::Table(dt_table(vec![]))),
    ]);
    let t = dt_table(vec![
        ("count", dt_num(17.0)),
        (
            "data",
            LuaValue::Table(dt_table(vec![
                ("a", LuaValue::Table(entry.clone())),
                ("b", LuaValue::Table(entry)),
            ])),
        ),
    ]);
    let arr = LuaArray::from_lua(&LuaValue::Table(t)).unwrap();
    assert_eq!(arr.count, 17.0f32.to_bits());
    let items = arr.iter(&Component::binding());
    assert_eq!(items.len(), 2);
}

#[test]
fn array_projection_reports_element_failures_in_place() {
    let good = dt_table(vec![
        ("c_type", dt_text("Material")),
        ("data", LuaValue::Table(dt_table(vec![]))),
    ]);
    let t = dt_table(vec![
        ("count", dt_num(2.0)),
        (
            "data",
            LuaValue::Table(dt_table(vec![
                ("bad", dt_text("not a component")),
                ("good", LuaValue::Table(good)),
            ])),
        ),
    ]);
    let arr = LuaArray::from_lua(&LuaValue::Table(t)).unwrap();
    let items = arr.iter(&Component::binding());
    assert_eq!(items.len(), 2);
    assert_eq!(items[0].1, Err(DecodeError::NotATable));
    assert!(items[1].1.is_ok());
}

#[test]
fn array_projection_requires_count_and_data() {
    let t = dt_table(vec![("data", LuaValue::Table(dt_table(vec![])))]);
    assert_eq!(
        LuaArray::from_lua(&LuaValue::Table(t)).unwrap_err(),
        DecodeError::Missing("count".to_string())
    );
    let t2 = dt_table(vec![("count", dt_num(0.0)), ("data", dt_num(1.0))]);
    assert_eq!(
        LuaArray::from_lua(&LuaValue::Table(t2)).unwrap_err(),
        DecodeError::Mismatch("data".to_string())
    );
    assert_eq!(
        LuaArray::from_lua(&dt_num(3.0)).unwrap_err(),
        DecodeError::NotATable
    );
}

#[test]
fn vector_decodes_exactly() {
    let t = dt_table(vec![("x", dt_num(1.5)), ("y", dt_num(-2.0))]);
    let v = Vector::from_lua_table(&t).unwrap();
    assert_eq!(v.x, 1.5f32.to_bits());
    assert_eq!(v.y, (-2.0f32).to_bits());
}

#[test]
fn transform_decodes_nested_vectors() {
    let t = dt_table(vec![
        (
            "position",
            LuaValue::Table(dt_table(vec![("x", dt_num(1.0)), ("y", dt_num(2.0))])),
        ),
        ("rotation", dt_num(0.5)),
        (
            "scale",
            LuaValue::Table(dt_table(vec![("x", dt_num(3.0)), ("y", dt_num(4.0))])),
        ),
    ]);
    let tr = Transform::from_lua_table(&t).unwrap();
    assert_eq!(
        tr,
        Transform {
            position: Vector {
                x: 1.0f32.to_bits(),
                y: 2.0f32.to_bits()
            },
            rotation: 0.5f32.to_bits(),
            scale: Vector {
                x: 3.0f32.to_bits(),
                y: 4.0f32.to_bits()
            },
        }
    );
}

#[test]
fn material_texture_is_optional() {
    let albedo = dt_table(vec![
        ("r", dt_num(10.0)),
        ("g", dt_num(20.0)),
        ("b", dt_num(30.0)),
        ("a", dt_num(255.0)),
    ]);
    let bare = dt_table(vec![("albedo", LuaValue::Table(albedo.clone()))]);
    let m = Material::from_lua_table(&bare).unwrap();
    assert_eq!(m.texture, None);
    assert_eq!(m.albedo.r, 10.0f32.to_bits());

    let textured = dt_table(vec![
        ("albedo", LuaValue::Table(albedo)),
        ("texture", dt_text("brick.png")),
    ]);
    let m2 = Material::from_lua_table(&textured).unwrap();
    assert_eq!(m2.texture, Some("brick.png".to_string()));
}

#[test]
fn material_new_is_light_gray_opaque() {
    let m = Material::new();
    assert_eq!(m.albedo.r, 222.0f32.to_bits());
    assert_eq!(m.albedo.g, 222.0f32.to_bits());
    assert_eq!(m.albedo.b, 222.0f32.to_bits());
    assert_eq!(m.albedo.a, 255.0f32.to_bits());
    assert_eq!(m.texture, None);
}

#[test]
fn color_requires_all_channels() {
    let t = dt_table(vec![("r", dt_num(1.0)), ("g", dt_num(2.0)), ("b", dt_num(3.0))]);
    assert_eq!(
        Color::from_lua_table(&t).unwrap_err(),
        DecodeError::Missing("a".to_string())
    );
}

#[test]
fn component_passes_payload_through() {
    let payload = dt_table(vec![("whatever", dt_text("the tag's decoder reads this"))]);
    let t = dt_table(vec![
        ("c_type", dt_text("Transform")),
        ("data", LuaValue::Table(payload.clone())),
    ]);
    let c = Component::from_lua_table(&t).unwrap();
    assert_eq!(c.c_type, "Transform".to_string());
    assert_eq!(c.data, payload);
}

#[test]
fn lua_asset_decodes_filename() {
    let t = dt_table(vec![
        ("filename", dt_text("hero.png")),
        ("file_type", dt_text("texture")),
    ]);
    let a = LuaAsset::from_lua_table(&t).unwrap();
    assert_eq!(a.get_filename(), &"hero.png".to_string());
}

#[test]
fn texture_assets_reads_declared_textures() {
    let asset = |name: &str| {
        LuaValue::Table(dt_table(vec![
            ("filename", dt_text(name)),
            ("file_type", dt_text("texture")),
        ]))
    };
    let assets = dt_table(vec![(
        "textures",
        LuaValue::Table(dt_table(vec![
            ("hero", asset("hero.png")),
            ("broken", dt_num(1.0)),
            ("wall", asset("wall.png")),
        ])),
    )]);
    let items = texture_assets(&LuaValue::Table(assets)).unwrap();
    assert_eq!(items.len(), 3);
    assert_eq!(
        items[0].1.as_ref().unwrap().get_filename(),
        &"hero.png".to_string()
    );
    assert!(items[1].1.is_err());
    assert_eq!(
        items[2].1.as_ref().unwrap().get_filename(),
        &"wall.png".to_string()
    );
}

#[test]
fn texture_assets_requires_textures_table() {
    let assets = dt_table(vec![]);
    assert_eq!(
        texture_assets(&LuaValue::Table(assets)).unwrap_err(),
        DecodeError::Missing("textures".to_string())
    );
    assert_eq!(
        texture_assets(&dt_text("nope")).unwrap_err(),
        DecodeError::NotATable
    );
}

#[test]
fn asset_storage_first_add_wins() {
    let mut s: AssetStorage<u32> = AssetStorage::new();
    assert_eq!(s.get("a"), None);
    s.add("a", 1);
    s.add("b", 2);
    s.add("a", 99);
    assert_eq!(s.get("a"), Some(&1));
    assert_eq!(s.get("b"), Some(&2));
    assert_eq!(s.get("c"), None);
}

#[test]
fn log_source_attribution() {
    assert_eq!(
        resolve_log_source("./scripts/enemy.lua", "main.lua"),
        "scripts/enemy.lua".to_string()
    );
    assert_eq!(
        resolve_log_source("src/host.rs", "./main.lua"),
        "main.lua".to_string()
    );
    assert!(str_contains("src/host.rs", ".rs"));
    assert!(!str_contains("main.lua", ".rs"));
}

#[test]
fn pebble_mode_parses_debug_only() {
    assert!(matches!(pebble_mode_from_str("debug"), PebbleMode::Debug));
    assert!(matches!(pebble_mode_from_str(""), PebbleMode::Release));
    assert!(matches!(pebble_mode_from_str("release"), PebbleMode::Release));
    let _ = Empty::default();
}

#[test]
fn vector_binding_drives_generic_decoder() {
    let t = dt_table(vec![("x", dt_num(1.0)), ("y", dt_num(2.0))]);
    let d = Vector::binding().decode(&LuaValue::Table(t.clone())).unwrap();
    assert_eq!(d.get("x"), Some(&FieldValue::Num(1.0f32.to_bits())));
    assert_eq!(d.get("y"), Some(&FieldValue::Num(2.0f32.to_bits())));
    let v = Vector::from_lua_table(&t).unwrap();
    assert_eq!(v.x, 1.0f32.to_bits());
    assert_eq!(v.y, 2.0f32.to_bits());
}
