use pebble::components::{Component, Material, Transform};
use pebble::projection::LuaArray;
use pebble::script::Script;
use pebble::value::{LuaTable, LuaValue};

// The boundary conversion a host loop performs: an interpreter value read
// into the plain model the library decodes.
fn it_to_model(v: &mlua::Value) -> LuaValue {
    match v {
        mlua::Value::Nil => LuaValue::Nil,
        mlua::Value::Boolean(b) => LuaValue::Boolean(*b),
        mlua::Value::Integer(i) => LuaValue::Number((*i as f32).to_bits()),
        mlua::Value::Number(n) => LuaValue::Number((*n as f32).to_bits()),
        mlua::Value::String(s) => LuaValue::Text(s.to_string_lossy().to_string()),
        mlua::Value::Table(t) => {
            let mut out = LuaTable::new();
            for pair in t.clone().pairs::<mlua::Value, mlua::Value>() {
                if let Ok((k, v)) = pair {
                    let key = match &k {
                        mlua::Value::String(s) => s.to_string_lossy().to_string(),
                        mlua::Value::Integer(i) => i.to_string(),
                        mlua::Value::Number(n) => n.to_string(),
                        _ => continue,
                    };
                    out.push(key, it_to_model(&v));
                }
            }
            LuaValue::Table(out)
        }
        _ => LuaValue::Other,
    }
}

#[test]
fn script_components_decode_end_to_end() {
    let source = "\
Components = {\n\
    count = 2,\n\
    data = {\n\
        body = { c_type = 'Transform', data = {\n\
            position = { x = 1.0, y = 2.0 },\n\
            rotation = 0.25,\n\
            scale = { x = 2.0, y = 2.0 },\n\
        } },\n\
        skin = { c_type = 'Material', data = {\n\
            albedo = { r = 10.0, g = 20.0, b = 30.0, a = 255.0 },\n\
            texture = 'hero.png',\n\
        } },\n\
    },\n\
}\n";
    let script = Script::new("hero.lua", source);
    script.run().unwrap();

    let raw: mlua::Value = script.get_state().globals().get("Components").unwrap();
    let model = it_to_model(&raw);
    let array = LuaArray::from_lua(&model).unwrap();
    assert_eq!(array.count, 2.0f32.to_bits());

    let items = array.iter(&Component::binding());
    assert_eq!(items.len(), 2);

    let mut saw_transform = false;
    let mut saw_material = false;
    for (_, element) in items {
        let decoded = element.unwrap();
        let c_type = match decoded.get("c_type") {
            Some(pebble::binding::FieldValue::Text(s)) => s.clone(),
            other => panic!("missing component tag: {:?}", other),
        };
        let data = match decoded.get("data") {
            Some(pebble::binding::FieldValue::Opaque(t)) => t.clone(),
            other => panic!("missing component payload: {:?}", other),
        };
        if c_type == "Transform" {
            let t = Transform::from_lua_table(&data).unwrap();
            assert_eq!(t.position.x, 1.0f32.to_bits());
            assert_eq!(t.position.y, 2.0f32.to_bits());
            assert_eq!(t.rotation, 0.25f32.to_bits());
            assert_eq!(t.scale.x, 2.0f32.to_bits());
            saw_transform = true;
        } else if c_type == "Material" {
            let m = Material::from_lua_table(&data).unwrap();
            assert_eq!(m.albedo.r, 10.0f32.to_bits());
            assert_eq!(m.albedo.a, 255.0f32.to_bits());
            assert_eq!(m.texture, Some("hero.png".to_string()));
            saw_material = true;
        } else {
            panic!("unexpected component tag {}", c_type);
        }
    }
    assert!(saw_transform);
    assert!(saw_material);
}
