use pebble::gameobject::{Gameobject, WatchEventKind};
use pebble::middleware::{Middleware, MiddlewareRegistry, ScopeOp};
use pebble::registry::Core;
use pebble::script::ScriptError;

#[test]
fn gameobject_starts_unloaded() {
    let g = Gameobject::new("main.lua", "x = 1");
    assert!(!g.is_loaded);
    assert_eq!(g.get_name(), &"main.lua".to_string());
}

#[test]
fn init_on_valid_script_loads() {
    let mws = MiddlewareRegistry::new();
    let mut g = Gameobject::new("main.lua", "x = 1");
    g.init(&mws).unwrap();
    assert!(g.is_loaded);
    assert!(g.is_assets_reloaded());
    assert!(!g.is_assets_reloaded());
}

#[test]
fn init_on_invalid_script_fails_and_unloads() {
    let mws = MiddlewareRegistry::new();
    let mut g = Gameobject::new("main.lua", "error('bad script')");
    assert!(g.init(&mws).is_err());
    assert!(!g.is_loaded);
}

#[test]
fn init_applies_middlewares_before_running() {
    let mut mws = MiddlewareRegistry::new();
    mws.add(Middleware {
        name: "logger".to_string(),
        ops: vec![ScopeOp::Install("host_hello".to_string(), "hi".to_string())],
    });
    let mut g = Gameobject::new("main.lua", "echo = host_hello");
    g.init(&mws).unwrap();
    assert_eq!(g.get_script().get_text("echo").unwrap(), "hi".to_string());
}

#[test]
fn middleware_injection_failure_fails_the_attempt() {
    let mut mws = MiddlewareRegistry::new();
    mws.add(Middleware {
        name: "needs_absent".to_string(),
        ops: vec![ScopeOp::Forward("absent".to_string(), "copy".to_string())],
    });
    let mut g = Gameobject::new("main.lua", "x = 1");
    assert!(g.init(&mws).is_err());
    assert!(!g.is_loaded);
}

#[test]
fn wants_reload_only_on_write_close() {
    let g = Gameobject::new("main.lua", "x = 1");
    assert!(!g.wants_reload(&vec![]));
    assert!(!g.wants_reload(&vec![WatchEventKind::Other, WatchEventKind::Other]));
    assert!(g.wants_reload(&vec![WatchEventKind::Other, WatchEventKind::CloseWrite]));
}

#[test]
fn two_queued_write_closes_reload_once() {
    let mws = MiddlewareRegistry::new();
    let mut g = Gameobject::new("main.lua", "version = 'one'");
    g.init(&mws).unwrap();
    let events = vec![WatchEventKind::CloseWrite, WatchEventKind::CloseWrite];
    let mut reinitializations = 0;
    if g.wants_reload(&events) {
        g.reload("version = 'two'", &mws).unwrap();
        reinitializations += 1;
    }
    assert_eq!(reinitializations, 1);
    assert!(g.is_loaded);
    assert_eq!(
        g.get_script().get_text("version").unwrap(),
        "two".to_string()
    );
}

#[test]
fn failed_entity_recovers_on_reload() {
    let mws = MiddlewareRegistry::new();
    let mut g = Gameobject::new("main.lua", "error('first version is broken')");
    assert!(g.init(&mws).is_err());
    assert!(!g.is_loaded);
    let events = vec![WatchEventKind::CloseWrite];
    assert!(g.wants_reload(&events));
    g.reload("x = 'fixed'", &mws).unwrap();
    assert!(g.is_loaded);
    assert!(g.is_assets_reloaded());
}

#[test]
fn reload_failure_freezes_previous_state() {
    let mws = MiddlewareRegistry::new();
    let mut g = Gameobject::new("main.lua", "x = 1");
    g.init(&mws).unwrap();
    assert!(g.is_assets_reloaded());
    assert!(g.reload("broken lua (", &mws).is_err());
    assert!(!g.is_loaded);
    assert!(!g.is_assets_reloaded());
}

#[test]
fn replace_script_defers_to_next_init() {
    let mws = MiddlewareRegistry::new();
    let mut g = Gameobject::new("main.lua", "v = 'one'");
    g.init(&mws).unwrap();
    g.replace_script("v = 'two'");
    assert!(g.is_loaded);
    assert_eq!(g.get_script().get_content(), &"v = 'two'".to_string());
    assert!(g.get_script().get_text("v").is_err());
    g.init(&mws).unwrap();
    assert_eq!(g.get_script().get_text("v").unwrap(), "two".to_string());
}

#[test]
fn update_failure_is_swallowed() {
    let mws = MiddlewareRegistry::new();
    let mut g = Gameobject::new(
        "main.lua",
        "frames = 0\nfunction Update(dt) frames = frames + 1; if dt > 0.5 then error('too slow') end end",
    );
    g.init(&mws).unwrap();
    assert!(g.should_update());

    let update: mlua::Function = g.get_script().get_state().globals().get("Update").unwrap();
    let failed: Result<(), mlua::Error> = update.call(1.0f32);
    assert!(failed.is_err());
    let outcome: Result<(), ScriptError> = Err(ScriptError {
        message: format!("{}", failed.unwrap_err()),
    });
    g.after_update(&outcome);
    assert!(g.is_loaded);
    assert!(g.should_update());

    let ok: Result<(), mlua::Error> = update.call(0.1f32);
    assert!(ok.is_ok());
    g.after_update(&Ok(()));
    assert!(g.is_loaded);
    assert_eq!(g.get_script().get_text("frames").unwrap(), "2".to_string());
}

#[test]
fn one_entity_failure_does_not_stop_siblings() {
    let mut core = Core::new();
    core.add_gameobject("good.lua", "function Update(dt) ran = 'yes' end");
    core.add_gameobject("bad.lua", "error('this one is broken')");
    core.add_gameobject("also_good.lua", "x = 'fine'");
    core.init_all();
    assert!(core.gameobjects[0].is_loaded);
    assert!(!core.gameobjects[1].is_loaded);
    assert!(core.gameobjects[2].is_loaded);

    for go in core.gameobjects.iter_mut() {
        if go.should_update() {
            let outcome = go.get_script().call_function("Update");
            go.after_update(&outcome);
        }
    }
    assert_eq!(
        core.gameobjects[0].get_script().get_text("ran").unwrap(),
        "yes".to_string()
    );
}

#[test]
fn core_shares_middlewares_with_every_entity() {
    let mut core = Core::new();
    core.add_middleware(Middleware {
        name: "logger".to_string(),
        ops: vec![ScopeOp::Install("rust_log".to_string(), "attached".to_string())],
    });
    core.add_gameobject("a.lua", "seen_a = rust_log");
    core.add_gameobject("b.lua", "seen_b = rust_log");
    core.init_all();
    assert!(core.gameobjects[0].is_loaded);
    assert!(core.gameobjects[1].is_loaded);
    assert_eq!(
        core.gameobjects[0].get_script().get_text("seen_a").unwrap(),
        "attached".to_string()
    );
    assert_eq!(
        core.gameobjects[1].get_script().get_text("seen_b").unwrap(),
        "attached".to_string()
    );
}
