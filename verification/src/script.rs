use vstd::prelude::*;

verus! {

/// mlua's interpreter state: one Lua virtual machine owning its own global
/// scope. Declared so the host can hold and pass it; what is inside stays
/// opaque to verification.
#[verifier::external_type_specification]
#[verifier::external_body]
pub struct ExLua(mlua::Lua);

/// mlua's error type, carried opaquely and rendered to text on demand.
#[verifier::external_type_specification]
#[verifier::external_body]
pub struct ExLuaError(mlua::Error);

/// Relies on mlua::Lua::new: a fresh interpreter with its own global scope
/// (holding the safe standard libraries), sharing nothing with any other
/// interpreter.
#[verifier::external_body]
fn lua_new() -> mlua::Lua {
    mlua::Lua::new()
}

/// Relies on mlua::Lua::load and mlua::Chunk::exec: parses `source` and runs
/// it against this interpreter's global scope, reporting any parse or
/// runtime error. Whether it succeeds depends on the source text and the
/// interpreter's state alone here, but nothing is assumed of it.
#[verifier::external_body]
fn lua_exec(lua: &mlua::Lua, source: &str) -> Result<(), mlua::Error> {
    lua.load(source).exec()
}

/// Relies on mlua::Table::get on the interpreter's globals table: the value
/// of one named global, converted to a string, or mlua's conversion or
/// lookup error.
#[verifier::external_body]
fn lua_get_global_text(lua: &mlua::Lua, name: &str) -> Result<String, mlua::Error> {
    lua.globals().get::<String>(name)
}

/// Relies on mlua::Table::set on the interpreter's globals table: installs
/// `value` under the global name `name`.
#[verifier::external_body]
fn lua_set_global_text(lua: &mlua::Lua, name: &str, value: &str) -> Result<(), mlua::Error> {
    lua.globals().set(name, value)
}

/// Relies on mlua::Table::get and mlua::Function::call: invokes the global
/// callable named `name` with no arguments, discarding its results; fails
/// when the global is absent, not callable, or raises.
#[verifier::external_body]
fn lua_call_global(lua: &mlua::Lua, name: &str) -> Result<(), mlua::Error> {
    let f: mlua::Function = lua.globals().get(name)?;
    f.call::<()>(())
}

/// Relies on mlua::Table::get and mlua::Function::call: invokes the global
/// callable named `name` with no arguments and converts its one result to a
/// string; fails when the global is absent, not callable, raises, or
/// returns something not convertible.
#[verifier::external_body]
fn lua_call_global_text(lua: &mlua::Lua, name: &str) -> Result<String, mlua::Error> {
    let f: mlua::Function = lua.globals().get(name)?;
    f.call::<String>(())
}

/// Relies on mlua::Error's Display implementation: the human-readable
/// message, with source position when mlua knows one.
#[verifier::external_body]
fn lua_error_text(err: &mlua::Error) -> String {
    format!("{}", err)
}

/// A script failure as this crate reports it: the engine's message, ready
/// for the host's log.
#[derive(Debug, PartialEq, Eq)]
pub struct ScriptError {
    pub message: String,
}

/// A script host: one interpreter instance, the logical name of the script
/// (usually its file path) and the source text it executes. Replaced
/// wholesale on every reload, never mutated in place; no two hosts ever
/// share an interpreter.
pub struct Script {
    name: String,
    content: String,
    state: mlua::Lua,
}

impl Script {
    /// The logical name, as read.
    pub closed spec fn spec_name(self) -> Seq<char> {
        self.name@
    }

    /// The source text, as read.
    pub closed spec fn spec_content(self) -> Seq<char> {
        self.content@
    }

    /// A host over a fresh interpreter; nothing is executed yet.
    pub fn new(name: &str, content: &str) -> (s: Script)
        ensures
            s.spec_name() == name@,
            s.spec_content() == content@,
    {
        Script { name: name.to_owned(), content: content.to_owned(), state: lua_new() }
    }

    /// The source text this host executes.
    pub fn get_content(&self) -> (r: &String)
        ensures
            r@ == self.spec_content(),
    {
        &self.content
    }

    /// The logical name of the script.
    pub fn get_name(&self) -> (r: &String)
        ensures
            r@ == self.spec_name(),
    {
        &self.name
    }

    /// The interpreter itself, for host code that installs capabilities or
    /// reads values this crate's model does not carry.
    pub fn get_state(&self) -> &mlua::Lua {
        &self.state
    }

    /// Execute the full source text against this host's global scope. The
    /// interpreter decides the outcome; on failure the error carries the
    /// engine's message.
    pub fn run(&self) -> Result<(), ScriptError> {
        match lua_exec(&self.state, self.content.as_str()) {
            Ok(u) => Ok(u),
            Err(e) => Err(ScriptError { message: lua_error_text(&e) }),
        }
    }

    /// Read one named global as text; fails when it is absent or not
    /// convertible.
    pub fn get_text(&self, name: &str) -> Result<String, ScriptError> {
        match lua_get_global_text(&self.state, name) {
            Ok(s) => Ok(s),
            Err(e) => Err(ScriptError { message: lua_error_text(&e) }),
        }
    }

    /// Read one named global as text, falling back to `default` when it is
    /// absent or not convertible: the render-path variant, where a missing
    /// global must not abort the frame. The interpreter decides which arm;
    /// `text_or` fixes what each arm returns.
    pub fn get_text_or(&self, name: &str, default: &str) -> (r: String) {
        text_or(self.get_text(name), default)
    }

    /// Install one named text value into this host's global scope.
    pub fn set_text(&self, name: &str, value: &str) -> Result<(), ScriptError> {
        match lua_set_global_text(&self.state, name, value) {
            Ok(u) => Ok(u),
            Err(e) => Err(ScriptError { message: lua_error_text(&e) }),
        }
    }

    /// Invoke a named global callable with no arguments and no interesting
    /// return; the interpreter decides the outcome.
    pub fn call_function(&self, name: &str) -> Result<(), ScriptError> {
        match lua_call_global(&self.state, name) {
            Ok(u) => Ok(u),
            Err(e) => Err(ScriptError { message: lua_error_text(&e) }),
        }
    }

    /// Invoke a named global callable with no arguments, reading its result
    /// back as text; the interpreter decides the outcome.
    pub fn call_method(&self, name: &str) -> Result<String, ScriptError> {
        match lua_call_global_text(&self.state, name) {
            Ok(s) => Ok(s),
            Err(e) => Err(ScriptError { message: lua_error_text(&e) }),
        }
    }
}

/// The defaulting decision of a render-path read, fixed for every outcome
/// the read can have: the value read when the read succeeded, the caller's
/// default when it did not.
pub fn text_or(outcome: Result<String, ScriptError>, default: &str) -> (r: String)
    ensures
        outcome matches Ok(s) ==> r@ == s@,
        outcome is Err ==> r@ == default@,
{
    match outcome {
        Ok(s) => s,
        Err(_) => default.to_owned(),
    }
}

} // verus!
