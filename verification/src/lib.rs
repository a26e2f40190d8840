use vstd::prelude::*;

pub mod strutil;
pub mod value;
pub mod binding;
pub mod projection;
pub mod components;
pub mod script;
pub mod middleware;
pub mod gameobject;
pub mod registry;
pub mod assets;

verus! {

/// Build profile of the engine: chooses how verbose the host log is.
pub enum PebbleMode {
    Release,
    Debug,
}

/// A unit placeholder for declarations that carry no data of their own.
#[derive(Debug, Default, PartialEq, Eq, Structural, Clone, Copy)]
pub struct Empty {}

/// The engine runs in Debug mode exactly when the configuration string
/// is "debug"; any other value selects Release.
pub fn pebble_mode_from_str(s: &str) -> (mode: PebbleMode)
    ensures
        s@ == "debug"@ ==> mode is Debug,
        s@ != "debug"@ ==> mode is Release,
{
    if crate::strutil::str_eq(s, "debug") {
        PebbleMode::Debug
    } else {
        PebbleMode::Release
    }
}

} // verus!
