use vstd::prelude::*;

use crate::middleware::MiddlewareRegistry;
use crate::script::{Script, ScriptError};

verus! {

/// What the file-watch channel delivered for the watched path: a writer
/// finished and closed the file, or anything else (opens, reads, metadata),
/// which a drain ignores.
#[derive(Debug, PartialEq, Eq, Structural, Clone, Copy)]
pub enum WatchEventKind {
    CloseWrite,
    Other,
}

/// At least one of the drained events is a write-close: the one condition
/// under which a drain triggers a reload.
pub open spec fn spec_wants_reload(events: Seq<WatchEventKind>) -> bool {
    exists|i: int| 0 <= i < events.len() && events[i] is CloseWrite
}

/// Reload idempotence law: the one decision a drain makes over everything
/// that queued up equals the disjunction of the decisions over the batches
/// — so two write-close events queued before one drain decide exactly what
/// one of them would, one reinitialization for the whole cycle.
pub proof fn lemma_reload_decision_join(e1: Seq<WatchEventKind>, e2: Seq<WatchEventKind>)
    ensures
        spec_wants_reload(e1 + e2) == (spec_wants_reload(e1) || spec_wants_reload(e2)),
{
    if spec_wants_reload(e1) {
        let i = choose|i: int| 0 <= i < e1.len() && e1[i] is CloseWrite;
        assert((e1 + e2)[i] is CloseWrite);
    }
    if spec_wants_reload(e2) {
        let i = choose|i: int| 0 <= i < e2.len() && e2[i] is CloseWrite;
        assert((e1 + e2)[e1.len() + i] is CloseWrite);
    }
    if spec_wants_reload(e1 + e2) {
        let i = choose|i: int| 0 <= i < (e1 + e2).len() && (e1 + e2)[i] is CloseWrite;
        if i < e1.len() {
            assert(e1[i] is CloseWrite);
        } else {
            assert(e2[i - e1.len()] is CloseWrite);
        }
    }
}

/// A hot-reloadable entity: one script host, the load-state flag, and the
/// flag telling the asset collaborator to refresh after a (re)load. The
/// watch channel that feeds `wants_reload` is owned by the surrounding
/// loop, which also reads the backing file.
pub struct Gameobject {
    name: String,
    script: Script,
    reload_asset: bool,
    pub is_loaded: bool,
}

impl Gameobject {
    /// The entity's logical name: the path of its backing script file.
    pub closed spec fn spec_name(self) -> Seq<char> {
        self.name@
    }

    /// Whether the last (re)initialization attempt succeeded.
    pub closed spec fn spec_loaded(self) -> bool {
        self.is_loaded
    }

    /// The current script host, whole.
    pub closed spec fn spec_script(self) -> Script {
        self.script
    }

    /// The source text of the current script host.
    pub closed spec fn spec_content(self) -> Seq<char> {
        self.script.spec_content()
    }

    /// Whether the asset collaborator still has to refresh after the last
    /// successful (re)load.
    pub closed spec fn spec_needs_refresh(self) -> bool {
        self.reload_asset
    }

    /// A fresh entity over the given script source: not loaded yet, and
    /// asking for one initial asset refresh.
    pub fn new(name: &str, content: &str) -> (g: Gameobject)
        ensures
            g.spec_name() == name@,
            g.spec_content() == content@,
            !g.spec_loaded(),
            g.spec_needs_refresh(),
    {
        Gameobject {
            name: name.to_owned(),
            script: Script::new(name, content),
            reload_asset: true,
            is_loaded: false,
        }
    }

    /// A successful (re)load: the entity is loaded and the asset
    /// collaborator owes one refresh.
    fn loaded(&mut self)
        ensures
            final(self).spec_loaded(),
            final(self).spec_needs_refresh(),
            final(self).name == old(self).name,
            final(self).script == old(self).script,
    {
        self.is_loaded = true;
        self.reload_asset = true;
    }

    /// A failed (re)load: the entity is not loaded; everything else —
    /// including the pending refresh flag — stays as it was, so the entity
    /// remains usable with its previous state frozen.
    fn failed(&mut self)
        ensures
            !final(self).spec_loaded(),
            final(self).spec_needs_refresh() == old(self).spec_needs_refresh(),
            final(self).name == old(self).name,
            final(self).script == old(self).script,
    {
        self.is_loaded = false;
    }

    /// Record the outcome of one (re)initialization attempt: success loads
    /// the entity and owes an asset refresh; failure unloads it and touches
    /// nothing else. This is the whole state transition, for every possible
    /// outcome of the interpreter.
    pub fn apply_init_outcome(&mut self, outcome: &Result<(), ScriptError>)
        ensures
            final(self).spec_loaded() == (outcome is Ok),
            outcome is Ok ==> final(self).spec_needs_refresh(),
            outcome is Err ==> final(self).spec_needs_refresh() == old(self).spec_needs_refresh(),
            final(self).spec_name() == old(self).spec_name(),
            final(self).spec_content() == old(self).spec_content(),
            final(self).spec_script() == old(self).spec_script(),
    {
        match outcome {
            Ok(_) => self.loaded(),
            Err(_) => self.failed(),
        }
    }

    /// (Re)initialize: apply every registered middleware to the current
    /// script host in registration order, then execute the script, and take
    /// the state transition the outcome dictates. A middleware injection
    /// failure fails the attempt exactly as a script failure does. The
    /// error, when there is one, is returned for the caller's log and for
    /// nothing else: it never unseats the entity.
    pub fn init(&mut self, middlewares: &MiddlewareRegistry) -> (r: Result<(), ScriptError>)
        ensures
            final(self).spec_loaded() == (r is Ok),
            r is Ok ==> final(self).spec_needs_refresh(),
            r is Err ==> final(self).spec_needs_refresh() == old(self).spec_needs_refresh(),
            final(self).spec_name() == old(self).spec_name(),
            final(self).spec_content() == old(self).spec_content(),
            final(self).spec_script() == old(self).spec_script(),
    {
        let outcome = match middlewares.apply_all(&self.script) {
            Ok(_) => self.script.run(),
            Err(e) => Err(e),
        };
        self.apply_init_outcome(&outcome);
        outcome
    }

    /// The one reload decision of a drain cycle: reload exactly when at
    /// least one drained event is a write-close for the watched path.
    /// However many qualifying events one frame drained, the answer — and
    /// so the single reinitialization it triggers — is the same.
    pub fn wants_reload(&self, events: &Vec<WatchEventKind>) -> (r: bool)
        ensures
            r == spec_wants_reload(events@),
    {
        let n = events.len();
        let mut i: usize = 0;
        while i < n
            invariant
                0 <= i <= n,
                n == events@.len(),
                forall|j: int| 0 <= j < i ==> !(events@[j] is CloseWrite),
            decreases n - i,
        {
            match events[i] {
                WatchEventKind::CloseWrite => {
                    return true;
                },
                WatchEventKind::Other => {},
            }
            i = i + 1;
        }
        false
    }

    /// Replace the script host wholesale with one over freshly read file
    /// content: a new interpreter, the old one discarded; nothing is
    /// executed yet, and the load state is untouched until the next
    /// (re)initialization. Between this and `init`, host code may install
    /// capabilities the middleware ops cannot express.
    pub fn replace_script(&mut self, content: &str)
        ensures
            final(self).spec_content() == content@,
            final(self).spec_name() == old(self).spec_name(),
            final(self).spec_loaded() == old(self).spec_loaded(),
            final(self).spec_needs_refresh() == old(self).spec_needs_refresh(),
    {
        self.script = Script::new(self.name.as_str(), content);
    }

    /// Rebuild the script host from freshly read file content — a new
    /// interpreter, the old one discarded wholesale — and reinitialize.
    /// The outcome is reported exactly as `init` reports it.
    pub fn reload(&mut self, content: &str, middlewares: &MiddlewareRegistry) -> (r: Result<
        (),
        ScriptError,
    >)
        ensures
            final(self).spec_content() == content@,
            final(self).spec_name() == old(self).spec_name(),
            final(self).spec_loaded() == (r is Ok),
            r is Ok ==> final(self).spec_needs_refresh(),
            r is Err ==> final(self).spec_needs_refresh() == old(self).spec_needs_refresh(),
    {
        self.replace_script(content);
        self.init(middlewares)
    }

    /// Whether the per-frame update should run at all: only a loaded
    /// entity's script is called.
    pub fn should_update(&self) -> (r: bool)
        ensures
            r == self.spec_loaded(),
    {
        self.is_loaded
    }

    /// Record the outcome of the per-frame update call: whatever it was —
    /// in particular a runtime error the script raised — it is swallowed;
    /// the entity keeps its state unchanged and is retried next frame.
    pub fn after_update(&mut self, outcome: &Result<(), ScriptError>)
        ensures
            *final(self) == *old(self),
    {
        match outcome {
            Ok(_) => {},
            Err(_) => {},
        }
    }

    /// Read and consume the pending asset refresh: true exactly once per
    /// successful (re)load, for exactly one collaborator per frame.
    pub fn is_assets_reloaded(&mut self) -> (r: bool)
        ensures
            r == old(self).spec_needs_refresh(),
            !final(self).spec_needs_refresh(),
            final(self).spec_loaded() == old(self).spec_loaded(),
            final(self).spec_name() == old(self).spec_name(),
            final(self).spec_content() == old(self).spec_content(),
            final(self).spec_script() == old(self).spec_script(),
    {
        let store = self.reload_asset;
        self.reload_asset = false;
        store
    }

    /// The current script host.
    pub fn get_script(&self) -> (r: &Script)
        ensures
            r == self.spec_script(),
    {
        &self.script
    }

    /// The entity's logical name.
    pub fn get_name(&self) -> (r: &String)
        ensures
            r@ == self.spec_name(),
    {
        &self.name
    }
}

} // verus!
