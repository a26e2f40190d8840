use vstd::prelude::*;

use crate::gameobject::Gameobject;
use crate::middleware::{Middleware, MiddlewareRegistry};

verus! {

/// What one (re)initialization attempt may do to one entity, whatever the
/// interpreter decided: its identity and script host survive, and the
/// load/refresh flags move as the state machine allows — loaded with a
/// refresh owed, or failed with the refresh flag untouched.
pub open spec fn spec_init_step(g0: Gameobject, g1: Gameobject) -> bool {
    &&& g1.spec_name() == g0.spec_name()
    &&& g1.spec_script() == g0.spec_script()
    &&& (g1.spec_loaded() ==> g1.spec_needs_refresh())
    &&& (!g1.spec_loaded() ==> g1.spec_needs_refresh() == g0.spec_needs_refresh())
}

/// The engine core: the ordered collection of entities — registration
/// order is update and render order — and the one shared middleware
/// registry of the process run.
pub struct Core {
    pub gameobjects: Vec<Gameobject>,
    middlewares: MiddlewareRegistry,
}

impl Core {
    /// The registered entities, in registration order.
    pub closed spec fn spec_gameobjects(self) -> Seq<Gameobject> {
        self.gameobjects@
    }

    /// The shared middleware registry's contents, in registration order.
    pub closed spec fn spec_middlewares(self) -> Seq<Middleware> {
        self.middlewares.spec_items()
    }

    /// An empty core: no entities, no middlewares.
    pub fn new() -> (c: Core)
        ensures
            c.spec_gameobjects() == Seq::<Gameobject>::empty(),
            c.spec_middlewares() == Seq::<Middleware>::empty(),
    {
        Core { gameobjects: Vec::new(), middlewares: MiddlewareRegistry::new() }
    }

    /// Register one middleware, after the ones already registered; every
    /// entity's next (re)initialization will apply it in this order.
    pub fn add_middleware(&mut self, mw: Middleware)
        ensures
            final(self).spec_middlewares() == old(self).spec_middlewares().push(mw),
            final(self).spec_gameobjects() == old(self).spec_gameobjects(),
    {
        self.middlewares.add(mw);
    }

    /// Register one entity over the given script source, after the ones
    /// already registered: not loaded yet, owing one asset refresh.
    pub fn add_gameobject(&mut self, name: &str, content: &str)
        ensures
            final(self).spec_middlewares() == old(self).spec_middlewares(),
            final(self).spec_gameobjects().len() == old(self).spec_gameobjects().len() + 1,
            forall|k: int| 0 <= k < old(self).spec_gameobjects().len()
                ==> final(self).spec_gameobjects()[k] == old(self).spec_gameobjects()[k],
            ({
                let g = final(self).spec_gameobjects().last();
                g.spec_name() == name@ && g.spec_content() == content@ && !g.spec_loaded()
                    && g.spec_needs_refresh()
            }),
    {
        let g = Gameobject::new(name, content);
        self.gameobjects.push(g);
    }

    /// Shared access to the middleware registry, for a loop that drives
    /// reloads entity by entity.
    pub fn get_middlewares(&self) -> (r: &MiddlewareRegistry)
        ensures
            r.spec_items() == self.spec_middlewares(),
    {
        &self.middlewares
    }

    /// (Re)initialize every entity once, in registration order. Each
    /// entity's next state is a lawful init transition of its own previous
    /// state alone: one entity's script failure is confined to that entity
    /// and cannot unseat or stall a sibling.
    pub fn init_all(&mut self)
        ensures
            final(self).spec_middlewares() == old(self).spec_middlewares(),
            final(self).spec_gameobjects().len() == old(self).spec_gameobjects().len(),
            forall|k: int| 0 <= k < old(self).spec_gameobjects().len() ==> spec_init_step(
                old(self).spec_gameobjects()[k],
                final(self).spec_gameobjects()[k],
            ),
    {
        let ghost orig = self.gameobjects@;
        let mut done: Vec<Gameobject> = Vec::new();
        while self.gameobjects.len() > 0
            invariant
                done@.len() + self.gameobjects@.len() == orig.len(),
                forall|k: int| 0 <= k < done@.len() ==> spec_init_step(orig[k], #[trigger] done@[k]),
                forall|k: int| 0 <= k < self.gameobjects@.len() ==> #[trigger] self.gameobjects@[k]
                    == orig[done@.len() + k],
                self.middlewares == old(self).middlewares,
            decreases self.gameobjects@.len(),
        {
            let mut g = self.gameobjects.remove(0);
            let outcome = g.init(&self.middlewares);
            match outcome {
                Ok(_) => {},
                Err(_) => {},
            }
            done.push(g);
        }
        self.gameobjects = done;
    }
}

} // verus!
