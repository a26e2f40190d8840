use vstd::prelude::*;

use crate::script::{Script, ScriptError};

verus! {

/// One injection a middleware performs on a script's global scope:
/// install a named text value, or read one global and install it under
/// another name (how a later middleware builds on an earlier one's work).
pub enum ScopeOp {
    Install(String, String),
    Forward(String, String),
}

/// A host-installed setup step: a name for the host's log and the ordered
/// injections it performs on a script host's global scope before the
/// script runs.
pub struct Middleware {
    pub name: String,
    pub ops: Vec<ScopeOp>,
}

/// The ordered, shared list of middlewares. Append-only during setup, read
/// in registration order on every (re)initialization of every entity.
pub struct MiddlewareRegistry {
    items: Vec<Middleware>,
}

/// What one injection does to a scope, read as a map from global names to
/// text values: `Install` writes its value; `Forward` writes the source's
/// value under the new name, and fails when the source is not there.
pub open spec fn spec_apply_op(scope: Map<Seq<char>, Seq<char>>, op: ScopeOp) -> Result<
    Map<Seq<char>, Seq<char>>,
    Seq<char>,
> {
    match op {
        ScopeOp::Install(name, value) => Ok(scope.insert(name@, value@)),
        ScopeOp::Forward(src, dst) => if scope.dom().contains(src@) {
            Ok(scope.insert(dst@, scope[src@]))
        } else {
            Err(src@)
        },
    }
}

/// What running the injections from position `i` on does to a scope: each
/// applied in order, stopping at the first failure, whose missing source
/// name is the result.
pub open spec fn spec_apply_ops(scope: Map<Seq<char>, Seq<char>>, ops: Seq<ScopeOp>, i: int) -> Result<
    Map<Seq<char>, Seq<char>>,
    Seq<char>,
>
    decreases ops.len() - i,
{
    if i < 0 || i >= ops.len() {
        Ok(scope)
    } else {
        match spec_apply_op(scope, ops[i]) {
            Ok(next) => spec_apply_ops(next, ops, i + 1),
            Err(e) => Err(e),
        }
    }
}

/// What one middleware does to a scope.
pub open spec fn spec_apply_middleware(scope: Map<Seq<char>, Seq<char>>, mw: Middleware) -> Result<
    Map<Seq<char>, Seq<char>>,
    Seq<char>,
> {
    spec_apply_ops(scope, mw.ops@, 0)
}

/// What applying the registered middlewares from position `i` on does to a
/// scope: each middleware applied whole, in registration order, stopping at
/// the first failure.
pub open spec fn spec_apply_all(scope: Map<Seq<char>, Seq<char>>, mws: Seq<Middleware>, i: int) -> Result<
    Map<Seq<char>, Seq<char>>,
    Seq<char>,
>
    decreases mws.len() - i,
{
    if i < 0 || i >= mws.len() {
        Ok(scope)
    } else {
        match spec_apply_middleware(scope, mws[i]) {
            Ok(next) => spec_apply_all(next, mws, i + 1),
            Err(e) => Err(e),
        }
    }
}

/// Middleware ordering law, first half: a registry holding exactly `[a, b]`
/// applies `a` whole, then `b` whole, to whatever scope it is given — both
/// are applied on every (re)initialization, `a` strictly before `b`.
pub proof fn lemma_middleware_order(scope: Map<Seq<char>, Seq<char>>, a: Middleware, b: Middleware)
    ensures
        spec_apply_all(scope, seq![a, b], 0) == (match spec_apply_middleware(scope, a) {
            Ok(mid) => spec_apply_middleware(mid, b),
            Err(e) => Err::<Map<Seq<char>, Seq<char>>, Seq<char>>(e),
        }),
{
    let s = seq![a, b];
    assert(s[0] == a);
    assert(s[1] == b);
    match spec_apply_middleware(scope, a) {
        Ok(mid) => {
            match spec_apply_middleware(mid, b) {
                Ok(end) => {
                    assert(spec_apply_all(end, s, 2) == Ok::<
                        Map<Seq<char>, Seq<char>>,
                        Seq<char>,
                    >(end));
                    assert(spec_apply_all(mid, s, 1) == Ok::<
                        Map<Seq<char>, Seq<char>>,
                        Seq<char>,
                    >(end));
                    assert(spec_apply_all(scope, s, 0) == Ok::<
                        Map<Seq<char>, Seq<char>>,
                        Seq<char>,
                    >(end));
                },
                Err(e) => {
                    assert(spec_apply_all(mid, s, 1) == Err::<
                        Map<Seq<char>, Seq<char>>,
                        Seq<char>,
                    >(e));
                    assert(spec_apply_all(scope, s, 0) == Err::<
                        Map<Seq<char>, Seq<char>>,
                        Seq<char>,
                    >(e));
                },
            }
        },
        Err(e) => {
            assert(spec_apply_all(scope, s, 0) == Err::<Map<Seq<char>, Seq<char>>, Seq<char>>(e));
        },
    }
}

/// Middleware ordering law, second half: a binding the earlier middleware
/// installs is visible to the later one's own injections. If `a` installs
/// `value` under `key`, and `b` copies `key` to `dst`, applying `[a, b]`
/// succeeds and the scope after both holds `value` under both names.
pub proof fn lemma_earlier_binding_visible(
    scope: Map<Seq<char>, Seq<char>>,
    a: Middleware,
    b: Middleware,
    key: String,
    value: String,
    dst: String,
)
    requires
        a.ops@ == seq![ScopeOp::Install(key, value)],
        b.ops@ == seq![ScopeOp::Forward(key, dst)],
        key@ != dst@,
    ensures
        match spec_apply_all(scope, seq![a, b], 0) {
            Ok(end) => end.dom().contains(key@) && end[key@] == value@ && end.dom().contains(dst@)
                && end[dst@] == value@,
            Err(_) => false,
        },
{
    lemma_middleware_order(scope, a, b);
    let mid = scope.insert(key@, value@);
    assert(a.ops@[0] == ScopeOp::Install(key, value));
    assert(spec_apply_op(scope, a.ops@[0]) == Ok::<Map<Seq<char>, Seq<char>>, Seq<char>>(mid));
    assert(spec_apply_ops(mid, a.ops@, 1) == Ok::<Map<Seq<char>, Seq<char>>, Seq<char>>(mid));
    assert(spec_apply_middleware(scope, a) == Ok::<Map<Seq<char>, Seq<char>>, Seq<char>>(mid));
    let end = mid.insert(dst@, value@);
    assert(b.ops@[0] == ScopeOp::Forward(key, dst));
    assert(spec_apply_op(mid, b.ops@[0]) == Ok::<Map<Seq<char>, Seq<char>>, Seq<char>>(end));
    assert(spec_apply_ops(end, b.ops@, 1) == Ok::<Map<Seq<char>, Seq<char>>, Seq<char>>(end));
    assert(spec_apply_middleware(mid, b) == Ok::<Map<Seq<char>, Seq<char>>, Seq<char>>(end));
}

/// The readable model of a script's global scope, as far as the injection
/// ops reach it: named text values, a later write shadowing an earlier one.
#[derive(Debug)]
pub struct ScopeModel {
    entries: Vec<(String, String)>,
}

/// The map a write history denotes: each pair inserted in order.
pub open spec fn scope_map(s: Seq<(String, String)>) -> Map<Seq<char>, Seq<char>>
    decreases s.len(),
{
    if s.len() == 0 {
        Map::empty()
    } else {
        scope_map(s.drop_last()).insert(s.last().0@, s.last().1@)
    }
}

impl View for ScopeModel {
    type V = Map<Seq<char>, Seq<char>>;

    closed spec fn view(&self) -> Map<Seq<char>, Seq<char>> {
        scope_map(self.entries@)
    }
}

impl ScopeModel {
    /// An empty scope.
    pub fn new() -> (s: ScopeModel)
        ensures
            s@ == Map::<Seq<char>, Seq<char>>::empty(),
    {
        ScopeModel { entries: Vec::new() }
    }

    /// Write one named value, shadowing any earlier write under the name.
    pub fn set(&mut self, name: String, value: String)
        ensures
            final(self)@ == old(self)@.insert(name@, value@),
    {
        let ghost s = self.entries@;
        let ghost p = (name, value);
        self.entries.push((name, value));
        proof {
            assert(s.push(p).drop_last() =~= s);
            assert(s.push(p).last() == p);
        }
    }

    /// Read the value the scope holds under `name`, if any: the last one
    /// written.
    pub fn get(&self, name: &str) -> (r: Option<&String>)
        ensures
            match r {
                Some(v) => self@.dom().contains(name@) && self@[name@] == v@,
                None => !self@.dom().contains(name@),
            },
    {
        let n = self.entries.len();
        let mut i: usize = n;
        proof {
            assert(self.entries@.take(n as int) =~= self.entries@);
        }
        while i > 0
            invariant
                0 <= i <= n,
                n == self.entries@.len(),
                scope_map(self.entries@.take(i as int)).dom().contains(name@) == self@.dom()
                    .contains(name@),
                self@.dom().contains(name@) ==> scope_map(self.entries@.take(i as int))[name@]
                    == self@[name@],
            decreases i,
        {
            proof {
                assert(self.entries@.take(i as int).drop_last() =~= self.entries@.take(i as int - 1));
                assert(self.entries@.take(i as int).last() == self.entries@[i as int - 1]);
            }
            if crate::strutil::str_eq(self.entries[i - 1].0.as_str(), name) {
                return Some(&self.entries[i - 1].1);
            }
            i = i - 1;
        }
        proof {
            assert(self.entries@.take(0) =~= Seq::<(String, String)>::empty());
        }
        None
    }
}

impl Middleware {
    /// Run this middleware's injections on the scope model, in op order,
    /// stopping at the first failure: exactly the transformation
    /// `spec_apply_middleware` describes, with the missing source's name as
    /// the failure.
    pub fn apply_to_scope(&self, scope: ScopeModel) -> (r: Result<ScopeModel, String>)
        ensures
            match r {
                Ok(s2) => spec_apply_middleware(scope@, *self) == Ok::<
                    Map<Seq<char>, Seq<char>>,
                    Seq<char>,
                >(s2@),
                Err(name) => spec_apply_middleware(scope@, *self) == Err::<
                    Map<Seq<char>, Seq<char>>,
                    Seq<char>,
                >(name@),
            },
    {
        let ghost orig = scope@;
        let mut cur = scope;
        let n = self.ops.len();
        let mut i: usize = 0;
        while i < n
            invariant
                0 <= i <= n,
                n == self.ops@.len(),
                orig == scope@,
                (match spec_apply_ops(cur@, self.ops@, i as int) {
                    Ok(m) => spec_apply_ops(orig, self.ops@, 0) == Ok::<
                        Map<Seq<char>, Seq<char>>,
                        Seq<char>,
                    >(m),
                    Err(e) => spec_apply_ops(orig, self.ops@, 0) == Err::<
                        Map<Seq<char>, Seq<char>>,
                        Seq<char>,
                    >(e),
                }),
            decreases n - i,
        {
            match &self.ops[i] {
                ScopeOp::Install(name, value) => {
                    cur.set(name.clone(), value.clone());
                },
                ScopeOp::Forward(src, dst) => {
                    let value = match cur.get(src.as_str()) {
                        Some(v) => v.clone(),
                        None => {
                            proof {
                                assert(spec_apply_op(cur@, self.ops@[i as int]) == Err::<
                                    Map<Seq<char>, Seq<char>>,
                                    Seq<char>,
                                >(src@));
                                assert(spec_apply_ops(cur@, self.ops@, i as int) == Err::<
                                    Map<Seq<char>, Seq<char>>,
                                    Seq<char>,
                                >(src@));
                            }
                            return Err(src.clone());
                        },
                    };
                    cur.set(dst.clone(), value);
                },
            }
            i = i + 1;
        }
        Ok(cur)
    }

    /// Perform this middleware's injections on a script host, in op order,
    /// stopping at the first failure — the same injections, op for op, that
    /// `apply_to_scope` makes on the scope model; what they do to the
    /// interpreter's own scope is its to decide. With no ops there is no
    /// call to fail.
    pub fn apply(&self, script: &Script) -> (r: Result<(), ScriptError>)
        ensures
            self.ops@.len() == 0 ==> r is Ok,
    {
        let n = self.ops.len();
        let mut i: usize = 0;
        while i < n
            invariant
                0 <= i <= n,
                n == self.ops@.len(),
            decreases n - i,
        {
            let outcome = match &self.ops[i] {
                ScopeOp::Install(name, value) => script.set_text(name.as_str(), value.as_str()),
                ScopeOp::Forward(src, dst) => match script.get_text(src.as_str()) {
                    Ok(value) => script.set_text(dst.as_str(), value.as_str()),
                    Err(e) => Err(e),
                },
            };
            match outcome {
                Ok(_) => {},
                Err(e) => {
                    return Err(e);
                },
            }
            i = i + 1;
        }
        Ok(())
    }
}

impl MiddlewareRegistry {
    /// The registered middlewares, in registration order.
    pub closed spec fn spec_items(self) -> Seq<Middleware> {
        self.items@
    }

    /// An empty registry.
    pub fn new() -> (r: MiddlewareRegistry)
        ensures
            r.spec_items() == Seq::<Middleware>::empty(),
    {
        MiddlewareRegistry { items: Vec::new() }
    }

    /// Register one more middleware, after the ones already registered.
    pub fn add(&mut self, mw: Middleware)
        ensures
            final(self).spec_items() == old(self).spec_items().push(mw),
    {
        self.items.push(mw);
    }

    /// How many middlewares are registered.
    pub fn len(&self) -> (n: usize)
        ensures
            n == self.spec_items().len(),
    {
        self.items.len()
    }

    /// Run every registered middleware on the scope model, whole and in
    /// registration order, stopping at the first failure: exactly the
    /// transformation `spec_apply_all` describes — the ordering that
    /// `lemma_middleware_order` and `lemma_earlier_binding_visible` then
    /// unfold.
    pub fn apply_all_to_scope(&self, scope: ScopeModel) -> (r: Result<ScopeModel, String>)
        ensures
            match r {
                Ok(s2) => spec_apply_all(scope@, self.spec_items(), 0) == Ok::<
                    Map<Seq<char>, Seq<char>>,
                    Seq<char>,
                >(s2@),
                Err(name) => spec_apply_all(scope@, self.spec_items(), 0) == Err::<
                    Map<Seq<char>, Seq<char>>,
                    Seq<char>,
                >(name@),
            },
    {
        let ghost orig = scope@;
        let mut cur = scope;
        let n = self.items.len();
        let mut i: usize = 0;
        while i < n
            invariant
                0 <= i <= n,
                n == self.items@.len(),
                orig == scope@,
                (match spec_apply_all(cur@, self.items@, i as int) {
                    Ok(m) => spec_apply_all(orig, self.items@, 0) == Ok::<
                        Map<Seq<char>, Seq<char>>,
                        Seq<char>,
                    >(m),
                    Err(e) => spec_apply_all(orig, self.items@, 0) == Err::<
                        Map<Seq<char>, Seq<char>>,
                        Seq<char>,
                    >(e),
                }),
            decreases n - i,
        {
            cur = match self.items[i].apply_to_scope(cur) {
                Ok(next) => next,
                Err(name) => {
                    proof {
                        assert(spec_apply_all(cur@, self.items@, i as int) == Err::<
                            Map<Seq<char>, Seq<char>>,
                            Seq<char>,
                        >(name@));
                    }
                    return Err(name);
                },
            };
            i = i + 1;
        }
        Ok(cur)
    }

    /// Apply every registered middleware to a script host, in registration
    /// order, stopping at the first failure: a script cannot run correctly
    /// without its expected host bindings, so a failed injection fails the
    /// whole attempt. An empty registry, or one whose middlewares all carry
    /// no ops, makes no call that could fail.
    pub fn apply_all(&self, script: &Script) -> (r: Result<(), ScriptError>)
        ensures
            self.spec_items().len() == 0 ==> r is Ok,
            (forall|i: int|
                0 <= i < self.spec_items().len() ==> (#[trigger] self.spec_items()[i]).ops@.len()
                    == 0) ==> r is Ok,
    {
        let n = self.items.len();
        let mut i: usize = 0;
        while i < n
            invariant
                0 <= i <= n,
                n == self.items@.len(),
            decreases n - i,
        {
            match self.items[i].apply(script) {
                Ok(_) => {},
                Err(e) => {
                    proof {
                        assert(self.spec_items()[i as int].ops@.len() != 0);
                    }
                    return Err(e);
                },
            }
            i = i + 1;
        }
        Ok(())
    }
}

} // verus!
