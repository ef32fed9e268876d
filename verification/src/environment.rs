//! Environments: a mapping from identifier to runtime value, chained to an
//! optional enclosing environment for lexical scoping.

use vstd::prelude::*;

verus! {

use vstd::string::StringExecFns;
use crate::object::{ObjV, Object, view_of_obj};
use crate::text::str_eq;

/// A scope: its own bindings plus an optional enclosing scope. Lookups walk
/// outward; writes go to this scope only (last write wins).
#[derive(Debug, PartialEq)]
pub struct Environment {
    store: Vec<(String, Object)>,
    outer: Option<Box<Environment>>,
}

/// Specification-level mirror of an [`Environment`]: a map of bindings and
/// the mirror of the enclosing scope.
pub struct EnvV {
    pub bindings: Map<Seq<char>, ObjV>,
    pub outer: Option<Box<EnvV>>,
}

/// The binding map a sequence of writes builds up: later writes shadow
/// earlier ones.
spec fn bindings_map(s: Seq<(String, Object)>) -> Map<Seq<char>, ObjV>
    decreases s,
{
    if s.len() == 0 {
        Map::empty()
    } else {
        bindings_map(s.drop_last()).insert(s.last().0@, view_of_obj(s.last().1))
    }
}

/// The mirror of an environment chain.
pub closed spec fn view_of_env(env: Environment) -> EnvV
    decreases env,
{
    EnvV {
        bindings: bindings_map(env.store@),
        outer: match env.outer {
            Some(outer) => Some(Box::new(view_of_env(*outer))),
            None => None,
        },
    }
}

impl View for Environment {
    type V = EnvV;

    open spec fn view(&self) -> EnvV {
        view_of_env(*self)
    }
}

/// Name resolution: the innermost binding of `name`, walking outward.
pub open spec fn env_lookup(env: EnvV, name: Seq<char>) -> Option<ObjV>
    decreases env,
{
    if env.bindings.dom().contains(name) {
        Some(env.bindings[name])
    } else {
        match env.outer {
            Some(outer) => env_lookup(*outer, name),
            None => None,
        }
    }
}

/// A name bound nowhere in a write sequence is absent from its binding map.
proof fn lemma_bindings_map_absent(s: Seq<(String, Object)>, name: Seq<char>)
    requires
        forall|j: int| 0 <= j < s.len() ==> s[j].0@ != name,
    ensures
        !bindings_map(s).dom().contains(name),
    decreases s,
{
    if s.len() > 0 {
        lemma_bindings_map_absent(s.drop_last(), name);
    }
}

/// The binding map resolves a name to the value of its last write.
proof fn lemma_bindings_map_found(s: Seq<(String, Object)>, name: Seq<char>, i: int)
    requires
        0 <= i < s.len(),
        s[i].0@ == name,
        forall|j: int| i < j < s.len() ==> s[j].0@ != name,
    ensures
        bindings_map(s).dom().contains(name),
        bindings_map(s)[name] == view_of_obj(s[i].1),
    decreases s,
{
    if i == s.len() - 1 {
    } else {
        lemma_bindings_map_found(s.drop_last(), name, i);
    }
}

impl Environment {
    /// A fresh, empty top-level scope.
    pub fn new() -> (env: Self)
        ensures
            env@ == (EnvV { bindings: Map::empty(), outer: None }),
    {
        let env = Environment { store: Vec::new(), outer: None };
        proof {
            assert(bindings_map(env.store@) =~= Map::<Seq<char>, ObjV>::empty());
        }
        env
    }

    /// A fresh scope enclosed in `outer`: new bindings land here, lookups
    /// fall through to `outer`.
    pub fn new_enclosed(outer: Environment) -> (env: Environment)
        ensures
            env@ == (EnvV { bindings: Map::empty(), outer: Some(Box::new(outer@)) }),
    {
        let env = Environment { store: Vec::new(), outer: Some(Box::new(outer)) };
        proof {
            assert(bindings_map(env.store@) =~= Map::<Seq<char>, ObjV>::empty());
        }
        env
    }

    /// Resolves `name`: the innermost binding, or `None` if no scope in the
    /// chain binds it.
    pub fn get(&self, name: &str) -> (r: Option<Object>)
        ensures
            r.deep_view() == env_lookup(self@, name@),
        decreases self,
    {
        let mut i: usize = self.store.len();
        while i > 0
            invariant
                i <= self.store@.len(),
                forall|j: int| i <= j < self.store@.len() ==> self.store@[j].0@ != name@,
            decreases i,
        {
            i -= 1;
            if str_eq((&self.store[i].0).as_str(), name) {
                let obj = (&self.store[i].1).clone();
                proof {
                    lemma_bindings_map_found(self.store@, name@, i as int);
                }
                return Some(obj);
            }
        }
        proof {
            lemma_bindings_map_absent(self.store@, name@);
        }
        match &self.outer {
            Some(outer) => (&**outer).get(name),
            None => None,
        }
    }

    /// Binds `name` to `obj` in this scope, shadowing any previous binding of
    /// the same name, and hands the value back.
    pub fn set(&mut self, name: &str, obj: Object) -> (r: Object)
        ensures
            final(self)@ == (EnvV {
                bindings: old(self)@.bindings.insert(name@, obj.deep_view()),
                outer: old(self)@.outer,
            }),
            r == obj,
    {
        self.store.push((String::from_str(name), obj.clone()));
        proof {
            let s = self.store@;
            assert(s.drop_last() =~= old(self).store@);
            assert(s.last().0@ == name@);
            assert(view_of_obj(s.last().1) == obj.deep_view());
            assert(bindings_map(s) == bindings_map(old(self).store@).insert(name@, obj.deep_view()));
            assert(self@.bindings == old(self)@.bindings.insert(name@, obj.deep_view()));
            assert(self.outer == old(self).outer);
            assert(self@.outer == old(self)@.outer);
        }
        obj
    }
}

/// Shadowing is idempotent: binding a name and then rebinding it in the
/// same scope leaves exactly the environment that the second binding alone
/// would have produced.
pub proof fn lemma_shadowing_overwrites(env: EnvV, name: Seq<char>, first: ObjV, second: ObjV)
    ensures
        (EnvV {
            bindings: env.bindings.insert(name, first).insert(name, second),
            outer: env.outer,
        }) == (EnvV { bindings: env.bindings.insert(name, second), outer: env.outer }),
{
    assert(env.bindings.insert(name, first).insert(name, second) =~= env.bindings.insert(
        name,
        second,
    ));
}

impl Clone for Environment {
    fn clone(&self) -> (r: Self)
        ensures
            r@ == self@,
        decreases self,
    {
        let mut store: Vec<(String, Object)> = Vec::new();
        let mut i: usize = 0;
        while i < self.store.len()
            invariant
                i <= self.store@.len(),
                store@.len() == i,
                forall|j: int| 0 <= j < i ==> store@[j].0@ == self.store@[j].0@
                    && view_of_obj(store@[j].1) == view_of_obj(self.store@[j].1),
            decreases self.store@.len() - i,
        {
            let name = (&self.store[i].0).clone();
            let obj = (&self.store[i].1).clone();
            store.push((name, obj));
            i += 1;
        }
        proof {
            lemma_bindings_map_congruent(store@, self.store@);
        }
        Environment {
            store,
            outer: match &self.outer {
                Some(outer) => Some(Box::new((&**outer).clone())),
                None => None,
            },
        }
    }
}

/// Write sequences with pointwise-equal names and value mirrors build equal
/// binding maps.
proof fn lemma_bindings_map_congruent(a: Seq<(String, Object)>, b: Seq<(String, Object)>)
    requires
        a.len() == b.len(),
        forall|j: int| 0 <= j < a.len() ==> a[j].0@ == b[j].0@
            && view_of_obj(a[j].1) == view_of_obj(b[j].1),
    ensures
        bindings_map(a) == bindings_map(b),
    decreases a,
{
    if a.len() > 0 {
        lemma_bindings_map_congruent(a.drop_last(), b.drop_last());
    }
}

} // verus!
