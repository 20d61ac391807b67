//! Environments: scopes that hold bindings and functions, chained to their
//! parents.
//!
//! A scope owns two maps and refers to its parent. It reads through the
//! chain and writes to its own maps only, so a child can shadow a name and
//! cannot change what its parent holds.

use vstd::prelude::*;
use vstd::hash_map::StringHashMap;
use crate::expr::Expr;
use crate::message;
use crate::semantics::{SpecEnv, SpecFunc, MAX_CALL_DEPTH};
use crate::val::Val;

verus! {

/// A function definition: parameter names and body.
#[derive(Debug, PartialEq)]
pub struct FuncDef {
    pub params: Vec<String>,
    pub body: Expr,
}

impl View for FuncDef {
    type V = SpecFunc;

    open spec fn view(&self) -> SpecFunc {
        SpecFunc { params: Seq::new(self.params@.len(), |i: int| self.params@[i]@), body: self.body@ }
    }
}

/// A scope, with a reference to the scope that encloses it.
pub struct Env<'parent> {
    bindings: StringHashMap<Val>,
    funcs: StringHashMap<FuncDef>,
    parent: Option<&'parent Env<'parent>>,
    calls: usize,
}

impl<'parent> Env<'parent> {
    /// The bindings that this scope itself holds.
    pub closed spec fn own_bindings(&self) -> Map<Seq<char>, Val> {
        self.bindings@
    }

    /// The functions that this scope itself holds.
    pub closed spec fn own_funcs(&self) -> Map<Seq<char>, FuncDef> {
        self.funcs@
    }

    /// The enclosing scope, if this is not the root.
    pub closed spec fn parent(&self) -> Option<&'parent Env<'parent>> {
        self.parent
    }

    /// The number of calls that enclose this scope.
    pub closed spec fn call_depth(&self) -> nat {
        self.calls as nat
    }

    /// The bindings in sight: those of the ancestors, overridden by this
    /// scope's own.
    pub open spec fn bindings(&self) -> Map<Seq<char>, Val>
        decreases self,
    {
        match self.parent() {
            Some(parent) => parent.bindings().union_prefer_right(self.own_bindings()),
            None => self.own_bindings(),
        }
    }

    /// The functions in sight: those of the ancestors, overridden by this
    /// scope's own.
    pub open spec fn funcs(&self) -> Map<Seq<char>, FuncDef>
        decreases self,
    {
        match self.parent() {
            Some(parent) => parent.funcs().union_prefer_right(self.own_funcs()),
            None => self.own_funcs(),
        }
    }
}

impl<'parent> Env<'parent> {
    /// `self` is `before` after a statement that stored `stored`, if
    /// anything, was evaluated in it: the binding went into the scope's own
    /// map, and neither its functions nor its ancestors changed.
    pub open spec fn follows(&self, before: &Env<'parent>, stored: Option<(Seq<char>, Val)>) -> bool {
        &&& self.own_bindings() == match stored {
            Some((name, val)) => before.own_bindings().insert(name, val),
            None => before.own_bindings(),
        }
        &&& self.own_funcs() == before.own_funcs()
        &&& self.parent() == before.parent()
        &&& self.call_depth() == before.call_depth()
        &&& self@ == before@.after(stored)
    }
}

impl<'parent> View for Env<'parent> {
    type V = SpecEnv;

    open spec fn view(&self) -> SpecEnv {
        SpecEnv {
            bindings: self.bindings(),
            funcs: self.funcs().map_values(|f: FuncDef| f@),
            calls: self.call_depth(),
        }
    }
}

impl<'parent> Default for Env<'parent> {
    /// An empty root scope.
    fn default() -> (env: Self)
        ensures
            env.own_bindings() == Map::<Seq<char>, Val>::empty(),
            env.own_funcs() == Map::<Seq<char>, FuncDef>::empty(),
            env.parent() is None,
            env.call_depth() == 0,
            env@ == (SpecEnv { bindings: Map::empty(), funcs: Map::empty(), calls: 0 }),
    {
        let env = Env {
            bindings: StringHashMap::new(),
            funcs: StringHashMap::new(),
            parent: None,
            calls: 0,
        };
        assert(env@.funcs =~= Map::<Seq<char>, SpecFunc>::empty());
        env
    }
}

impl<'parent> Env<'parent> {
    /// Binds `name` to `val` in this scope, in place of what this scope bound
    /// it to before. No ancestor changes.
    pub fn store_binding(&mut self, name: String, val: Val)
        ensures
            final(self).own_bindings() == old(self).own_bindings().insert(name@, val),
            final(self).own_funcs() == old(self).own_funcs(),
            final(self).parent() == old(self).parent(),
            final(self).call_depth() == old(self).call_depth(),
            final(self)@ == old(self)@.bind(name@, val),
    {
        self.bindings.insert(name, val);
        proof {
            assert(self.bindings() =~= old(self).bindings().insert(name@, val));
        }
    }

    /// The value that the nearest scope of the chain binds `name` to.
    pub fn get_binding(&self, name: &str) -> (r: Result<Val, String>)
        ensures
            match r {
                Ok(val) => self.bindings().contains_key(name@) && val == self.bindings()[name@],
                Err(msg) => !self.bindings().contains_key(name@) && msg@
                    == message::missing_binding(name@),
            },
        decreases self,
    {
        match self.bindings.get(name) {
            Some(val) => Ok(*val),
            None => match self.parent {
                Some(parent) => parent.get_binding(name),
                None => Err(message::missing_binding_message(name)),
            },
        }
    }

    /// Stores a function in this scope, in place of what this scope held
    /// under `name` before. No ancestor changes.
    pub fn store_func(&mut self, name: String, params: Vec<String>, body: Expr)
        ensures
            final(self).own_funcs() == old(self).own_funcs().insert(
                name@,
                (FuncDef { params, body }),
            ),
            final(self).own_bindings() == old(self).own_bindings(),
            final(self).parent() == old(self).parent(),
            final(self).call_depth() == old(self).call_depth(),
            final(self)@.funcs == old(self)@.funcs.insert(name@, (FuncDef { params, body })@),
            final(self)@.bindings == old(self)@.bindings,
            final(self)@.calls == old(self)@.calls,
    {
        self.funcs.insert(name, FuncDef { params, body });
    }

    /// The function that the nearest scope of the chain holds under `name`.
    pub fn get_func(&self, name: &str) -> (r: Result<&FuncDef, String>)
        ensures
            match r {
                Ok(def) => self.funcs().contains_key(name@) && *def == self.funcs()[name@],
                Err(msg) => !self.funcs().contains_key(name@) && msg@ == message::missing_func(
                    name@,
                ),
            },
        decreases self,
    {
        match self.funcs.get(name) {
            Some(def) => Ok(def),
            None => match self.parent {
                Some(parent) => parent.get_func(name),
                None => Err(message::missing_func_message(name)),
            },
        }
    }

    /// A new scope inside this one: it holds nothing itself and sees what
    /// this scope sees.
    pub fn create_child<'a>(&'a self) -> (child: Env<'a>)
        ensures
            child.own_bindings() == Map::<Seq<char>, Val>::empty(),
            child.own_funcs() == Map::<Seq<char>, FuncDef>::empty(),
            child.parent() == Some(self),
            child.call_depth() == self.call_depth(),
            child@ == self@,
    {
        let child = Env {
            bindings: StringHashMap::new(),
            funcs: StringHashMap::new(),
            parent: Some(self),
            calls: self.calls,
        };
        proof {
            assert(child.bindings() =~= self.bindings());
            assert(child.funcs() =~= self.funcs());
        }
        child
    }

    /// A new scope for the body of a call made from this scope, or `None`
    /// where calls are nested [`MAX_CALL_DEPTH`] deep already.
    pub fn create_call_child<'a>(&'a self) -> (r: Option<Env<'a>>)
        ensures
            r is Some <==> self.call_depth() < MAX_CALL_DEPTH,
            r matches Some(child) ==> {
                &&& child.own_bindings() == Map::<Seq<char>, Val>::empty()
                &&& child.own_funcs() == Map::<Seq<char>, FuncDef>::empty()
                &&& child.parent() == Some(self)
                &&& child.call_depth() == self.call_depth() + 1
                &&& child@ == self@.enter_call()
            },
    {
        if self.calls >= MAX_CALL_DEPTH {
            return None;
        }
        let child = Env {
            bindings: StringHashMap::new(),
            funcs: StringHashMap::new(),
            parent: Some(self),
            calls: self.calls + 1,
        };
        proof {
            assert(child.bindings() =~= self.bindings());
            assert(child.funcs() =~= self.funcs());
        }
        Some(child)
    }
}

} // verus!
