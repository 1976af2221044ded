//! The data kept for each call, and the store that hands out call ids.

use std::collections::HashMap;
use vstd::prelude::*;
use crate::form::{pairs_view, Pair};

verus! {

broadcast use vstd::std_specs::hash::group_hash_axioms;

/// The data of one call: a fixed list of variable names, and a value for each
/// name that it can resolve.
///
/// The four spec functions say what the three methods compute. A verified
/// implementation defines them; one outside verified code may leave them as
/// they are, and nothing is then known of it.
pub trait Context: Sized {
    /// The declared variable names, in order.
    open spec fn declared(&self) -> Seq<Seq<char>> {
        arbitrary()
    }

    /// The value that `name` resolves to, if any.
    open spec fn value_of(&self, name: Seq<char>) -> Option<Seq<char>> {
        arbitrary()
    }

    /// Whether a context can be made from these names and values.
    open spec fn can_be_made_from(kvs: Seq<Pair>) -> bool {
        arbitrary()
    }

    /// Whether this is the context that these names and values describe.
    open spec fn is_made_from(&self, kvs: Seq<Pair>) -> bool {
        arbitrary()
    }

    /// The value of the variable `var`.
    fn resolve_variable<'a>(&'a self, var: &str) -> (r: Option<&'a str>)
        ensures
            match r {
                Some(value) => self.value_of(var@) == Some(value@),
                None => self.value_of(var@) is None,
            },
    ;

    /// The declared variable names, in order.
    fn list_vars<'a, 'b: 'a>(&'a self) -> (r: &'b [&'b str])
        ensures
            r@.len() == self.declared().len(),
            forall|i: int| 0 <= i < r@.len() ==> (#[trigger] r@[i])@ == self.declared()[i],
    ;

    /// The context that these names and values describe, where they describe
    /// one.
    fn from_kvs(kvs: Vec<(String, String)>) -> (r: Option<Self>)
        ensures
            r is Some <==> Self::can_be_made_from(pairs_view(kvs@)),
            r matches Some(ctx) ==> ctx.is_made_from(pairs_view(kvs@)),
    ;
}

/// Whether every declared variable of `ctx` resolves to a value.
pub open spec fn resolves_all<C: Context>(ctx: &C) -> bool {
    forall|i: int|
        0 <= i < ctx.declared().len() ==> ctx.value_of(#[trigger] ctx.declared()[i]) is Some
}

/// The context that `contexts` holds under `id`, if it holds one.
pub open spec fn stored<C>(contexts: Map<i32, C>, id: i32) -> Option<C> {
    if contexts.contains_key(id) {
        Some(contexts[id])
    } else {
        None
    }
}

/// What is stored under an id is what a lookup of that id finds.
pub proof fn law_insert_then_load<C>(contexts: Map<i32, C>, id: i32, context: C)
    ensures
        stored(contexts.insert(id, context), id) == Some(context),
{
}

/// Storing a context under one id changes what no other id finds.
pub proof fn law_insert_keeps_others<C>(contexts: Map<i32, C>, id: i32, context: C, other: i32)
    requires
        other != id,
    ensures
        stored(contexts.insert(id, context), other) == stored(contexts, other),
{
}

/// The contexts of the calls so far, each under the id that it was given: 1 for
/// the first, and one more for each that follows. A context is stored once and
/// never changed or removed, so the store grows with every call. Exclusive
/// access for `insert_context` keeps two calls from getting one id.
#[derive(Debug)]
pub struct ContextManager<C> where C: Context {
    last_call_id: i32,
    contexts: HashMap<i32, C>,
}

impl<C> ContextManager<C> where C: Context {
    #[verifier::type_invariant]
    spec fn ids_are_dense(&self) -> bool {
        &&& self.last_call_id >= 0
        &&& forall|id: i32| self.contexts@.contains_key(id) <==> 1 <= id <= self.last_call_id
    }

    /// The contexts in the store, by id. The ids in it are those from 1 to
    /// `last_id()`, which `last_call_id` states.
    pub closed spec fn view(&self) -> Map<i32, C> {
        self.contexts@
    }

    /// The id given out last, 0 before the first.
    pub closed spec fn last_id(&self) -> int {
        self.last_call_id as int
    }

    /// An empty store.
    pub fn new() -> (r: ContextManager<C>)
        ensures
            r@ == Map::<i32, C>::empty(),
            r.last_id() == 0,
    {
        ContextManager { last_call_id: 0, contexts: HashMap::new() }
    }

    /// The id given out last, 0 before the first.
    pub fn last_call_id(&self) -> (r: i32)
        ensures
            r == self.last_id(),
            r >= 0,
            forall|id: i32| self@.contains_key(id) <==> 1 <= id <= r,
    {
        proof {
            use_type_invariant(self);
        }
        self.last_call_id
    }

    /// Stores `context` under the next id, which no context had before, and
    /// returns that id.
    pub fn insert_context(&mut self, context: C) -> (id: i32)
        requires
            old(self).last_id() < i32::MAX,
        ensures
            id == old(self).last_id() + 1,
            id >= 1,
            !old(self)@.contains_key(id),
            final(self).last_id() == id,
            final(self)@ == old(self)@.insert(id, context),
            final(self)@[id] == context,
    {
        proof {
            use_type_invariant(&*self);
        }
        let mut taken = ContextManager::new();
        core::mem::swap(self, &mut taken);
        let ContextManager { last_call_id, contexts } = taken;
        let mut contexts = contexts;
        let this_call_id = last_call_id + 1;
        let res = contexts.insert(this_call_id, context);
        assert(res is None);
        *self = ContextManager { last_call_id: this_call_id, contexts };
        this_call_id
    }

    /// The context stored under `c_id`, if that id was given out.
    pub fn load_context(&self, c_id: i32) -> (r: Option<&C>)
        ensures
            r is Some <==> 1 <= c_id <= self.last_id(),
            match r {
                Some(context) => stored(self@, c_id) == Some(*context),
                None => stored(self@, c_id) is None,
            },
    {
        proof {
            use_type_invariant(self);
        }
        self.contexts.get(&c_id)
    }
}

} // verus!
