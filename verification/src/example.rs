//! A context with a first and a last name.

use vstd::prelude::*;
use crate::ctxmgr::{resolves_all, Context};
use crate::form::{last_value, lookup, Pair};
use crate::text::same_text;

verus! {

/// The caller's first and last name.
#[derive(Debug)]
pub struct ExampleUserContext {
    pub f_name: String,
    pub l_name: String,
}

/// An example context has a value for both names that it declares.
pub proof fn law_example_resolves_all(ctx: &ExampleUserContext)
    ensures
        resolves_all(ctx),
{
    assert forall|i: int| 0 <= i < ctx.declared().len() implies ctx.value_of(
        #[trigger] ctx.declared()[i],
    ) is Some by {
        if i == 1 {
            assert(ctx.declared()[1] == "l_name"@);
        }
    }
}

impl Context for ExampleUserContext {
    open spec fn declared(&self) -> Seq<Seq<char>> {
        seq!["f_name"@, "l_name"@]
    }

    open spec fn value_of(&self, name: Seq<char>) -> Option<Seq<char>> {
        if name == "f_name"@ {
            Some(self.f_name@)
        } else if name == "l_name"@ {
            Some(self.l_name@)
        } else {
            None
        }
    }

    open spec fn can_be_made_from(kvs: Seq<Pair>) -> bool {
        last_value(kvs, "f_name"@) is Some && last_value(kvs, "l_name"@) is Some
    }

    open spec fn is_made_from(&self, kvs: Seq<Pair>) -> bool {
        &&& last_value(kvs, "f_name"@) == Some(self.f_name@)
        &&& last_value(kvs, "l_name"@) == Some(self.l_name@)
    }

    fn resolve_variable<'a>(&'a self, var: &str) -> (r: Option<&'a str>) {
        if same_text(var, "f_name") {
            Some(self.f_name.as_str())
        } else if same_text(var, "l_name") {
            Some(self.l_name.as_str())
        } else {
            None
        }
    }

    fn list_vars<'a, 'b: 'a>(&'a self) -> (r: &'b [&'b str]) {
        &["f_name", "l_name"]
    }

    fn from_kvs(kvs: Vec<(String, String)>) -> (r: Option<Self>) {
        match (lookup(&kvs, "f_name"), lookup(&kvs, "l_name")) {
            (Some(f_name), Some(l_name)) => Some(
                ExampleUserContext { f_name: f_name.clone(), l_name: l_name.clone() },
            ),
            _ => None,
        }
    }
}

} // verus!
