//! Filling the placeholders of a prompt from a call's context.

use vstd::pervasive::unreached;
use vstd::prelude::*;
use crate::ctxmgr::{resolves_all, Context};
use crate::text::{chars_of, lemma_replaced_without_first, replace_chars, replaced, string_of};

verus! {

/// The placeholder for the variable `name`: the name in braces.
pub open spec fn placeholder(name: Seq<char>) -> Seq<char> {
    seq!['{'] + name + seq!['}']
}

/// `raw` after the placeholders of the first `upto` declared variables of `ctx`
/// have been replaced, one variable after the other in declared order, each by
/// the variable's value. A variable without a value leaves the text as it is.
pub open spec fn rendered<C: Context>(raw: Seq<char>, ctx: &C, upto: int) -> Seq<char>
    decreases upto,
{
    if upto <= 0 {
        raw
    } else {
        let name = ctx.declared()[upto - 1];
        let before = rendered(raw, ctx, upto - 1);
        match ctx.value_of(name) {
            Some(value) => replaced(before, placeholder(name), value),
            None => before,
        }
    }
}

/// `raw` with the placeholder of every declared variable of `ctx` replaced by
/// the variable's value.
pub open spec fn filled<C: Context>(raw: Seq<char>, ctx: &C) -> Seq<char> {
    rendered(raw, ctx, ctx.declared().len() as int)
}

/// A text without an opening brace has no placeholder, and stays as it is.
pub proof fn law_plain_text_is_kept<C: Context>(raw: Seq<char>, ctx: &C)
    requires
        !raw.contains('{'),
    ensures
        filled(raw, ctx) == raw,
{
    lemma_rendered_plain(raw, ctx, ctx.declared().len() as int);
}

proof fn lemma_rendered_plain<C: Context>(raw: Seq<char>, ctx: &C, upto: int)
    requires
        !raw.contains('{'),
    ensures
        rendered(raw, ctx, upto) == raw,
    decreases upto,
{
    if upto > 0 {
        lemma_rendered_plain(raw, ctx, upto - 1);
        let name = ctx.declared()[upto - 1];
        if let Some(value) = ctx.value_of(name) {
            assert(placeholder(name)[0] == '{');
            lemma_replaced_without_first(raw, placeholder(name), value);
        }
    }
}

/// The placeholder for the variable `name`.
fn placeholder_of(name: &str) -> (r: Vec<char>)
    ensures
        r@ == placeholder(name@),
{
    let mut pat: Vec<char> = Vec::new();
    pat.push('{');
    let mut chars = chars_of(name);
    pat.append(&mut chars);
    pat.push('}');
    pat
}

/// `raw` with every placeholder filled from `ctx`, or `None` where `ctx`
/// declares a variable that it has no value for.
pub fn try_template<T: Context>(raw: &str, ctx: &T) -> (r: Option<String>)
    ensures
        r is Some <==> resolves_all(ctx),
        r matches Some(text) ==> text@ == filled(raw@, ctx),
{
    let names = ctx.list_vars();
    let mut text = chars_of(raw);
    let mut i: usize = 0;
    while i < names.len()
        invariant
            i <= names.len(),
            names@.len() == ctx.declared().len(),
            forall|k: int| 0 <= k < names@.len() ==> (#[trigger] names@[k])@ == ctx.declared()[k],
            forall|k: int| 0 <= k < i ==> ctx.value_of(#[trigger] ctx.declared()[k]) is Some,
            text@ == rendered(raw@, ctx, i as int),
        decreases names.len() - i,
    {
        let var_name: &str = names[i];
        match ctx.resolve_variable(var_name) {
            Some(substitution) => {
                let to_replace = placeholder_of(var_name);
                text = replace_chars(&text, &to_replace, &chars_of(substitution));
            },
            None => {
                return None;
            },
        }
        i += 1;
    }
    Some(string_of(&text))
}

/// `raw` with every placeholder filled from `ctx`.
pub fn template<T: Context>(raw: &str, ctx: &T) -> (r: String)
    requires
        resolves_all(ctx),
    ensures
        r@ == filled(raw@, ctx),
{
    match try_template(raw, ctx) {
        Some(text) => text,
        None => unreached(),
    }
}

} // verus!
