//! What the pieces of a bundle are read as.
//!
//! The laws say of each shape that a bundler emits, in terms of the syntax
//! tree alone, that it is recognized wherever it is written, and that nothing
//! else is.

use vstd::prelude::*;

use crate::ast::{
    is_ident_of, names_prop, only_string_argument, regex_and_string, string_text, stripped, Binding,
    CallExpr, Callee, Expr, ExprOrSpread, Ident, Lit, Mark, MemberExpr, MemberProp, Module,
};
use crate::number::{decimal, denotes, integer_value, law_integers_have_a_text};
use crate::parts::{law_every_part_is_walked, leads_to, own_sites, Part};
use crate::surface::{
    bound_runtime, called_member, element_chunk, elements_chunks, ensured_chunk, is_loaded,
    loaded_chunks, loaded_ids, promise_all_elements,
};
use crate::template::literal_text;
use crate::walk::{module_sites, Site};

verus! {

// ---------------------------------------------------------------------------
// Expressions
// ---------------------------------------------------------------------------

/// Parentheses around an expression do not matter, however many there are.
pub proof fn law_parentheses_do_not_matter(expr: &Expr)
    ensures
        !(stripped(expr) is Paren),
        match expr {
            Expr::Paren(inner) => stripped(expr) == stripped(inner),
            _ => stripped(expr) == expr,
        },
    decreases expr,
{
    match expr {
        Expr::Paren(inner) => law_parentheses_do_not_matter(inner),
        _ => {},
    }
}

/// An identifier is known by its name and its syntax context.
pub proof fn law_identifiers(expr: &Expr, sym: Seq<char>, ctxt: u32)
    ensures
        is_ident_of(expr, (sym, ctxt)) <==> (stripped(expr) matches Expr::Ident(ident) && ident.sym@
            == sym && ident.ctxt == ctxt),
{
}

/// A string literal is read as its text; one without a text, and any other
/// expression, is not.
pub proof fn law_string_literals(expr: &Expr, text: Seq<char>)
    ensures
        string_text(expr) == Some(text) <==> (stripped(expr) matches Expr::Lit(
            Lit::Str(Some(value)),
        ) && value@ == text),
{
}

/// A property is named after a dot, not in brackets.
pub proof fn law_property_names(prop: &MemberProp, name: Seq<char>)
    ensures
        names_prop(prop, name) <==> (prop matches MemberProp::Ident(sym) && sym@ == name),
{
}

/// The arguments of a call are read where they are as many as expected, and
/// none of them is spread.
pub proof fn law_arguments(call: &CallExpr, pattern: Seq<char>, text: Seq<char>)
    ensures
        only_string_argument(call) == Some(text) <==> call.args@.len() == 1 && !call.args@[0].spread
            && string_text(&call.args@[0].expr) == Some(text),
        regex_and_string(call) == Some((pattern, text)) <==> {
            &&& call.args@.len() == 2
            &&& !call.args@[0].spread
            &&& !call.args@[1].spread
            &&& stripped(&call.args@[0].expr) matches Expr::Lit(Lit::Regex(regex)) && regex@
                == pattern
            &&& string_text(&call.args@[1].expr) == Some(text)
        },
{
}

/// `expr` is a literal chunk id or table value with the given text: a string,
/// or a number that is an integer from zero up to two to the power of 53.
pub open spec fn is_literal_with(expr: &Expr, text: Seq<char>) -> bool {
    match stripped(expr) {
        Expr::Lit(Lit::Str(Some(value))) => value@ == text,
        Expr::Lit(Lit::Num(bits)) => exists|n: nat|
            n <= 9007199254740992 && denotes(*bits, n as int) && text == #[trigger] decimal(n),
        _ => false,
    }
}

/// Chunk ids and table values are read from strings and from integers.
pub proof fn law_literals(expr: &Expr, text: Seq<char>)
    ensures
        literal_text(expr) == Some(text) <==> is_literal_with(expr, text),
{
    match stripped(expr) {
        Expr::Lit(Lit::Num(bits)) => {
            if is_literal_with(expr, text) {
                let n = choose|n: nat|
                    n <= 9007199254740992 && denotes(*bits, n as int) && text
                        == #[trigger] decimal(n);
                law_integers_have_a_text(*bits, n);
            }
            match integer_value(*bits) {
                Some(n) => law_integers_have_a_text(*bits, n),
                None => law_integers_have_a_text(*bits, 0),
            }
        },
        _ => {},
    }
}

// ---------------------------------------------------------------------------
// Load sites
// ---------------------------------------------------------------------------

/// The object and the arguments of a call `object.name(...)`.
pub open spec fn method_of<'a>(call: &'a CallExpr, name: Seq<char>) -> Option<
    (&'a Expr, &'a Vec<ExprOrSpread>),
> {
    match &call.callee {
        Callee::Expr(callee) => match stripped(callee) {
            Expr::Member(MemberExpr { obj, prop: MemberProp::Ident(sym) }) => if sym@ == name {
                Some((&**obj, &call.args))
            } else {
                None
            },
            _ => None,
        },
        _ => None,
    }
}

/// The object and the arguments of `object.name(...)`.
pub open spec fn method_call<'a>(expr: &'a Expr, name: Seq<char>) -> Option<
    (&'a Expr, &'a Vec<ExprOrSpread>),
> {
    match stripped(expr) {
        Expr::Call(call) => method_of(call, name),
        _ => None,
    }
}

/// `expr` is the identifier of the binding.
pub open spec fn is_binding(expr: &Expr, binding: Binding) -> bool {
    match stripped(expr) {
        Expr::Ident(ident) => ident.sym@ == binding.0 && ident.ctxt == binding.1,
        _ => false,
    }
}

/// `expr` is `runtime.e(<literal id>)`.
pub open spec fn loads(expr: &Expr, runtime: Binding, id: Seq<char>) -> bool {
    match method_call(expr, "e"@) {
        Some((object, args)) => is_binding(object, runtime) && args@.len() == 1 && !args@[0].spread
            && is_literal_with(&args@[0].expr, id),
        None => false,
    }
}

/// `expr` is `runtime.bind(...)` or `runtime.t.bind(...)`, and what is bound
/// first is `null` or the runtime.
pub open spec fn continues(expr: &Expr, runtime: Binding) -> bool {
    match method_call(expr, "bind"@) {
        Some((object, args)) => {
            &&& is_binding(object, runtime) || (stripped(object) matches Expr::Member(
                MemberExpr { obj, prop: MemberProp::Ident(sym) },
            ) && sym@ == "t"@ && is_binding(&obj, runtime))
            &&& args@.len() > 0
            &&& !args@[0].spread
            &&& *stripped(&args@[0].expr) == Expr::Lit(Lit::Null) || is_binding(
                &args@[0].expr,
                runtime,
            )
        },
        None => false,
    }
}

/// The elements of the array that `expr` awaits together:
/// `Promise.all([...])`, for the global `Promise`.
pub open spec fn awaited<'a>(expr: &'a Expr, unresolved_mark: Mark) -> Option<
    &'a Vec<Option<ExprOrSpread>>,
> {
    match method_call(expr, "all"@) {
        Some((object, args)) => match stripped(object) {
            Expr::Ident(promise) => if promise.sym@ == "Promise"@ && promise.outer
                == unresolved_mark && args@.len() == 1 && !args@[0].spread {
                match stripped(&args@[0].expr) {
                    Expr::Array(elems) => Some(elems),
                    _ => None,
                }
            } else {
                None
            },
            _ => None,
        },
        None => None,
    }
}

/// The element is `runtime.e(<literal id>)`.
pub open spec fn element_loads(
    element: &Option<ExprOrSpread>,
    runtime: Binding,
    id: Seq<char>,
) -> bool {
    match element {
        Some(element) => !element.spread && loads(&element.expr, runtime, id),
        None => false,
    }
}

/// The element loads a chunk through the runtime.
pub open spec fn element_loads_some(element: &Option<ExprOrSpread>, runtime: Binding) -> bool {
    exists|id: Seq<char>| element_loads(element, runtime, id)
}

/// Every element loads a chunk through the runtime.
pub open spec fn all_load(elems: &Vec<Option<ExprOrSpread>>, runtime: Binding) -> bool {
    forall|i: int| 0 <= i < elems@.len() ==> element_loads_some(&#[trigger] elems@[i], runtime)
}

/// The object of a call `object.then(continuation, ...)` whose continuation is
/// bound to the runtime.
pub open spec fn continued<'a>(call: &'a CallExpr, runtime: Binding) -> Option<&'a Expr> {
    match method_of(call, "then"@) {
        Some((object, args)) => if args@.len() > 0 && !args@[0].spread && continues(
            &args@[0].expr,
            runtime,
        ) {
            Some(object)
        } else {
            None
        },
        None => None,
    }
}

/// The call is a generated load site of the chunk `id`, with a continuation
/// that is bound to the runtime.
pub open spec fn is_load_of(
    call: &CallExpr,
    unresolved_mark: Mark,
    runtime: Binding,
    id: Seq<char>,
) -> bool {
    match continued(call, runtime) {
        Some(object) => loads(object, runtime, id) || match awaited(object, unresolved_mark) {
            Some(elems) => all_load(elems, runtime) && exists|i: int|
                0 <= i < elems@.len() && element_loads(&#[trigger] elems@[i], runtime, id),
            None => false,
        },
        None => false,
    }
}

proof fn lemma_loads(expr: &Expr, runtime: Binding, id: Seq<char>)
    ensures
        ensured_chunk(stripped(expr)) == Some((runtime, id)) <==> loads(expr, runtime, id),
{
    law_parentheses_do_not_matter(expr);
    match method_call(expr, "e"@) {
        Some((object, args)) => {
            if args@.len() == 1 {
                law_literals(&args@[0].expr, id);
            }
        },
        None => {},
    }
}

proof fn lemma_ensured(expr: &Expr)
    ensures
        match ensured_chunk(stripped(expr)) {
            Some((runtime, id)) => loads(expr, runtime, id),
            None => forall|runtime: Binding, id: Seq<char>| !#[trigger] loads(expr, runtime, id),
        },
{
    match ensured_chunk(stripped(expr)) {
        Some((runtime, id)) => lemma_loads(expr, runtime, id),
        None => {
            assert forall|runtime: Binding, id: Seq<char>| !#[trigger] loads(
                expr,
                runtime,
                id,
            ) by {
                lemma_loads(expr, runtime, id);
            }
        },
    }
}

proof fn lemma_continues(expr: &Expr, runtime: Binding)
    ensures
        bound_runtime(expr) == Some(runtime) <==> continues(expr, runtime),
{
}

proof fn lemma_awaited(expr: &Expr, unresolved_mark: Mark)
    ensures
        promise_all_elements(expr, unresolved_mark) == awaited(expr, unresolved_mark),
{
}

proof fn lemma_element(element: &Option<ExprOrSpread>, runtime: Binding)
    ensures
        match element_chunk(element, runtime) {
            Some(id) => element_loads(element, runtime, id),
            None => forall|id: Seq<char>| !#[trigger] element_loads(element, runtime, id),
        },
        forall|id: Seq<char>| #[trigger]
            element_loads(element, runtime, id) ==> element_chunk(element, runtime) == Some(id),
{
    match element {
        Some(element) => {
            lemma_ensured(&element.expr);
            assert forall|id: Seq<char>| #[trigger] loads(
                &element.expr,
                runtime,
                id,
            ) implies ensured_chunk(stripped(&element.expr)) == Some((runtime, id)) by {
                lemma_loads(&element.expr, runtime, id);
            }
        },
        None => {},
    }
}

proof fn lemma_elements(elems: &Vec<Option<ExprOrSpread>>, runtime: Binding, n: nat)
    requires
        n <= elems@.len(),
    ensures
        match elements_chunks(elems, runtime, n) {
            Some(ids) => ids.len() == n && forall|i: int|
                0 <= i < n ==> element_loads(&#[trigger] elems@[i], runtime, ids[i]),
            None => exists|i: int|
                0 <= i < n && !element_loads_some(&#[trigger] elems@[i], runtime),
        },
    decreases n,
{
    if n > 0 {
        lemma_elements(elems, runtime, (n - 1) as nat);
        lemma_element(&elems@[n - 1], runtime);
        match elements_chunks(elems, runtime, (n - 1) as nat) {
            Some(ids) => {
                match element_chunk(&elems@[n - 1], runtime) {
                    Some(id) => {
                        assert(elements_chunks(elems, runtime, n) == Some(ids.push(id)));
                    },
                    None => {
                        assert(!element_loads_some(&elems@[n - 1], runtime));
                    },
                }
            },
            None => {},
        }
    }
}

/// A call loads the chunk of a generated load site: where the continuation is
/// bound to a runtime, `runtime.e(id)` loads the one chunk `id`, and
/// `Promise.all([runtime.e(a), ...])` loads the chunk of each element, however
/// many there are, in their order.
pub proof fn law_load_sites_load(call: &CallExpr, unresolved_mark: Mark, runtime: Binding)
    requires
        continued(call, runtime) is Some,
    ensures
        forall|id: Seq<char>| #[trigger]
            loads(continued(call, runtime)->0, runtime, id) ==> loaded_chunks(call, unresolved_mark)
                == seq![id],
        awaited(continued(call, runtime)->0, unresolved_mark) matches Some(elems) ==> {
            let loaded = loaded_chunks(call, unresolved_mark);
            &&& all_load(elems, runtime) ==> loaded.len() == elems@.len()
            &&& all_load(elems, runtime) ==> forall|i: int, id: Seq<char>|
                0 <= i < elems@.len() && #[trigger] element_loads(&elems@[i], runtime, id)
                    ==> loaded[i] == id
            &&& !all_load(elems, runtime) ==> loaded.len() == 0
        },
{
    let object = continued(call, runtime)->0;
    let first = &call.args@[0].expr;
    lemma_continues(first, runtime);
    assert(called_member(call) is Some);
    lemma_ensured(object);
    lemma_awaited(object, unresolved_mark);
    assert forall|id: Seq<char>| #[trigger] loads(object, runtime, id) implies loaded_chunks(
        call,
        unresolved_mark,
    ) == seq![id] by {
        lemma_loads(object, runtime, id);
    }
    match awaited(object, unresolved_mark) {
        Some(elems) => {
            lemma_elements(elems, runtime, elems@.len());
            assert(ensured_chunk(stripped(object)) is None) by {
                reveal_strlit("e");
                reveal_strlit("all");
                assert("e"@.len() != "all"@.len());
            }
            assert forall|i: int, id: Seq<char>|
                0 <= i < elems@.len() && #[trigger] element_loads(
                    &elems@[i],
                    runtime,
                    id,
                ) implies element_chunk(&elems@[i], runtime) == Some(id) by {
                lemma_element(&elems@[i], runtime);
            }
            match elements_chunks(elems, runtime, elems@.len()) {
                Some(ids) => {
                    assert forall|i: int| 0 <= i < elems@.len() implies element_loads_some(
                        &#[trigger] elems@[i],
                        runtime,
                    ) by {
                        assert(element_loads(&elems@[i], runtime, ids[i]));
                    }
                    assert forall|i: int, id: Seq<char>|
                        0 <= i < elems@.len() && #[trigger] element_loads(
                            &elems@[i],
                            runtime,
                            id,
                        ) implies ids[i] == id by {
                        assert(element_loads(&elems@[i], runtime, ids[i]));
                    }
                },
                None => {},
            }
        },
        None => {},
    }
}

/// Nothing else loads a chunk: a loaded id is that of a generated load site
/// whose continuation is bound to the very runtime that loads it.
pub proof fn law_only_load_sites_load(call: &CallExpr, unresolved_mark: Mark, id: Seq<char>)
    requires
        loaded_chunks(call, unresolved_mark).contains(id),
    ensures
        exists|runtime: Binding| is_load_of(call, unresolved_mark, runtime, id),
{
    let first = &call.args@[0].expr;
    let runtime = bound_runtime(first)->0;
    lemma_continues(first, runtime);
    assert(continued(call, runtime) is Some);
    let object = continued(call, runtime)->0;
    lemma_ensured(object);
    lemma_awaited(object, unresolved_mark);
    match ensured_chunk(stripped(object)) {
        Some(_) => {
            let loaded = loaded_chunks(call, unresolved_mark);
            let k = choose|k: int| 0 <= k < loaded.len() && loaded[k] == id;
            assert(loaded[0] == id);
        },
        None => {
            let elems = awaited(object, unresolved_mark)->0;
            lemma_elements(elems, runtime, elems@.len());
            let ids = elements_chunks(elems, runtime, elems@.len())->0;
            let i = choose|i: int| 0 <= i < ids.len() && ids[i] == id;
            assert(element_loads(&elems@[i], runtime, id));
            assert forall|i: int| 0 <= i < elems@.len() implies element_loads_some(
                &#[trigger] elems@[i],
                runtime,
            ) by {
                assert(element_loads(&elems@[i], runtime, ids[i]));
            }
        },
    }
    assert(is_load_of(call, unresolved_mark, runtime, id));
}

/// Wherever a generated load site stands in a module, its chunks are loaded.
pub proof fn law_loads_of_a_module<'a>(
    module: &'a Module,
    path: Seq<Part<'a>>,
    call: &'a CallExpr,
    expr: &'a Expr,
    unresolved_mark: Mark,
    runtime: Binding,
    id: Seq<char>,
)
    requires
        leads_to(module, path, Part::Expr(expr)),
        *expr == Expr::Call(*call),
        is_load_of(call, unresolved_mark, runtime, id),
    ensures
        is_loaded(module_sites(module), unresolved_mark, id),
        loaded_ids(module_sites(module), unresolved_mark).contains(id),
{
    let object = continued(call, runtime)->0;
    let loaded = loaded_chunks(call, unresolved_mark);
    law_load_sites_load(call, unresolved_mark, runtime);
    if loads(object, runtime, id) {
        assert(loaded[0] == id);
    } else {
        let elems = awaited(object, unresolved_mark)->0;
        let i = choose|i: int|
            0 <= i < elems@.len() && element_loads(&#[trigger] elems@[i], runtime, id);
        assert(loaded[i] == id);
    }
    law_every_part_is_walked(module, path, Part::Expr(expr));
    let site = own_sites(Part::Expr(expr))[0];
    let sites = module_sites(module);
    let k = choose|k: int| 0 <= k < sites.len() && sites[k] == site;
    assert(sites[k] == Site::Call(call));
}

} // verus!
