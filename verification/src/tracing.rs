//! What leads to the running script.
//!
//! The laws say, in terms of the syntax tree alone, which expressions are
//! known to be the document, a script of it, the URL of the running script or
//! its directory, and how a binding passes such a value on.

use vstd::prelude::*;

use crate::ast::{
    string_text, stripped, AssignOp, BinaryOp, Binding, CallExpr, Callee, Expr, Ident, Lit, Mark,
    MemberExpr, MemberProp, MetaPropKind,
};
use crate::facts::PublicPathView;
use crate::reading::{is_binding, law_parentheses_do_not_matter, method_of};
use crate::recognition::denotes_binding;
use crate::script_path::{
    call_value, is_runtime_global, is_script_relative_suffix, member_value, public_path_of,
    value_of, ScriptTraceValue, TraceView,
};
use crate::text::{occurs_at, occurs_in};

verus! {

// ---------------------------------------------------------------------------
// Values
// ---------------------------------------------------------------------------

/// `expr` is `runtime.g.name`.
pub open spec fn reads_global(expr: &Expr, name: Seq<char>, runtime: Binding) -> bool {
    match stripped(expr) {
        Expr::Member(MemberExpr { obj, prop: MemberProp::Ident(sym) }) => sym@ == name
            && match stripped(obj) {
            Expr::Member(MemberExpr { obj: object, prop: MemberProp::Ident(g) }) => g@ == "g"@
                && is_binding(object, runtime),
            _ => false,
        },
        _ => false,
    }
}

/// A property of the global object is recognized wherever it is read by its
/// name, and nowhere else.
pub proof fn law_global_properties(expr: &Expr, name: Seq<char>, runtime: Binding)
    ensures
        is_runtime_global(expr, name, runtime) <==> reads_global(expr, name, runtime),
{
}

/// `expr` is `object.name`.
pub open spec fn reads(expr: &Expr, object: &Expr, name: Seq<char>) -> bool {
    match stripped(expr) {
        Expr::Member(MemberExpr { obj, prop: MemberProp::Ident(sym) }) => **obj == *object && sym@
            == name,
        _ => false,
    }
}

/// `expr` is `object[...]`.
pub open spec fn indexes(expr: &Expr, object: &Expr) -> bool {
    match stripped(expr) {
        Expr::Member(MemberExpr { obj, prop: MemberProp::Computed(_) }) => **obj == *object,
        _ => false,
    }
}

/// `expr` is `object.name(...)`, and the arguments are the given string
/// literal alone.
pub open spec fn calls_with_text(
    expr: &Expr,
    object: &Expr,
    name: Seq<char>,
    text: Seq<char>,
) -> bool {
    match stripped(expr) {
        Expr::Call(call) => match method_of(call, name) {
            Some((receiver, args)) => *receiver == *object && args@.len() == 1 && !args@[0].spread
                && string_text(&args@[0].expr) == Some(text),
            None => false,
        },
        _ => false,
    }
}

/// `expr` is `object.replace(/pattern/, "text")`.
pub open spec fn replaces(
    expr: &Expr,
    object: &Expr,
    pattern: Seq<char>,
    text: Seq<char>,
) -> bool {
    match stripped(expr) {
        Expr::Call(call) => match method_of(call, "replace"@) {
            Some((receiver, args)) => {
                &&& *receiver == *object
                &&& args@.len() == 2
                &&& !args@[0].spread
                &&& !args@[1].spread
                &&& stripped(&args@[0].expr) matches Expr::Lit(Lit::Regex(regex)) && regex@
                    == pattern
                &&& string_text(&args@[1].expr) == Some(text)
            },
            None => false,
        },
        _ => false,
    }
}

/// `expr` is `import.meta.url`.
pub open spec fn is_module_url(expr: &Expr) -> bool {
    match stripped(expr) {
        Expr::Member(MemberExpr { obj, prop: MemberProp::Ident(sym) }) => sym@ == "url"@
            && *stripped(obj) == Expr::MetaProp(MetaPropKind::ImportMeta),
        _ => false,
    }
}

/// The names that tell the ways to the script apart.
proof fn lemma_names()
    ensures
        "document"@ != "location"@,
        "document"@ != "url"@,
        "document"@ != "src"@,
        "document"@ != "currentScript"@,
        "location"@ != "url"@,
        "location"@ != "src"@,
        "location"@ != "currentScript"@,
        "url"@ != "src"@,
        "url"@ != "currentScript"@,
        "src"@ != "currentScript"@,
        "replace"@ != "getElementsByTagName"@,
        ""@ != "/"@,
        ""@ == Seq::<char>::empty(),
        "^blob:"@ != r"\/[^\/]+$"@,
        "#.*$"@ != r"\/[^\/]+$"@,
        r"\?.*$"@ != r"\/[^\/]+$"@,
{
    reveal_strlit("document");
    reveal_strlit("location");
    reveal_strlit("url");
    reveal_strlit("src");
    reveal_strlit("currentScript");
    reveal_strlit("replace");
    reveal_strlit("getElementsByTagName");
    reveal_strlit("");
    reveal_strlit("/");
    reveal_strlit("^blob:");
    reveal_strlit("#.*$");
    reveal_strlit(r"\?.*$");
    reveal_strlit(r"\/[^\/]+$");
    assert("document"@[0] == 'd');
    assert("location"@[0] == 'l');
    assert("url"@[0] == 'u');
    assert("src"@[0] == 's');
    assert("currentScript"@[0] == 'c');
    assert("replace"@[0] == 'r');
    assert("getElementsByTagName"@[0] == 'g');
    assert(""@.len() == 0);
    assert("/"@.len() == 1);
    assert("^blob:"@[0] == '^');
    assert("#.*$"@[0] == '#');
    assert(r"\?.*$"@[1] == '?');
    assert(r"\/[^\/]+$"@[0] == '\\');
    assert(r"\/[^\/]+$"@[1] == '/');
    assert(""@ =~= Seq::<char>::empty());
}

/// The value of an expression in parentheses is that of the expression.
proof fn lemma_value_stripped(expr: &Expr, st: TraceView)
    ensures
        value_of(expr, st) == value_of(stripped(expr), st),
        match stripped(expr) {
            Expr::Member(member) => value_of(expr, st) == member_value(member, st),
            Expr::Call(call) => match &call.callee {
                Callee::Expr(callee) => value_of(expr, st) == call_value(
                    stripped(callee),
                    call,
                    st,
                ),
                _ => value_of(expr, st) is None,
            },
            _ => true,
        },
    decreases expr,
{
    match expr {
        Expr::Paren(inner) => lemma_value_stripped(inner, st),
        Expr::Call(call) => match &call.callee {
            Callee::Expr(callee) => lemma_call_stripped(callee, call, st),
            _ => {},
        },
        _ => {},
    }
}

proof fn lemma_call_stripped(callee: &Expr, call: &CallExpr, st: TraceView)
    ensures
        call_value(callee, call, st) == call_value(stripped(callee), call, st),
    decreases callee,
{
    match callee {
        Expr::Paren(inner) => lemma_call_stripped(inner, call, st),
        _ => {},
    }
}

/// The document is the global `document`, unless the name is bound to
/// something else, and `runtime.g.document`.
pub proof fn law_documents(expr: &Expr, st: TraceView)
    ensures
        reads_global(expr, "document"@, st.runtime) ==> value_of(expr, st) == Some(
            ScriptTraceValue::Document,
        ),
        stripped(expr) matches Expr::Ident(ident) && ident.sym@ == "document"@ && ident.outer
            == st.unresolved_mark && !st.values.contains_key((ident.sym@, ident.ctxt)) ==> value_of(
            expr,
            st,
        ) == Some(ScriptTraceValue::Document),
{
    lemma_value_stripped(expr, st);
}

/// A bound name has the value that it is bound to.
pub proof fn law_bound_names(expr: &Expr, st: TraceView, id: Binding)
    requires
        is_binding(expr, id),
    ensures
        st.values.contains_key(id) ==> value_of(expr, st) == Some(st.values[id]),
{
    lemma_value_stripped(expr, st);
}

/// The scripts of the document are found by their tag, and each element of the
/// collection is a script, whatever expression is its index. The current
/// script is one too.
pub proof fn law_scripts(expr: &Expr, object: &Expr, st: TraceView)
    ensures
        value_of(object, st) == Some(ScriptTraceValue::Document) && calls_with_text(
            expr,
            object,
            "getElementsByTagName"@,
            "script"@,
        ) ==> value_of(expr, st) == Some(ScriptTraceValue::ScriptCollection),
        value_of(object, st) == Some(ScriptTraceValue::ScriptCollection) && indexes(expr, object)
            ==> value_of(expr, st) == Some(ScriptTraceValue::ScriptElement),
        value_of(object, st) == Some(ScriptTraceValue::Document) && reads(
            expr,
            object,
            "currentScript"@,
        ) ==> value_of(expr, st) == Some(ScriptTraceValue::ScriptElement),
{
    lemma_names();
    lemma_value_stripped(expr, st);
}

/// The URL of a script is its `src`; that of the module is `import.meta.url`,
/// and in a worker that of the script is its location.
pub proof fn law_script_urls(expr: &Expr, object: &Expr, st: TraceView)
    ensures
        value_of(object, st) == Some(ScriptTraceValue::ScriptElement) && reads(
            expr,
            object,
            "src"@,
        ) ==> value_of(expr, st) == Some(ScriptTraceValue::ScriptUrl),
        is_module_url(expr) ==> value_of(expr, st) == Some(ScriptTraceValue::ScriptUrl),
        reads_global(expr, "location"@, st.runtime) && st.allow_runtime_location ==> value_of(
            expr,
            st,
        ) == Some(ScriptTraceValue::ScriptUrl),
{
    lemma_names();
    lemma_value_stripped(expr, st);
}

/// A script URL stays one when its scheme, its fragment or its query is cut
/// off, and becomes the script's directory when the file name is.
pub proof fn law_replacements(expr: &Expr, object: &Expr, st: TraceView)
    requires
        value_of(object, st) == Some(ScriptTraceValue::ScriptUrl),
    ensures
        replaces(expr, object, "^blob:"@, ""@) ==> value_of(expr, st) == Some(
            ScriptTraceValue::ScriptUrl,
        ),
        replaces(expr, object, "#.*$"@, ""@) ==> value_of(expr, st) == Some(
            ScriptTraceValue::ScriptUrl,
        ),
        replaces(expr, object, r"\?.*$"@, ""@) ==> value_of(expr, st) == Some(
            ScriptTraceValue::ScriptUrl,
        ),
        replaces(expr, object, r"\/[^\/]+$"@, "/"@) ==> value_of(expr, st) == Some(
            ScriptTraceValue::ScriptDirectory,
        ),
{
    lemma_names();
    lemma_value_stripped(expr, st);
}

/// The value of `expr` is that of `inner`: parentheses, the empty string added
/// to it, an assignment of it, and a sequence that ends in it.
pub open spec fn passes_on(expr: &Expr, inner: &Expr) -> bool {
    match expr {
        Expr::Paren(e) => **e == *inner,
        Expr::Bin(bin) => bin.op == BinaryOp::Add && ((string_text(&bin.left) == Some(
            Seq::<char>::empty(),
        ) && *bin.right == *inner) || (string_text(&bin.left) != Some(Seq::<char>::empty())
            && string_text(&bin.right) == Some(Seq::<char>::empty()) && *bin.left == *inner)),
        Expr::Assign(assign) => assign.op == AssignOp::Assign && *assign.right == *inner,
        Expr::Sequence(exprs) => exprs@.len() > 0 && exprs@[exprs@.len() - 1] == *inner,
        _ => false,
    }
}

/// What passes a value on has that value, and a condition has the value that
/// both of its branches have.
pub proof fn law_values_are_passed_on(expr: &Expr, inner: &Expr, st: TraceView)
    ensures
        passes_on(expr, inner) ==> value_of(expr, st) == value_of(inner, st),
        expr matches Expr::Cond(cond) && value_of(&cond.cons, st) == value_of(&cond.alt, st)
            ==> value_of(expr, st) == value_of(&expr->Cond_0.cons, st),
{
    lemma_names();
}

/// The value of the call comes from the object whose method it calls.
pub open spec fn comes_from_a_call(expr: &Expr, object: &Expr, st: TraceView) -> bool {
    match value_of(expr, st) {
        Some(ScriptTraceValue::ScriptCollection) => value_of(object, st) == Some(
            ScriptTraceValue::Document,
        ) && calls_with_text(expr, object, "getElementsByTagName"@, "script"@),
        Some(ScriptTraceValue::ScriptUrl) => value_of(object, st) == Some(
            ScriptTraceValue::ScriptUrl,
        ) && {
            ||| replaces(expr, object, "^blob:"@, ""@)
            ||| replaces(expr, object, "#.*$"@, ""@)
            ||| replaces(expr, object, r"\?.*$"@, ""@)
        },
        Some(ScriptTraceValue::ScriptDirectory) => value_of(object, st) == Some(
            ScriptTraceValue::ScriptUrl,
        ) && replaces(expr, object, r"\/[^\/]+$"@, "/"@),
        _ => false,
    }
}

/// Nothing else is known: each known value is passed on, bound, or one of a
/// way to the running script.
pub proof fn law_no_other_values(expr: &Expr, st: TraceView)
    requires
        value_of(expr, st) is Some,
    ensures
        match expr {
            Expr::Ident(ident) => {
                ||| st.values.contains_key((ident.sym@, ident.ctxt)) && value_of(expr, st) == Some(
                    st.values[(ident.sym@, ident.ctxt)],
                )
                ||| ident.sym@ == "document"@ && ident.outer == st.unresolved_mark && value_of(
                    expr,
                    st,
                ) == Some(ScriptTraceValue::Document)
            },
            Expr::Member(member) => match value_of(expr, st)->0 {
                ScriptTraceValue::Document => reads_global(expr, "document"@, st.runtime),
                ScriptTraceValue::ScriptElement => {
                    ||| reads(expr, &member.obj, "currentScript"@) && value_of(&member.obj, st)
                        == Some(ScriptTraceValue::Document)
                    ||| indexes(expr, &member.obj) && value_of(&member.obj, st) == Some(
                        ScriptTraceValue::ScriptCollection,
                    )
                },
                ScriptTraceValue::ScriptUrl => {
                    ||| reads_global(expr, "location"@, st.runtime) && st.allow_runtime_location
                    ||| is_module_url(expr)
                    ||| reads(expr, &member.obj, "src"@) && value_of(&member.obj, st) == Some(
                        ScriptTraceValue::ScriptElement,
                    )
                },
                _ => false,
            },
            Expr::Call(_) => exists|object: &Expr| comes_from_a_call(expr, object, st),
            Expr::Cond(cond) => value_of(&cond.cons, st) == value_of(expr, st) && value_of(
                &cond.alt,
                st,
            ) == value_of(expr, st),
            _ => exists|inner: &Expr|
                passes_on(expr, inner) && #[trigger] value_of(inner, st) == value_of(expr, st),
        },
{
    lemma_names();
    lemma_value_stripped(expr, st);
    match expr {
        Expr::Call(call) => match &call.callee {
            Callee::Expr(callee) => {
                law_parentheses_do_not_matter(callee);
                match stripped(callee) {
                    Expr::Member(member) => {
                        assert(comes_from_a_call(expr, &member.obj, st));
                    },
                    _ => {},
                }
            },
            _ => {},
        },
        Expr::Paren(inner) => {
            assert(passes_on(expr, inner) && value_of(inner, st) == value_of(expr, st));
        },
        Expr::Bin(bin) => {
            if string_text(&bin.left) == Some(Seq::<char>::empty()) {
                assert(passes_on(expr, &bin.right));
                assert(value_of(&bin.right, st) == value_of(expr, st));
            } else {
                assert(passes_on(expr, &bin.left));
                assert(value_of(&bin.left, st) == value_of(expr, st));
            }
        },
        Expr::Assign(assign) => {
            assert(passes_on(expr, &assign.right));
            assert(value_of(&assign.right, st) == value_of(expr, st));
        },
        Expr::Sequence(exprs) => {
            let last = &exprs@[exprs@.len() - 1];
            assert(passes_on(expr, last) && value_of(last, st) == value_of(expr, st));
        },
        _ => {},
    }
}

/// A suffix leads from the script's directory to a directory if and only if it
/// is not empty, ends in `/`, does not begin with `/`, and holds no `://`.
pub proof fn law_suffixes(suffix: Seq<char>)
    ensures
        is_script_relative_suffix(suffix) <==> is_relative_directory(suffix),
{
    reveal_strlit("://");
    let marker = "://"@;
    if occurs_in(suffix, marker) {
        let at = choose|at: int| occurs_at(suffix, marker, at);
        let found = suffix.subrange(at, at + 3);
        assert(found[0] == ':' && found[1] == '/' && found[2] == '/');
        assert(suffix[at] == ':' && suffix[at + 1] == '/' && suffix[at + 2] == '/');
    }
    if exists|at: int|
        0 <= at && at + 2 < suffix.len() && #[trigger] suffix[at] == ':' && suffix[at + 1] == '/'
            && suffix[at + 2] == '/' {
        let at = choose|at: int|
            0 <= at && at + 2 < suffix.len() && #[trigger] suffix[at] == ':' && suffix[at + 1]
                == '/' && suffix[at + 2] == '/';
        assert(suffix.subrange(at, at + 3) =~= marker);
        assert(occurs_at(suffix, marker, at));
    }
}

/// The text is not empty, ends in `/`, does not begin with `/`, and holds no
/// `://`.
pub open spec fn is_relative_directory(suffix: Seq<char>) -> bool {
    &&& suffix.len() > 0
    &&& suffix[suffix.len() - 1] == '/'
    &&& suffix[0] != '/'
    &&& forall|at: int|
        0 <= at && at + 2 < suffix.len() ==> !(#[trigger] suffix[at] == ':' && suffix[at + 1] == '/'
            && suffix[at + 2] == '/')
}

/// `expr` is `left + "<suffix>"`, and `left` is known to be the directory of the
/// running script.
pub open spec fn adds_to_directory(expr: &Expr, st: TraceView, suffix: Seq<char>) -> bool {
    match stripped(expr) {
        Expr::Bin(bin) => bin.op == BinaryOp::Add && value_of(&bin.left, st) == Some(
            ScriptTraceValue::ScriptDirectory,
        ) && match stripped(&bin.right) {
            Expr::Lit(Lit::Str(Some(value))) => value@ == suffix,
            _ => false,
        },
        _ => false,
    }
}

/// What is assigned to the public path proves a static path if and only if it
/// is a string literal, and a script-relative one if and only if it adds a
/// relative directory to that of the running script. Anything else is computed
/// at run time.
pub proof fn law_public_path_values(expr: &Expr, st: TraceView, text: Seq<char>)
    ensures
        public_path_of(expr, st) == PublicPathView::Static(text) <==> (match stripped(expr) {
            Expr::Lit(Lit::Str(Some(value))) => value@ == text,
            _ => false,
        }),
        public_path_of(expr, st) == PublicPathView::ScriptRelative(text) <==> adds_to_directory(
            expr,
            st,
            text,
        ) && is_relative_directory(text),
        public_path_of(expr, st) != PublicPathView::NotFound,
{
    law_suffixes(text);
}

// ---------------------------------------------------------------------------
// Expressions that spell out the whole way to the running script
// ---------------------------------------------------------------------------

/// The names that matter to the way to the script: the runtime, the mark of the
/// free identifiers, and the binding of the global `document`.
pub struct Names {
    pub runtime: Binding,
    pub unresolved_mark: Mark,
    pub document: Binding,
}

/// The state is one of the runtime, and leaves `document` as it is.
pub open spec fn is_plain_for(st: TraceView, names: Names) -> bool {
    &&& st.runtime == names.runtime
    &&& st.unresolved_mark == names.unresolved_mark
    &&& !st.values.contains_key(names.document)
}

/// `document` or `runtime.g.document`
pub open spec fn spells_document(expr: &Expr, names: Names) -> bool
    decreases expr,
{
    match expr {
        Expr::Paren(inner) => spells_document(inner, names),
        Expr::Ident(ident) => denotes_binding(*ident, names.document) && ident.sym@ == "document"@
            && ident.outer == names.unresolved_mark,
        Expr::Member(_) => reads_global(expr, "document"@, names.runtime),
        _ => false,
    }
}

/// `document.getElementsByTagName("script")`
pub open spec fn spells_collection(expr: &Expr, names: Names) -> bool
    decreases expr,
{
    match expr {
        Expr::Paren(inner) => spells_collection(inner, names),
        Expr::Call(CallExpr { callee: Callee::Expr(callee), .. }) => match &**callee {
            Expr::Member(member) => spells_document(&member.obj, names) && calls_with_text(
                expr,
                &member.obj,
                "getElementsByTagName"@,
                "script"@,
            ),
            _ => false,
        },
        _ => false,
    }
}

/// `document.currentScript`, or an element of the collection with any index.
pub open spec fn spells_script(expr: &Expr, names: Names) -> bool
    decreases expr,
{
    match expr {
        Expr::Paren(inner) => spells_script(inner, names),
        Expr::Member(member) => {
            ||| reads(expr, &member.obj, "currentScript"@) && spells_document(&member.obj, names)
            ||| indexes(expr, &member.obj) && spells_collection(&member.obj, names)
        },
        _ => false,
    }
}

/// The `src` of a script or `import.meta.url`, with or without the empty string
/// added to it, and with its scheme, its fragment or its query cut off any
/// number of times.
pub open spec fn spells_url(expr: &Expr, names: Names) -> bool
    decreases expr,
{
    match expr {
        Expr::Paren(inner) => spells_url(inner, names),
        Expr::Member(member) => is_module_url(expr) || (reads(expr, &member.obj, "src"@)
            && spells_script(&member.obj, names)),
        Expr::Call(CallExpr { callee: Callee::Expr(callee), .. }) => match &**callee {
            Expr::Member(member) => spells_url(&member.obj, names) && {
                ||| replaces(expr, &member.obj, "^blob:"@, ""@)
                ||| replaces(expr, &member.obj, "#.*$"@, ""@)
                ||| replaces(expr, &member.obj, r"\?.*$"@, ""@)
            },
            _ => false,
        },
        Expr::Bin(bin) => passes_on(expr, &bin.left) && spells_url(&bin.left, names) || passes_on(
            expr,
            &bin.right,
        ) && spells_url(&bin.right, names),
        _ => false,
    }
}

/// The directory of the running script: its URL with the file name cut off.
pub open spec fn spells_directory(expr: &Expr, names: Names) -> bool
    decreases expr,
{
    match expr {
        Expr::Paren(inner) => spells_directory(inner, names),
        Expr::Call(CallExpr { callee: Callee::Expr(callee), .. }) => match &**callee {
            Expr::Member(member) => spells_url(&member.obj, names) && replaces(
                expr,
                &member.obj,
                r"\/[^\/]+$"@,
                "/"@,
            ),
            _ => false,
        },
        Expr::Bin(bin) => passes_on(expr, &bin.left) && spells_directory(&bin.left, names)
            || passes_on(expr, &bin.right) && spells_directory(&bin.right, names),
        _ => false,
    }
}

proof fn lemma_spelled_document(expr: &Expr, names: Names, st: TraceView)
    requires
        is_plain_for(st, names),
        spells_document(expr, names),
    ensures
        value_of(expr, st) == Some(ScriptTraceValue::Document),
    decreases expr,
{
    match expr {
        Expr::Paren(inner) => lemma_spelled_document(inner, names, st),
        _ => law_documents(expr, st),
    }
}

proof fn lemma_spelled_collection(expr: &Expr, names: Names, st: TraceView)
    requires
        is_plain_for(st, names),
        spells_collection(expr, names),
    ensures
        value_of(expr, st) == Some(ScriptTraceValue::ScriptCollection),
    decreases expr,
{
    match expr {
        Expr::Paren(inner) => lemma_spelled_collection(inner, names, st),
        Expr::Call(CallExpr { callee: Callee::Expr(callee), .. }) => match &**callee {
            Expr::Member(member) => {
                lemma_spelled_document(&member.obj, names, st);
                law_scripts(expr, &member.obj, st);
            },
            _ => {},
        },
        _ => {},
    }
}

proof fn lemma_spelled_script(expr: &Expr, names: Names, st: TraceView)
    requires
        is_plain_for(st, names),
        spells_script(expr, names),
    ensures
        value_of(expr, st) == Some(ScriptTraceValue::ScriptElement),
    decreases expr,
{
    match expr {
        Expr::Paren(inner) => lemma_spelled_script(inner, names, st),
        Expr::Member(member) => {
            if spells_document(&member.obj, names) {
                lemma_spelled_document(&member.obj, names, st);
            }
            if spells_collection(&member.obj, names) {
                lemma_spelled_collection(&member.obj, names, st);
            }
            law_scripts(expr, &member.obj, st);
        },
        _ => {},
    }
}

proof fn lemma_spelled_url(expr: &Expr, names: Names, st: TraceView)
    requires
        is_plain_for(st, names),
        spells_url(expr, names),
    ensures
        value_of(expr, st) == Some(ScriptTraceValue::ScriptUrl),
    decreases expr,
{
    match expr {
        Expr::Paren(inner) => lemma_spelled_url(inner, names, st),
        Expr::Member(member) => {
            if spells_script(&member.obj, names) {
                lemma_spelled_script(&member.obj, names, st);
            }
            law_script_urls(expr, &member.obj, st);
        },
        Expr::Call(CallExpr { callee: Callee::Expr(callee), .. }) => match &**callee {
            Expr::Member(member) => {
                lemma_spelled_url(&member.obj, names, st);
                law_replacements(expr, &member.obj, st);
            },
            _ => {},
        },
        Expr::Bin(bin) => {
            if passes_on(expr, &bin.left) && spells_url(&bin.left, names) {
                lemma_spelled_url(&bin.left, names, st);
                law_values_are_passed_on(expr, &bin.left, st);
            } else {
                lemma_spelled_url(&bin.right, names, st);
                law_values_are_passed_on(expr, &bin.right, st);
            }
        },
        _ => {},
    }
}

/// An expression that spells out the whole way to the directory of the running
/// script is known to be that directory, wherever it stands.
pub proof fn law_spelled_directories(expr: &Expr, names: Names, st: TraceView)
    requires
        is_plain_for(st, names),
        spells_directory(expr, names),
    ensures
        value_of(expr, st) == Some(ScriptTraceValue::ScriptDirectory),
    decreases expr,
{
    match expr {
        Expr::Paren(inner) => law_spelled_directories(inner, names, st),
        Expr::Call(CallExpr { callee: Callee::Expr(callee), .. }) => match &**callee {
            Expr::Member(member) => {
                lemma_spelled_url(&member.obj, names, st);
                law_replacements(expr, &member.obj, st);
            },
            _ => {},
        },
        Expr::Bin(bin) => {
            if passes_on(expr, &bin.left) && spells_directory(&bin.left, names) {
                law_spelled_directories(&bin.left, names, st);
                law_values_are_passed_on(expr, &bin.left, st);
            } else {
                law_spelled_directories(&bin.right, names, st);
                law_values_are_passed_on(expr, &bin.right, st);
            }
        },
        _ => {},
    }
}

} // verus!
