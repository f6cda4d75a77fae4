//! What a filename function returns when the runtime calls it.
//!
//! The URLs of an enumeration are claims about what the runtime requests.
//! Here a filename function is evaluated as JavaScript evaluates it, and the
//! URL that its template renders is shown to be the text of the result.
//! The picture holds that two numbers are added up instead of concatenated,
//! and that a lookup may reach what every object inherits.

use vstd::prelude::*;

use crate::assets::{rendered_url, segment_text};
use crate::ast::{
    is_ident_of, stripped, BinaryOp, Binding, Expr, Lit, Mark, Module, Prop, Tpl,
};
use crate::facts::ChunkEnumerationView;
use crate::laws::law_rendering_of_parts;
use crate::number::{integer_text, integer_value};
use crate::prototype::{has_prototype_key, inherits, is_inherited_name, table_has};
use crate::surface::{anchored, script_src_at, values_written, ScriptSrcView};
use crate::template::{
    arrow_shape, filename_fn_shape, filename_template, function_shape, has_only_texts,
    has_text_value, is_falsy, is_plain_function, is_text, joined, key_text, literal_text,
    lookup_map, lookup_props, object_map, one_segment, only_concatenates, path_object, template_of,
    tpl_only_concatenates, tpl_template, SegmentView,
};
use crate::walk::{module_sites, Site};
use crate::webpack::{is_webpack4_enumeration, is_webpack5_enumeration, is_webpack5_runtime};

verus! {

// ---------------------------------------------------------------------------
// Values
// ---------------------------------------------------------------------------

/// A value of a filename function.
pub enum Value {
    Text(Seq<char>),
    /// A number, by the bits of its double-precision value.
    Number(u64),
}

/// The text of a value. Only the numbers that are chunk ids have one here.
pub open spec fn value_text(value: Value) -> Option<Seq<char>> {
    match value {
        Value::Text(text) => Some(text),
        Value::Number(bits) => integer_text(bits),
    }
}

/// The value counts as true in a condition.
pub open spec fn is_truthy(value: Value) -> bool {
    match value {
        Value::Text(text) => text.len() > 0,
        Value::Number(bits) => integer_value(bits) != Some(0nat),
    }
}

/// The sum of two values is the concatenation of their texts, as soon as one
/// of them is a text. Two numbers are added up instead, which is no
/// concatenation.
pub open spec fn sum(a: Value, b: Value) -> Option<Value> {
    match (a, b) {
        (Value::Number(_), Value::Number(_)) => None,
        _ => match (value_text(a), value_text(b)) {
            (Some(x), Some(y)) => Some(Value::Text(x + y)),
            _ => None,
        },
    }
}

/// The value of a literal.
pub open spec fn literal_value(expr: &Expr) -> Option<Value> {
    match stripped(expr) {
        Expr::Lit(Lit::Str(Some(text))) => Some(Value::Text(text@)),
        Expr::Lit(Lit::Num(bits)) => Some(Value::Number(*bits)),
        _ => None,
    }
}

/// What a lookup in an object literal finds.
pub enum Lookup {
    /// A literal value.
    Found(Value),
    /// Nothing: the value is `undefined`.
    Missing,
    /// Something that is not literal.
    Unknown,
}

/// What a key has among the first `n` members of an object literal: the value
/// of the last member with the key.
pub open spec fn entry_value(props: &Vec<Prop>, n: nat, key: Seq<char>) -> Lookup
    decreases n,
{
    if n == 0 || n > props@.len() {
        Lookup::Missing
    } else {
        match &props@[n - 1] {
            Prop::KeyValue(key_value) => match key_text(&key_value.key) {
                Some(other) => if other == key {
                    match literal_value(&key_value.value) {
                        Some(value) => Lookup::Found(value),
                        None => Lookup::Unknown,
                    }
                } else {
                    entry_value(props, (n - 1) as nat, key)
                },
                None => Lookup::Unknown,
            },
            Prop::Other(_) => Lookup::Unknown,
        }
    }
}

/// What a lookup of a key finds in an object literal, among its own entries
/// and those that it inherits. The key `__proto__` makes no entry.
pub open spec fn property_value(props: &Vec<Prop>, key: Seq<char>) -> Lookup {
    match entry_value(props, props@.len(), key) {
        Lookup::Found(value) => if key == "__proto__"@ {
            Lookup::Unknown
        } else {
            Lookup::Found(value)
        },
        Lookup::Missing => if is_inherited_name(key) {
            Lookup::Unknown
        } else {
            Lookup::Missing
        },
        Lookup::Unknown => Lookup::Unknown,
    }
}

// ---------------------------------------------------------------------------
// Evaluation
// ---------------------------------------------------------------------------

/// A call of a filename function.
pub struct Request {
    /// The parameter of the function.
    pub param: Binding,
    /// The chunk id that is handed over, a text or a number.
    pub id: Value,
    /// An object and its public path, which the function may begin with.
    pub public_path: Option<(Binding, Seq<char>)>,
}

/// What `{...}[param]` finds in a call.
pub open spec fn looked_up(expr: &Expr, request: Request) -> Lookup {
    match (lookup_props(expr, request.param), value_text(request.id)) {
        (Some(props), Some(key)) => property_value(props, key),
        _ => Lookup::Unknown,
    }
}

/// `x.p`, for the object whose public path is known.
pub open spec fn public_path_value(expr: &Expr, request: Request) -> Option<Value> {
    match (expr, request.public_path) {
        (Expr::Member(member), Some((anchor, path))) => if path_object(member) == Some(anchor) {
            Some(Value::Text(path))
        } else {
            None
        },
        _ => None,
    }
}

/// The value that an expression has in a call of a filename function. Nothing
/// where the value is not made of literal texts: where a table lacks the
/// chunk id or inherits a property for it, where numbers are added up, and in
/// any other expression.
pub open spec fn evaluated(expr: &Expr, request: Request) -> Option<Value>
    decreases expr, 0nat,
{
    match expr {
        Expr::Paren(inner) => evaluated(inner, request),
        Expr::Lit(Lit::Str(Some(text))) => Some(Value::Text(text@)),
        Expr::Ident(ident) => if ident.binding() == request.param {
            Some(request.id)
        } else {
            None
        },
        Expr::Bin(bin) => match bin.op {
            BinaryOp::Add => match (
                evaluated(&bin.left, request),
                evaluated(&bin.right, request),
            ) {
                (Some(a), Some(b)) => sum(a, b),
                _ => None,
            },
            BinaryOp::LogicalOr => if is_ident_of(&bin.right, request.param) {
                match looked_up(&bin.left, request) {
                    Lookup::Found(value) => if is_truthy(value) {
                        Some(value)
                    } else {
                        Some(request.id)
                    },
                    Lookup::Missing => Some(request.id),
                    Lookup::Unknown => None,
                }
            } else {
                None
            },
            _ => None,
        },
        Expr::Member(_) => match public_path_value(expr, request) {
            Some(value) => Some(value),
            None => match looked_up(expr, request) {
                Lookup::Found(value) => Some(value),
                _ => None,
            },
        },
        Expr::Tpl(tpl) => match tpl_text(tpl, request, tpl.quasis@.len()) {
            Some(text) => Some(Value::Text(text)),
            None => None,
        },
        _ => None,
    }
}

/// The text that the first `n` literal parts of a template literal have in a
/// call, each with the expression that follows it.
pub open spec fn tpl_text(tpl: &Tpl, request: Request, n: nat) -> Option<Seq<char>>
    decreases tpl, n,
{
    if n == 0 || n > tpl.quasis@.len() {
        Some(Seq::empty())
    } else {
        match (tpl_text(tpl, request, (n - 1) as nat), tpl.quasis@[n - 1]) {
            (Some(before), Some(cooked)) => if n <= tpl.exprs@.len() {
                match evaluated(&tpl.exprs@[n - 1], request) {
                    Some(value) => match value_text(value) {
                        Some(text) => Some(before + cooked@ + text),
                        None => None,
                    },
                    None => None,
                }
            } else {
                Some(before + cooked@)
            },
            _ => None,
        }
    }
}

/// The text of a value that may be absent.
pub open spec fn text_of(value: Option<Value>) -> Option<Seq<char>> {
    match value {
        Some(value) => value_text(value),
        None => None,
    }
}

// ---------------------------------------------------------------------------
// Laws
// ---------------------------------------------------------------------------

/// The text of an entry in a table with or without a fallback to the key.
spec fn entry_text(value: Value, key: Seq<char>, fallback: bool) -> Option<Seq<char>> {
    if fallback && !is_truthy(value) {
        Some(key)
    } else {
        value_text(value)
    }
}

proof fn lemma_entry_value(props: &Vec<Prop>, n: nat, key: Seq<char>, fallback: bool)
    requires
        n <= props@.len(),
        object_map(props, n, fallback) is Some,
    ensures
        match entry_value(props, n, key) {
            Lookup::Found(value) => {
                let map = object_map(props, n, fallback)->0;
                &&& map.contains_key(key)
                &&& entry_text(value, key, fallback) == Some(map[key])
                &&& value_text(value) is Some
            },
            Lookup::Missing => !object_map(props, n, fallback)->0.contains_key(key),
            Lookup::Unknown => false,
        },
    decreases n,
{
    if n > 0 {
        lemma_entry_value(props, (n - 1) as nat, key, fallback);
        match &props@[n - 1] {
            Prop::KeyValue(key_value) => {
                assert(match literal_value(&key_value.value) {
                    Some(value) => value_text(value) == literal_text(&key_value.value)
                        && is_truthy(value) == !is_falsy(&key_value.value),
                    None => literal_text(&key_value.value) is None,
                });
            },
            Prop::Other(_) => {},
        }
    }
}

/// Every lookup table of the template has its entries as they are spelled out,
/// and a lookup of `key` reaches nothing else.
pub open spec fn own_entries(segments: Seq<SegmentView>, key: Seq<char>) -> bool {
    !has_prototype_key(segments) && !inherits(segments, key)
}

proof fn lemma_own_entries_of_parts(a: Seq<SegmentView>, b: Seq<SegmentView>, key: Seq<char>)
    requires
        own_entries(a + b, key),
    ensures
        own_entries(a, key),
        own_entries(b, key),
{
    let all = a + b;
    assert forall|i: int| 0 <= i < a.len() implies #[trigger] a[i] == all[i] by {}
    assert forall|i: int| 0 <= i < b.len() implies #[trigger] b[i] == all[a.len() + i] by {}
}

/// The values of a table of texts are texts.
proof fn lemma_entry_is_text(props: &Vec<Prop>, n: nat, key: Seq<char>)
    requires
        n <= props@.len(),
        has_only_texts(props),
    ensures
        entry_value(props, n, key) matches Lookup::Found(value) ==> value is Text,
    decreases n,
{
    if n > 0 {
        lemma_entry_is_text(props, (n - 1) as nat, key);
        assert(has_text_value(&props@[n - 1]));
    }
}

/// What is surely a text has a text for its value.
proof fn lemma_is_text(expr: &Expr, request: Request)
    requires
        is_text(expr, request.param),
    ensures
        evaluated(expr, request) matches Some(value) ==> value is Text,
    decreases expr,
{
    match expr {
        Expr::Paren(inner) => lemma_is_text(inner, request),
        Expr::Member(_) => match (
            lookup_props(expr, request.param),
            value_text(request.id),
        ) {
            (Some(props), Some(key)) => lemma_entry_is_text(props, props@.len(), key),
            _ => {},
        },
        _ => {},
    }
}

proof fn lemma_lookup(expr: &Expr, request: Request, key: Seq<char>, fallback: bool)
    requires
        value_text(request.id) == Some(key),
        lookup_map(expr, request.param, fallback) is Some,
        ({
            let table = SegmentView::Table {
                entries: lookup_map(expr, request.param, fallback)->0,
                fallback,
            };
            own_entries(seq![table], key)
        }),
    ensures
        match looked_up(expr, request) {
            Lookup::Found(value) => lookup_map(expr, request.param, fallback)->0.contains_key(key)
                && entry_text(value, key, fallback) == Some(
                lookup_map(expr, request.param, fallback)->0[key],
            ) && value_text(value) is Some,
            Lookup::Missing => !lookup_map(expr, request.param, fallback)->0.contains_key(key),
            Lookup::Unknown => false,
        },
{
    let props = lookup_props(expr, request.param)->0;
    let entries = lookup_map(expr, request.param, fallback)->0;
    let segments = seq![SegmentView::Table { entries, fallback }];
    assert(segments[0] is Table);
    assert(table_has(segments[0], key) == entries.contains_key(key));
    assert(table_has(segments[0], "__proto__"@) == entries.contains_key("__proto__"@));
    lemma_entry_value(props, props@.len(), key, fallback);
}

proof fn lemma_one_rendered(segment: SegmentView, key: Seq<char>)
    ensures
        rendered_url(seq![segment], key) == segment_text(segment, key),
{
    let segments = seq![segment];
    assert(segments.drop_last() =~= Seq::<SegmentView>::empty());
    assert(segments.last() == segment);
    assert(rendered_url(segments.drop_last(), key) == Some(Seq::<char>::empty()));
    match segment_text(segment, key) {
        Some(text) => {
            assert(Seq::<char>::empty() + text =~= text);
        },
        None => {},
    }
}

/// A literal template whose sums are concatenations renders the text of the
/// value that the expression has in a call, and nothing where the expression
/// has no such value. Lookups that reach what the tables inherit are left out.
pub proof fn law_template_renders_the_value(expr: &Expr, request: Request, key: Seq<char>)
    requires
        value_text(request.id) == Some(key),
        template_of(expr, request.param) is Some,
        only_concatenates(expr, request.param),
        own_entries(template_of(expr, request.param)->0, key),
    ensures
        rendered_url(template_of(expr, request.param)->0, key) == text_of(evaluated(expr, request)),
        evaluated(expr, request) is Some ==> text_of(evaluated(expr, request)) is Some,
    decreases expr, 0nat,
{
    let segments = template_of(expr, request.param)->0;
    match expr {
        Expr::Paren(inner) => law_template_renders_the_value(inner, request, key),
        Expr::Lit(_) => lemma_one_rendered(segments[0], key),
        Expr::Ident(_) => lemma_one_rendered(segments[0], key),
        Expr::Bin(bin) => match bin.op {
            BinaryOp::Add => {
                let left = template_of(&bin.left, request.param)->0;
                let right = template_of(&bin.right, request.param)->0;
                lemma_own_entries_of_parts(left, right, key);
                law_template_renders_the_value(&bin.left, request, key);
                law_template_renders_the_value(&bin.right, request, key);
                law_rendering_of_parts(left, right, key);
                if is_text(&bin.left, request.param) {
                    lemma_is_text(&bin.left, request);
                } else {
                    lemma_is_text(&bin.right, request);
                }
            },
            BinaryOp::LogicalOr => {
                lemma_lookup(&bin.left, request, key, true);
                lemma_one_rendered(segments[0], key);
            },
            _ => {},
        },
        Expr::Member(_) => {
            lemma_lookup(expr, request, key, false);
            lemma_one_rendered(segments[0], key);
            assert(public_path_value(expr, request) is None);
        },
        Expr::Tpl(tpl) => lemma_tpl_renders(tpl, request, key, tpl.quasis@.len()),
        _ => {},
    }
}

proof fn lemma_part_concatenates(tpl: &Tpl, param: Binding, i: nat, n: nat)
    requires
        0 < i <= n <= tpl.exprs@.len(),
        tpl_only_concatenates(tpl, param, n),
    ensures
        only_concatenates(&tpl.exprs@[i - 1], param),
    decreases n,
{
    if i < n {
        lemma_part_concatenates(tpl, param, i, (n - 1) as nat);
    }
}

proof fn lemma_tpl_renders(tpl: &Tpl, request: Request, key: Seq<char>, n: nat)
    requires
        n <= tpl.quasis@.len(),
        value_text(request.id) == Some(key),
        tpl_template(tpl, request.param, n) is Some,
        tpl_only_concatenates(tpl, request.param, tpl.exprs@.len()),
        own_entries(tpl_template(tpl, request.param, n)->0, key),
    ensures
        rendered_url(tpl_template(tpl, request.param, n)->0, key) == tpl_text(tpl, request, n),
    decreases tpl, n,
{
    if n > 0 {
        let before = tpl_template(tpl, request.param, (n - 1) as nat);
        let cooked = tpl.quasis@[n - 1];
        let literal = match cooked {
            Some(text) => one_segment(SegmentView::Lit(text@)),
            None => None,
        };
        let head = joined(before, literal);
        let part = if n <= tpl.exprs@.len() {
            template_of(&tpl.exprs@[n - 1], request.param)
        } else {
            Some(Seq::empty())
        };
        lemma_own_entries_of_parts(head->0, part->0, key);
        lemma_own_entries_of_parts(before->0, literal->0, key);
        lemma_tpl_renders(tpl, request, key, (n - 1) as nat);
        lemma_one_rendered(SegmentView::Lit(cooked->0@), key);
        law_rendering_of_parts(before->0, literal->0, key);
        if n <= tpl.exprs@.len() {
            let last = &tpl.exprs@[n - 1];
            lemma_part_concatenates(tpl, request.param, n, tpl.exprs@.len());
            law_template_renders_the_value(last, request, key);
            law_rendering_of_parts(head->0, template_of(last, request.param)->0, key);
        } else {
            assert(head->0 + Seq::<SegmentView>::empty() =~= head->0);
        }
    }
}

/// The value that a filename function returns for a chunk id. Neither an async
/// function nor a generator returns the value of its body.
pub open spec fn returned_value(function: &Expr, id: Value) -> Option<Value> {
    match filename_fn_shape(function) {
        Some((param, body)) => if is_plain_function(function) {
            evaluated(body, Request { param, id, public_path: None })
        } else {
            None
        },
        None => None,
    }
}

/// The template of a filename function renders what the function returns, and
/// nothing where the function returns no literal text. Lookups that reach what
/// the tables inherit are left out.
pub proof fn law_filename_function_returns_the_url(function: &Expr, id: Value, key: Seq<char>)
    requires
        value_text(id) == Some(key),
        filename_template(function) is Some,
        !inherits(filename_template(function)->0, key),
    ensures
        rendered_url(filename_template(function)->0, key) == text_of(returned_value(function, id)),
{
    let (param, body) = filename_fn_shape(function)->0;
    law_template_renders_the_value(body, Request { param, id, public_path: None }, key);
}

/// Each URL that is enumerated for a webpack 5 runtime is what the runtime's
/// own filename function returns for the chunk id, be it a text or a number.
pub proof fn law_urls_are_what_the_runtime_requests(
    enumeration: ChunkEnumerationView,
    module: &Module,
    runtime: Binding,
    unresolved_mark: Mark,
    k: int,
    i: int,
    id: Value,
)
    requires
        is_webpack5_runtime(module_sites(module), runtime),
        is_webpack5_enumeration(enumeration, module, runtime, unresolved_mark),
        0 <= k < enumeration.assets.len(),
        0 <= i < enumeration.assets[k].urls.len(),
        value_text(id) == Some(enumeration.assets[k].urls[i].chunk_id),
    ensures
        text_of(returned_value(filename_function(module, runtime, k), id)) == Some(
            enumeration.assets[k].urls[i].url,
        ),
{
    let url = enumeration.assets[k].urls[i];
    assert(enumeration.assets[k].urls[i] == url);
    law_filename_function_returns_the_url(
        filename_function(module, runtime, k),
        id,
        url.chunk_id,
    );
}

/// The function that a webpack 5 runtime asks for the file name of an asset:
/// `.u` for the first one, `.miniCssF` for the second.
pub open spec fn filename_function<'a>(module: &'a Module, runtime: Binding, k: int) -> &'a Expr {
    values_written(
        module_sites(module),
        runtime,
        if k == 0 {
            "u"@
        } else {
            "miniCssF"@
        },
    )[0]->0
}

/// What a script source function of webpack 4 returns is the public path
/// followed by the URL; where the template renders no URL, it returns no
/// literal text. Lookups that reach what the tables inherit are left out.
pub proof fn law_script_src_returns_path_and_url(
    body: &Expr,
    request: Request,
    anchor: Binding,
    path: Seq<char>,
    segments: Seq<SegmentView>,
    key: Seq<char>,
)
    requires
        value_text(request.id) == Some(key),
        request.public_path == Some((anchor, path)),
        anchored(body, request.param) == Some((anchor, Some(segments))),
        only_concatenates(body, request.param),
        own_entries(segments, key),
    ensures
        evaluated(body, request) == (match rendered_url(segments, key) {
            Some(url) => Some(Value::Text(path + url)),
            None => None,
        }),
    decreases body,
{
    match body {
        Expr::Paren(inner) => {
            law_script_src_returns_path_and_url(inner, request, anchor, path, segments, key);
        },
        Expr::Bin(bin) => {
            let left = anchored(&bin.left, request.param)->0;
            let front = left.1->0;
            let back = template_of(&bin.right, request.param)->0;
            lemma_own_entries_of_parts(front, back, key);
            law_script_src_returns_path_and_url(&bin.left, request, anchor, path, front, key);
            law_template_renders_the_value(&bin.right, request, key);
            law_rendering_of_parts(front, back, key);
            match (rendered_url(front, key), rendered_url(back, key)) {
                (Some(x), Some(y)) => {
                    assert((path + x) + y =~= path + (x + y));
                },
                _ => {},
            }
        },
        _ => {
            assert(path + Seq::<char>::empty() =~= path);
        },
    }
}

/// The parameter and the returned expression of the function at a site, if a
/// call returns the value of that expression.
pub open spec fn function_at<'a>(site: Site<'a>) -> Option<(Binding, &'a Expr)> {
    match site {
        Site::FnDecl(decl) => if decl.function.is_async || decl.function.is_generator {
            None
        } else {
            function_shape(&decl.function)
        },
        Site::FnExpr(function) => if function.is_async || function.is_generator {
            None
        } else {
            function_shape(function)
        },
        Site::Arrow(arrow) => if arrow.is_async || arrow.is_generator {
            None
        } else {
            arrow_shape(arrow)
        },
        _ => None,
    }
}

/// Each URL that is enumerated for a webpack 4 runtime is what every one of
/// its script source functions returns after the public path.
pub proof fn law_script_urls_are_what_the_runtime_requests(
    enumeration: ChunkEnumerationView,
    module: &Module,
    src: ScriptSrcView,
    unresolved_mark: Mark,
    i: int,
    at: int,
    id: Value,
    path: Seq<char>,
)
    requires
        is_webpack4_enumeration(enumeration, module, src, unresolved_mark),
        0 <= i < enumeration.assets[0].urls.len(),
        value_text(id) == Some(enumeration.assets[0].urls[i].chunk_id),
        0 <= at < module_sites(module).len(),
        script_src_at(module_sites(module)[at]) == Some(src),
    ensures
        function_at(module_sites(module)[at]) is Some,
        ({
            let (param, body) = function_at(module_sites(module)[at])->0;
            evaluated(body, Request { param, id, public_path: Some((src.0, path)) }) == Some(
                Value::Text(path + enumeration.assets[0].urls[i].url),
            )
        }),
{
    let (param, body) = function_at(module_sites(module)[at])->0;
    let url = enumeration.assets[0].urls[i];
    assert(enumeration.assets[0].urls[i] == url);
    law_script_src_returns_path_and_url(
        body,
        Request { param, id, public_path: Some((src.0, path)) },
        src.0,
        path,
        src.1->0,
        url.chunk_id,
    );
}

} // verus!
