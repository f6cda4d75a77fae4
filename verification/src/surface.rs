//! Runtime-shaped facts of a whole module.

use vstd::prelude::*;

use crate::assets::texts;
use crate::ast::{
    is_ident_of, member_prop_is, names_prop, strip_parens, stripped, ArrowExpr, AssignExpr,
    AssignOp, AssignTarget, BinaryOp, Binding, CallExpr, Callee, Expr, ExprOrSpread, FnDecl,
    Function, Id, Ident, Lit, Mark, MemberExpr, MemberProp, Module, Pat, VarDeclarator,
};
use crate::runtime_properties::{is_runtime_property, is_webpack_runtime_property};
use crate::template::{
    arrow_parts, arrow_shape, function_parts, function_shape, join, joined, literal_string,
    literal_text, parse_segments, parts_view, path_object, prove_template, proven_template,
    public_path_object, segments_view, template_of, template_view, Segment, SegmentView,
};
use crate::text::text_eq;
use crate::walk::{module_sites, walk_module, Site};

verus! {

// ---------------------------------------------------------------------------
// Function bindings
// ---------------------------------------------------------------------------

/// `expr` is a function or an arrow function.
pub open spec fn is_function_expr(expr: &Expr) -> bool {
    match stripped(expr) {
        Expr::Fn(_) => true,
        Expr::Arrow(_) => true,
        _ => false,
    }
}

/// Whether `expr` is a function or an arrow function.
pub fn is_function_value(expr: &Expr) -> (r: bool)
    ensures
        r == is_function_expr(expr),
{
    match strip_parens(expr) {
        Expr::Fn(_) => true,
        Expr::Arrow(_) => true,
        _ => false,
    }
}

/// The binding that a site binds to a function, by a declaration or by a
/// function initializer.
pub open spec fn function_bound_at(site: Site) -> Option<Binding> {
    match site {
        Site::FnDecl(decl) => Some(decl.ident.binding()),
        Site::VarDeclarator(declarator) => match (&declarator.name, &declarator.init) {
            (Pat::Ident(ident), Some(init)) => if is_function_expr(init) {
                Some(ident.binding())
            } else {
                None
            },
            _ => None,
        },
        _ => None,
    }
}

/// Some site binds `id` to a function.
pub open spec fn is_function_name(sites: Seq<Site>, id: Binding) -> bool {
    exists|i: int| 0 <= i < sites.len() && function_bound_at(#[trigger] sites[i]) == Some(id)
}

// ---------------------------------------------------------------------------
// Property assignments
// ---------------------------------------------------------------------------

/// The object and the name of the target `object.name`, for a plain identifier
/// `object`.
pub open spec fn named_property(target: &AssignTarget) -> Option<(Binding, Seq<char>)> {
    match target {
        AssignTarget::Member(member) => match (&*member.obj, &member.prop) {
            (Expr::Ident(object), MemberProp::Ident(name)) => Some((object.binding(), name@)),
            _ => None,
        },
        _ => None,
    }
}

/// The object and the name of the property that a target writes. Parentheses
/// do not matter.
pub open spec fn written_property(target: &AssignTarget) -> Option<(Binding, Seq<char>)>
    decreases target,
{
    match target {
        AssignTarget::Paren(inner) => written_property(inner),
        AssignTarget::Member(member) => match (stripped(&member.obj), &member.prop) {
            (Expr::Ident(object), MemberProp::Ident(name)) => Some((object.binding(), name@)),
            _ => None,
        },
        _ => None,
    }
}

/// A write of `object.name`. The value is known of a plain
/// `object.name = value`; any other write may leave anything there.
pub struct PropertyWrite<'a> {
    pub object: Binding,
    pub name: Seq<char>,
    pub value: Option<&'a Expr>,
}

/// The property that a site writes on a plain identifier.
pub open spec fn property_written_at<'a>(site: Site<'a>) -> Option<PropertyWrite<'a>> {
    match site {
        Site::Assign(assign) => match written_property(&assign.left) {
            Some((object, name)) => Some(
                PropertyWrite {
                    object,
                    name,
                    value: if assign.op == AssignOp::Assign && named_property(
                        &assign.left,
                    ) is Some {
                        Some(&assign.right)
                    } else {
                        None
                    },
                },
            ),
            None => None,
        },
        Site::Write(target) => match written_property(target) {
            Some((object, name)) => Some(PropertyWrite { object, name, value: None }),
            None => None,
        },
        _ => None,
    }
}

/// The values written to the property `name` of `object`, in the order of the
/// sites; `None` for a value that is not known.
pub open spec fn values_written<'a>(
    sites: Seq<Site<'a>>,
    object: Binding,
    name: Seq<char>,
) -> Seq<Option<&'a Expr>>
    decreases sites.len(),
{
    if sites.len() == 0 {
        Seq::empty()
    } else {
        let before = values_written(sites.drop_last(), object, name);
        match property_written_at(sites.last()) {
            Some(write) => if write.object == object && write.name == name {
                before.push(write.value)
            } else {
                before
            },
            None => before,
        }
    }
}

/// Some site assigns the property `name` of `object`, and `name` belongs to
/// webpack's runtime without naming a chunk filename function.
pub open spec fn has_runtime_property(sites: Seq<Site>, object: Binding, name: Seq<char>) -> bool {
    &&& is_runtime_property(name)
    &&& name != "u"@
    &&& name != "miniCssF"@
    &&& exists|i: int| 0 <= i < sites.len() && assigns(#[trigger] sites[i], object, name)
}

/// The site is an assignment to `object.name`.
pub open spec fn assigns(site: Site, object: Binding, name: Seq<char>) -> bool {
    match site {
        Site::Assign(assign) => named_property(&assign.left) == Some((object, name)),
        _ => false,
    }
}

/// The object and the name of the target `object.name`.
fn target_property<'b>(target: &'b AssignTarget) -> (r: Option<(&'b Ident, &'b String)>)
    ensures
        match r {
            Some((object, name)) => named_property(target) == Some((object.binding(), name@)),
            None => named_property(target) is None,
        },
{
    match target {
        AssignTarget::Member(member) => match (&*member.obj, &member.prop) {
            (Expr::Ident(object), MemberProp::Ident(name)) => Some((object, name)),
            _ => None,
        },
        _ => None,
    }
}

/// The object and the name of the property that a target writes.
fn target_write<'b>(target: &'b AssignTarget) -> (r: Option<(&'b Ident, &'b String)>)
    ensures
        match r {
            Some((object, name)) => written_property(target) == Some((object.binding(), name@)),
            None => written_property(target) is None,
        },
    decreases target,
{
    match target {
        AssignTarget::Paren(inner) => target_write(inner),
        AssignTarget::Member(member) => match (strip_parens(&member.obj), &member.prop) {
            (Expr::Ident(object), MemberProp::Ident(name)) => Some((object, name)),
            _ => None,
        },
        _ => None,
    }
}

// ---------------------------------------------------------------------------
// Chunk load sites
// ---------------------------------------------------------------------------

/// The member expression that a call calls.
pub open spec fn called_member<'a>(call: &'a CallExpr) -> Option<&'a MemberExpr> {
    match &call.callee {
        Callee::Expr(callee) => match stripped(callee) {
            Expr::Member(member) => Some(member),
            _ => None,
        },
        _ => None,
    }
}

fn callee_member<'a>(call: &'a CallExpr) -> (r: Option<&'a MemberExpr>)
    ensures
        r == called_member(call),
{
    match &call.callee {
        Callee::Expr(callee) => match strip_parens(callee) {
            Expr::Member(member) => Some(member),
            _ => None,
        },
        _ => None,
    }
}

/// The runtime and the chunk id of `X.e(<literal id>)`.
pub open spec fn ensured_chunk(expr: &Expr) -> Option<(Binding, Seq<char>)> {
    match expr {
        Expr::Call(call) => match called_member(call) {
            Some(member) => match stripped(&member.obj) {
                Expr::Ident(runtime) => if names_prop(&member.prop, "e"@) && call.args@.len() == 1
                    && !call.args@[0].spread {
                    match literal_text(&call.args@[0].expr) {
                        Some(id) => Some((runtime.binding(), id)),
                        None => None,
                    }
                } else {
                    None
                },
                _ => None,
            },
            None => None,
        },
        _ => None,
    }
}

/// Match `X.e(<literal id>)` and return the runtime and the id.
pub fn ensure_call_literal_id(expr: &Expr) -> (r: Option<(Id, String)>)
    ensures
        match r {
            Some((runtime, id)) => ensured_chunk(expr) == Some((runtime@, id@)),
            None => ensured_chunk(expr) is None,
        },
{
    let call = match expr {
        Expr::Call(call) => call,
        _ => {
            return None;
        },
    };
    let member = match callee_member(call) {
        Some(member) => member,
        None => {
            return None;
        },
    };
    if !member_prop_is(&member.prop, "e") {
        return None;
    }
    let runtime = match strip_parens(&member.obj) {
        Expr::Ident(runtime) => runtime,
        _ => {
            return None;
        },
    };
    if call.args.len() != 1 || call.args[0].spread {
        return None;
    }
    match literal_string(&call.args[0].expr) {
        Some(id) => Some((runtime.to_id(), id)),
        None => None,
    }
}

/// The runtime identifier of `runtime` or `runtime.t`.
pub open spec fn continued_runtime<'a>(expr: &'a Expr) -> Option<&'a Ident> {
    match stripped(expr) {
        Expr::Ident(runtime) => Some(runtime),
        Expr::Member(member) => if names_prop(&member.prop, "t"@) {
            match stripped(&member.obj) {
                Expr::Ident(runtime) => Some(runtime),
                _ => None,
            }
        } else {
            None
        },
        _ => None,
    }
}

/// The runtime of a `runtime.bind(...)` or `runtime.t.bind(...)`
/// continuation whose first argument is `null` or the runtime itself.
pub open spec fn bound_runtime(expr: &Expr) -> Option<Binding> {
    match stripped(expr) {
        Expr::Call(call) => match called_member(call) {
            Some(bind) => match continued_runtime(&bind.obj) {
                Some(runtime) => if names_prop(&bind.prop, "bind"@) && call.args@.len() > 0
                    && !call.args@[0].spread && (*stripped(&call.args@[0].expr) == Expr::Lit(
                    Lit::Null,
                ) || is_ident_of(&call.args@[0].expr, runtime.binding())) {
                    Some(runtime.binding())
                } else {
                    None
                },
                None => None,
            },
            None => None,
        },
        _ => None,
    }
}

/// Match webpack's generated `.then(runtime.bind(...))` and
/// `.then(runtime.t.bind(...))` continuations. Correlating the continuation
/// with the `.e(id)` receiver keeps authored `client.e(id).then(...)` calls
/// from becoming invented chunk ids while still accepting factory-local
/// runtime parameters.
pub fn bound_runtime_id(expr: &Expr) -> (r: Option<Id>)
    ensures
        match r {
            Some(runtime) => bound_runtime(expr) == Some(runtime@),
            None => bound_runtime(expr) is None,
        },
{
    let call = match strip_parens(expr) {
        Expr::Call(call) => call,
        _ => {
            return None;
        },
    };
    let bind = match callee_member(call) {
        Some(bind) => bind,
        None => {
            return None;
        },
    };
    if !member_prop_is(&bind.prop, "bind") {
        return None;
    }
    let runtime = match strip_parens(&bind.obj) {
        Expr::Ident(runtime) => runtime,
        Expr::Member(member) => {
            if !member_prop_is(&member.prop, "t") {
                return None;
            }
            match strip_parens(&member.obj) {
                Expr::Ident(runtime) => runtime,
                _ => {
                    return None;
                },
            }
        },
        _ => {
            return None;
        },
    };
    if call.args.len() == 0 || call.args[0].spread {
        return None;
    }
    let id = runtime.to_id();
    match strip_parens(&call.args[0].expr) {
        Expr::Lit(Lit::Null) => Some(id),
        Expr::Ident(this_value) => if this_value.to_id().same(&id) {
            Some(id)
        } else {
            None
        },
        _ => None,
    }
}

/// The chunk id of an element `X.e(<literal id>)` for the given runtime.
pub open spec fn element_chunk(elem: &Option<ExprOrSpread>, runtime: Binding) -> Option<Seq<char>> {
    match elem {
        Some(element) => if element.spread {
            None
        } else {
            match ensured_chunk(stripped(&element.expr)) {
                Some((receiver, id)) => if receiver == runtime {
                    Some(id)
                } else {
                    None
                },
                None => None,
            }
        },
        None => None,
    }
}

/// The chunk ids of the first `n` elements, if every one of them loads a
/// chunk through the given runtime.
pub open spec fn elements_chunks(
    elems: &Vec<Option<ExprOrSpread>>,
    runtime: Binding,
    n: nat,
) -> Option<Seq<Seq<char>>>
    decreases n,
{
    if n == 0 || n > elems@.len() {
        Some(Seq::empty())
    } else {
        match (
            elements_chunks(elems, runtime, (n - 1) as nat),
            element_chunk(&elems@[n - 1], runtime),
        ) {
            (Some(ids), Some(id)) => Some(ids.push(id)),
            _ => None,
        }
    }
}

proof fn lemma_elements_chunks_fail(
    elems: &Vec<Option<ExprOrSpread>>,
    runtime: Binding,
    i: nat,
    n: nat,
)
    requires
        i <= n <= elems@.len(),
        elements_chunks(elems, runtime, i) is None,
    ensures
        elements_chunks(elems, runtime, n) is None,
    decreases n,
{
    if i < n {
        lemma_elements_chunks_fail(elems, runtime, i, (n - 1) as nat);
    }
}

/// The elements of the array in `Promise.all([...])`, for the global
/// `Promise`.
pub open spec fn promise_all_elements<'a>(
    expr: &'a Expr,
    unresolved_mark: Mark,
) -> Option<&'a Vec<Option<ExprOrSpread>>> {
    match stripped(expr) {
        Expr::Call(call) => match called_member(call) {
            Some(member) => match stripped(&member.obj) {
                Expr::Ident(promise) => if promise.sym@ == "Promise"@ && promise.outer
                    == unresolved_mark && names_prop(&member.prop, "all"@) && call.args@.len() == 1
                    && !call.args@[0].spread {
                    match stripped(&call.args@[0].expr) {
                        Expr::Array(elems) => Some(elems),
                        _ => None,
                    }
                } else {
                    None
                },
                _ => None,
            },
            None => None,
        },
        _ => None,
    }
}

fn promise_all_array<'a>(expr: &'a Expr, unresolved_mark: Mark) -> (r: Option<
    &'a Vec<Option<ExprOrSpread>>,
>)
    ensures
        r == promise_all_elements(expr, unresolved_mark),
{
    let call = match strip_parens(expr) {
        Expr::Call(call) => call,
        _ => {
            return None;
        },
    };
    let member = match callee_member(call) {
        Some(member) => member,
        None => {
            return None;
        },
    };
    let promise = match strip_parens(&member.obj) {
        Expr::Ident(promise) => promise,
        _ => {
            return None;
        },
    };
    if !text_eq(promise.sym.as_str(), "Promise") || promise.outer != unresolved_mark
        || !member_prop_is(&member.prop, "all") {
        return None;
    }
    if call.args.len() != 1 || call.args[0].spread {
        return None;
    }
    match strip_parens(&call.args[0].expr) {
        Expr::Array(elems) => Some(elems),
        _ => None,
    }
}

/// The chunk ids that a call loads: `X.e(id).then(X.bind(...))`, or
/// `Promise.all([X.e(a), ...]).then(X.bind(...))`. The continuation uses the
/// same binding as every `.e` receiver; otherwise there are none.
pub open spec fn loaded_chunks(call: &CallExpr, unresolved_mark: Mark) -> Seq<Seq<char>> {
    match called_member(call) {
        Some(then) => if names_prop(&then.prop, "then"@) && call.args@.len() > 0
            && !call.args@[0].spread {
            match bound_runtime(&call.args@[0].expr) {
                Some(runtime) => match ensured_chunk(stripped(&then.obj)) {
                    Some((receiver, id)) => if receiver == runtime {
                        seq![id]
                    } else {
                        Seq::empty()
                    },
                    None => match promise_all_elements(&then.obj, unresolved_mark) {
                        Some(elems) => match elements_chunks(elems, runtime, elems@.len()) {
                            Some(ids) => ids,
                            None => Seq::empty(),
                        },
                        None => Seq::empty(),
                    },
                },
                None => Seq::empty(),
            }
        } else {
            Seq::empty()
        },
        None => Seq::empty(),
    }
}

/// Some site loads the chunk `id`.
pub open spec fn is_loaded(sites: Seq<Site>, unresolved_mark: Mark, id: Seq<char>) -> bool {
    exists|i: int|
        0 <= i < sites.len() && match #[trigger] sites[i] {
            Site::Call(call) => loaded_chunks(call, unresolved_mark).contains(id),
            _ => false,
        }
}

/// The chunks that the sites load.
pub open spec fn loaded_ids(sites: Seq<Site>, unresolved_mark: Mark) -> Set<Seq<char>> {
    Set::new(|id: Seq<char>| is_loaded(sites, unresolved_mark, id))
}

// ---------------------------------------------------------------------------
// Script source functions
// ---------------------------------------------------------------------------

/// A script source function: the object whose public path it begins with,
/// and the template that follows; a dynamic template is `None`.
pub type ScriptSrcView = (Binding, Option<Seq<SegmentView>>);

/// The object and the rest of a concatenation that begins with `X.p`.
pub open spec fn anchored(expr: &Expr, param: Binding) -> Option<ScriptSrcView>
    decreases expr,
{
    match expr {
        Expr::Paren(inner) => anchored(inner, param),
        Expr::Bin(bin) => if bin.op == BinaryOp::Add {
            match anchored(&bin.left, param) {
                Some((anchor, template)) => Some(
                    (anchor, joined(template, template_of(&bin.right, param))),
                ),
                None => None,
            }
        } else {
            None
        },
        Expr::Member(member) => match path_object(member) {
            Some(anchor) => Some((anchor, Some(Seq::empty()))),
            None => None,
        },
        _ => None,
    }
}

/// What a function of the given shape is as a script source function: one
/// parameter, and a single `return X.p + <template>`. An async function or a
/// generator is not plain, and has a dynamic template.
pub open spec fn script_src(shape: Option<(Binding, &Expr)>, plain: bool) -> Option<
    ScriptSrcView,
> {
    match shape {
        Some((param, body)) => match body {
            Expr::Bin(_) => match anchored(body, param) {
                Some((anchor, template)) => Some(
                    (anchor, proven_template(template, body, param, plain)),
                ),
                None => None,
            },
            _ => None,
        },
        None => None,
    }
}

/// The script source function at a site.
pub open spec fn script_src_at(site: Site) -> Option<ScriptSrcView> {
    match site {
        Site::FnDecl(decl) => script_src(
            function_shape(&decl.function),
            !decl.function.is_async && !decl.function.is_generator,
        ),
        Site::FnExpr(function) => script_src(
            function_shape(function),
            !function.is_async && !function.is_generator,
        ),
        Site::Arrow(arrow) => script_src(
            arrow_shape(arrow),
            !arrow.is_async && !arrow.is_generator,
        ),
        _ => None,
    }
}

/// The script source functions, in the order of the sites.
pub open spec fn script_srcs(sites: Seq<Site>) -> Seq<ScriptSrcView>
    decreases sites.len(),
{
    if sites.len() == 0 {
        Seq::empty()
    } else {
        match script_src_at(sites.last()) {
            Some(src) => script_srcs(sites.drop_last()).push(src),
            None => script_srcs(sites.drop_last()),
        }
    }
}

/// A script source function, by what it is.
pub open spec fn script_src_view(src: (Id, Option<Vec<Segment>>)) -> ScriptSrcView {
    (src.0@, template_view(src.1))
}

/// A script source function that may be absent, by what it is.
pub open spec fn opt_script_src_view(src: Option<(Id, Option<Vec<Segment>>)>) -> Option<
    ScriptSrcView,
> {
    match src {
        Some(src) => Some(script_src_view(src)),
        None => None,
    }
}

fn anchored_template(expr: &Expr, param: &Id) -> (r: Option<(Id, Option<Vec<Segment>>)>)
    ensures
        opt_script_src_view(r) == anchored(expr, param@),
    decreases expr,
{
    match expr {
        Expr::Paren(inner) => anchored_template(inner, param),
        Expr::Bin(bin) => {
            if bin.op != BinaryOp::Add {
                return None;
            }
            match anchored_template(&bin.left, param) {
                Some((anchor, template)) => {
                    let rest = parse_segments(&bin.right, param);
                    Some((anchor, join(template, rest)))
                },
                None => None,
            }
        },
        Expr::Member(member) => match public_path_object(member) {
            Some(anchor) => {
                let segments: Vec<Segment> = Vec::new();
                proof {
                    assert(segments_view(segments@) =~= Seq::<SegmentView>::empty());
                }
                Some((anchor.to_id(), Some(segments)))
            },
            None => None,
        },
        _ => None,
    }
}

// ---------------------------------------------------------------------------
// Collection
// ---------------------------------------------------------------------------

/// The values listed for an object, in order.
pub open spec fn values_listed<'a>(
    writes: Seq<(Id, Option<&'a Expr>)>,
    object: Binding,
) -> Seq<Option<&'a Expr>>
    decreases writes.len(),
{
    if writes.len() == 0 {
        Seq::empty()
    } else if writes.last().0@ == object {
        values_listed(writes.drop_last(), object).push(writes.last().1)
    } else {
        values_listed(writes.drop_last(), object)
    }
}

/// The list holds `name` for `object`.
pub open spec fn lists_property(
    props: Seq<(Id, String)>,
    object: Binding,
    name: Seq<char>,
) -> bool {
    exists|i: int| 0 <= i < props.len() && (#[trigger] props[i]).0@ == object && props[i].1@ == name
}

/// The list holds the binding.
pub open spec fn lists_id(ids: Seq<Id>, id: Binding) -> bool {
    exists|i: int| 0 <= i < ids.len() && (#[trigger] ids[i])@ == id
}

/// Whether a list holds the binding.
pub fn has_binding(ids: &Vec<Id>, id: &Id) -> (r: bool)
    ensures
        r == lists_id(ids@, id@),
{
    let mut i: usize = 0;
    while i < ids.len()
        invariant
            i <= ids@.len(),
            forall|j: int| 0 <= j < i ==> (#[trigger] ids@[j])@ != id@,
        decreases ids@.len() - i,
    {
        if ids[i].same(id) {
            return true;
        }
        i = i + 1;
    }
    false
}

/// Runtime-shaped facts collected over a whole module.
pub struct RuntimeSurface<'a> {
    /// Identifiers bound to functions (declarations or function
    /// initializers).
    pub function_names: Vec<Id>,
    /// `obj.u = <expr>` assignments (webpack 5 JS chunk filename). Any other
    /// write of the property is an assignment of an unknown value.
    pub u_assignments: Vec<(Id, Option<&'a Expr>)>,
    /// `obj.miniCssF = <expr>` assignments (webpack 5 CSS chunk filename), and
    /// other writes likewise.
    pub mini_css_assignments: Vec<(Id, Option<&'a Expr>)>,
    /// Other known webpack runtime property names assigned per object.
    pub other_runtime_props: Vec<(Id, String)>,
    /// Literal ids from binding-correlated `X.e(id).then(X.bind(...))` /
    /// `X.t.bind(...)` async chunk load sites, across all scopes. Module
    /// factories receive the runtime under their own resolved parameter, so
    /// correlation is local to each generated continuation rather than to
    /// the bootstrap runtime binding.
    pub ensure_ids: Vec<String>,
    /// Functions of one parameter whose body is `return X.p + <expr>`:
    /// webpack 4's `jsonpScriptSrc` shape. Holds the anchor object and the
    /// template; dynamic templates are `None`.
    pub jsonp_script_src_fns: Vec<(Id, Option<Vec<Segment>>)>,
    pub unresolved_mark: Mark,
}

impl<'a> RuntimeSurface<'a> {
    /// The surface holds what the sites say, and nothing else.
    pub open spec fn describes(&self, sites: Seq<Site<'a>>) -> bool {
        &&& forall|id: Binding| #[trigger]
            lists_id(self.function_names@, id) <==> is_function_name(sites, id)
        &&& forall|object: Binding| #[trigger]
            values_listed(self.u_assignments@, object) == values_written(sites, object, "u"@)
        &&& forall|object: Binding| #[trigger]
            values_listed(self.mini_css_assignments@, object) == values_written(
                sites,
                object,
                "miniCssF"@,
            )
        &&& forall|object: Binding, name: Seq<char>| #[trigger]
            lists_property(self.other_runtime_props@, object, name) <==> has_runtime_property(
                sites,
                object,
                name,
            )
        &&& forall|id: Seq<char>| #[trigger]
            texts(self.ensure_ids@).contains(id) <==> is_loaded(sites, self.unresolved_mark, id)
        &&& self.srcs() == script_srcs(sites)
    }

    /// Collect the runtime-shaped facts of a module.
    pub fn collect(module: &'a Module, unresolved_mark: Mark) -> (r: RuntimeSurface<'a>)
        ensures
            r.describes(module_sites(module)),
            r.unresolved_mark == unresolved_mark,
    {
        let mut surface = RuntimeSurface::new(unresolved_mark);
        let sites = walk_module(module);
        let mut i: usize = 0;
        proof {
            assert(sites@.take(0) =~= Seq::<Site<'a>>::empty());
        }
        while i < sites.len()
            invariant
                i <= sites@.len(),
                surface.describes(sites@.take(i as int)),
                surface.unresolved_mark == unresolved_mark,
            decreases sites@.len() - i,
        {
            proof {
                assert(sites@.take(i + 1) =~= sites@.take(i as int).push(sites@[i as int]));
            }
            match &sites[i] {
                Site::FnDecl(decl) => surface.visit_fn_decl(decl),
                Site::FnExpr(function) => surface.visit_fn_expr(function),
                Site::Arrow(arrow) => surface.visit_arrow_expr(arrow),
                Site::VarDeclarator(declarator) => surface.visit_var_declarator(declarator),
                Site::Assign(assign) => surface.visit_assign_expr(assign),
                Site::Write(target) => surface.visit_write(target),
                Site::Call(call) => surface.visit_call_expr(call),
            }
            i = i + 1;
        }
        proof {
            assert(sites@.take(i as int) =~= sites@);
        }
        surface
    }

    /// The surface of no sites.
    fn new(unresolved_mark: Mark) -> (r: RuntimeSurface<'a>)
        ensures
            r.describes(Seq::empty()),
            r.unresolved_mark == unresolved_mark,
    {
        let r = RuntimeSurface {
            function_names: Vec::new(),
            u_assignments: Vec::new(),
            mini_css_assignments: Vec::new(),
            other_runtime_props: Vec::new(),
            ensure_ids: Vec::new(),
            jsonp_script_src_fns: Vec::new(),
            unresolved_mark,
        };
        proof {
            assert(r.srcs() =~= Seq::<ScriptSrcView>::empty());
            assert(texts(r.ensure_ids@) =~= Seq::<Seq<char>>::empty());
        }
        r
    }

    /// The script source functions that the surface holds.
    pub open spec fn srcs(&self) -> Seq<ScriptSrcView> {
        self.jsonp_script_src_fns@.map_values(
            |src: (Id, Option<Vec<Segment>>)| script_src_view(src),
        )
    }

    /// Record a function declaration.
    fn visit_fn_decl(&mut self, decl: &'a FnDecl)
        ensures
            forall|sites: Seq<Site<'a>>| #[trigger]
                old(self).describes(sites) ==> final(self).describes(
                    sites.push(Site::FnDecl(decl)),
                ),
            final(self).unresolved_mark == old(self).unresolved_mark,
    {
        self.function_names.push(decl.ident.to_id());
        self.collect_jsonp_script_src(
            function_parts(&decl.function),
            !decl.function.is_async && !decl.function.is_generator,
        );
        proof {
            let before = *old(self);
            let site = Site::FnDecl(decl);
            lemma_lists_id_push(before.function_names@, self.function_names@.last());
            assert forall|sites: Seq<Site<'a>>| #[trigger]
                before.describes(sites) implies self.describes(sites.push(site)) by {
                lemma_sites_push(sites, site, self.unresolved_mark);
            }
        }
    }

    /// Record a function expression. Minifiers inline webpack 4's
    /// `jsonpScriptSrc` into an immediately invoked function expression at
    /// the `script.src` assignment, so the shape is recognized wherever a
    /// function appears.
    fn visit_fn_expr(&mut self, function: &'a Function)
        ensures
            forall|sites: Seq<Site<'a>>| #[trigger]
                old(self).describes(sites) ==> final(self).describes(
                    sites.push(Site::FnExpr(function)),
                ),
            final(self).unresolved_mark == old(self).unresolved_mark,
    {
        self.collect_jsonp_script_src(
            function_parts(function),
            !function.is_async && !function.is_generator,
        );
        proof {
            let before = *old(self);
            let site = Site::FnExpr(function);
            assert forall|sites: Seq<Site<'a>>| #[trigger]
                before.describes(sites) implies self.describes(sites.push(site)) by {
                lemma_sites_push(sites, site, self.unresolved_mark);
            }
        }
    }

    /// Record an arrow function.
    fn visit_arrow_expr(&mut self, arrow: &'a ArrowExpr)
        ensures
            forall|sites: Seq<Site<'a>>| #[trigger]
                old(self).describes(sites) ==> final(self).describes(
                    sites.push(Site::Arrow(arrow)),
                ),
            final(self).unresolved_mark == old(self).unresolved_mark,
    {
        self.collect_jsonp_script_src(
            arrow_parts(arrow),
            !arrow.is_async && !arrow.is_generator,
        );
        proof {
            let before = *old(self);
            let site = Site::Arrow(arrow);
            assert forall|sites: Seq<Site<'a>>| #[trigger]
                before.describes(sites) implies self.describes(sites.push(site)) by {
                lemma_sites_push(sites, site, self.unresolved_mark);
            }
        }
    }

    /// Record a declarator.
    fn visit_var_declarator(&mut self, declarator: &'a VarDeclarator)
        ensures
            forall|sites: Seq<Site<'a>>| #[trigger]
                old(self).describes(sites) ==> final(self).describes(
                    sites.push(Site::VarDeclarator(declarator)),
                ),
            final(self).unresolved_mark == old(self).unresolved_mark,
    {
        match (&declarator.name, &declarator.init) {
            (Pat::Ident(ident), Some(init)) => {
                if is_function_value(init) {
                    self.function_names.push(ident.to_id());
                    proof {
                        lemma_lists_id_push(old(self).function_names@, self.function_names@.last());
                    }
                }
            },
            _ => {},
        }
        proof {
            let before = *old(self);
            let site = Site::VarDeclarator(declarator);
            assert forall|sites: Seq<Site<'a>>| #[trigger]
                before.describes(sites) implies self.describes(sites.push(site)) by {
                lemma_sites_push(sites, site, self.unresolved_mark);
            }
        }
    }

    /// Record an assignment.
    fn visit_assign_expr(&mut self, assign: &'a AssignExpr)
        ensures
            forall|sites: Seq<Site<'a>>| #[trigger]
                old(self).describes(sites) ==> final(self).describes(
                    sites.push(Site::Assign(assign)),
                ),
            final(self).unresolved_mark == old(self).unresolved_mark,
    {
        let named = target_property(&assign.left);
        let value: Option<&'a Expr> = if assign.op == AssignOp::Assign && named.is_some() {
            Some(&assign.right)
        } else {
            None
        };
        match target_write(&assign.left) {
            Some((object, name)) => self.record_write(object, name, value),
            None => {},
        }
        match named {
            Some((object, name)) => {
                if !text_eq(name.as_str(), "u") && !text_eq(name.as_str(), "miniCssF")
                    && is_webpack_runtime_property(name.as_str()) {
                    self.other_runtime_props.push((object.to_id(), name.clone()));
                    proof {
                        lemma_lists_property_push(
                            old(self).other_runtime_props@,
                            self.other_runtime_props@.last(),
                        );
                    }
                }
            },
            None => {},
        }
        proof {
            let before = *old(self);
            let site = Site::Assign(assign);
            assert forall|sites: Seq<Site<'a>>| #[trigger]
                before.describes(sites) implies self.describes(sites.push(site)) by {
                lemma_sites_push(sites, site, self.unresolved_mark);
            }
        }
    }

    /// Record a write without a value of its own.
    fn visit_write(&mut self, target: &'a AssignTarget)
        ensures
            forall|sites: Seq<Site<'a>>| #[trigger]
                old(self).describes(sites) ==> final(self).describes(
                    sites.push(Site::Write(target)),
                ),
            final(self).unresolved_mark == old(self).unresolved_mark,
    {
        match target_write(target) {
            Some((object, name)) => self.record_write(object, name, None),
            None => {},
        }
        proof {
            let before = *old(self);
            let site = Site::Write(target);
            assert forall|sites: Seq<Site<'a>>| #[trigger]
                before.describes(sites) implies self.describes(sites.push(site)) by {
                lemma_sites_push(sites, site, self.unresolved_mark);
            }
        }
    }

    /// Record a write of a chunk filename function.
    fn record_write(&mut self, object: &Ident, name: &String, value: Option<&'a Expr>)
        ensures
            forall|other: Binding| #[trigger]
                values_listed(final(self).u_assignments@, other) == (if object.binding() == other
                    && name@ == "u"@ {
                    values_listed(old(self).u_assignments@, other).push(value)
                } else {
                    values_listed(old(self).u_assignments@, other)
                }),
            forall|other: Binding| #[trigger]
                values_listed(final(self).mini_css_assignments@, other) == (if object.binding()
                    == other && name@ == "miniCssF"@ {
                    values_listed(old(self).mini_css_assignments@, other).push(value)
                } else {
                    values_listed(old(self).mini_css_assignments@, other)
                }),
            *final(self) == (RuntimeSurface {
                u_assignments: final(self).u_assignments,
                mini_css_assignments: final(self).mini_css_assignments,
                ..*old(self)
            }),
    {
        proof {
            reveal_strlit("u");
            reveal_strlit("miniCssF");
            assert("u"@.len() != "miniCssF"@.len());
        }
        if text_eq(name.as_str(), "u") {
            self.u_assignments.push((object.to_id(), value));
            proof {
                lemma_values_listed_push(old(self).u_assignments@, self.u_assignments@.last());
            }
        } else if text_eq(name.as_str(), "miniCssF") {
            self.mini_css_assignments.push((object.to_id(), value));
            proof {
                lemma_values_listed_push(
                    old(self).mini_css_assignments@,
                    self.mini_css_assignments@.last(),
                );
            }
        }
    }

    /// Record a call.
    fn visit_call_expr(&mut self, call: &'a CallExpr)
        ensures
            forall|sites: Seq<Site<'a>>| #[trigger]
                old(self).describes(sites) ==> final(self).describes(sites.push(Site::Call(call))),
            final(self).unresolved_mark == old(self).unresolved_mark,
    {
        self.collect_ensure_ids(call);
        proof {
            let before = *old(self);
            let site = Site::Call(call);
            let loaded = loaded_chunks(call, self.unresolved_mark);
            assert forall|id: Seq<char>| #[trigger]
                texts(self.ensure_ids@).contains(id) <==> texts(before.ensure_ids@).contains(id)
                    || loaded.contains(id) by {
                lemma_contains_add(texts(before.ensure_ids@), loaded, id);
            }
            assert forall|sites: Seq<Site<'a>>| #[trigger]
                before.describes(sites) implies self.describes(sites.push(site)) by {
                lemma_sites_push(sites, site, self.unresolved_mark);
            }
        }
    }

    /// Match webpack 4's script path function: one parameter, single
    /// `return X.p + <template>` body. The template outcome is recorded even
    /// when dynamic so that ambiguity between candidates can fail closed.
    fn collect_jsonp_script_src(&mut self, parts: Option<(Id, &Expr)>, plain: bool)
        ensures
            final(self).srcs() == (match script_src(parts_view(parts), plain) {
                Some(src) => old(self).srcs().push(src),
                None => old(self).srcs(),
            }),
            *final(self) == (RuntimeSurface {
                jsonp_script_src_fns: final(self).jsonp_script_src_fns,
                ..*old(self)
            }),
    {
        let src = match parts {
            Some((param, body)) => match body {
                Expr::Bin(_) => match anchored_template(body, &param) {
                    Some((anchor, template)) => Some(
                        (anchor, prove_template(template, body, &param, plain)),
                    ),
                    None => None,
                },
                _ => None,
            },
            None => None,
        };
        match src {
            Some(src) => {
                self.jsonp_script_src_fns.push(src);
                proof {
                    assert(self.srcs() =~= old(self).srcs().push(script_src_view(src)));
                }
            },
            None => {},
        }
    }

    /// Collect literal chunk ids from generated `X.e(id).then(X.bind(...))`
    /// and `Promise.all([X.e(a), ...]).then(X.bind(...))` load sites. The
    /// continuation must use the same resolved binding as every `.e`
    /// receiver.
    fn collect_ensure_ids(&mut self, call: &CallExpr)
        ensures
            texts(final(self).ensure_ids@) == texts(old(self).ensure_ids@) + loaded_chunks(
                call,
                old(self).unresolved_mark,
            ),
            *final(self) == (RuntimeSurface { ensure_ids: final(self).ensure_ids, ..*old(self) }),
    {
        let mut ids = call_chunk_ids(call, self.unresolved_mark);
        self.ensure_ids.append(&mut ids);
        proof {
            assert(texts(self.ensure_ids@) =~= texts(old(self).ensure_ids@) + loaded_chunks(
                call,
                old(self).unresolved_mark,
            ));
        }
    }
}

/// The chunk ids that a call loads.
fn call_chunk_ids(call: &CallExpr, unresolved_mark: Mark) -> (r: Vec<String>)
    ensures
        texts(r@) == loaded_chunks(call, unresolved_mark),
{
    let mut ids: Vec<String> = Vec::new();
    proof {
        assert(texts(ids@) =~= Seq::<Seq<char>>::empty());
    }
    let then = match callee_member(call) {
        Some(then) => then,
        None => {
            return ids;
        },
    };
    if !member_prop_is(&then.prop, "then") || call.args.len() == 0 || call.args[0].spread {
        return ids;
    }
    let callback_runtime = match bound_runtime_id(&call.args[0].expr) {
        Some(runtime) => runtime,
        None => {
            return ids;
        },
    };
    match ensure_call_literal_id(strip_parens(&then.obj)) {
        Some((runtime, id)) => {
            if runtime.same(&callback_runtime) {
                ids.push(id);
                proof {
                    assert(texts(ids@) =~= seq![id@]);
                }
            }
            return ids;
        },
        None => {},
    }
    let elems = match promise_all_array(&then.obj, unresolved_mark) {
        Some(elems) => elems,
        None => {
            return ids;
        },
    };
    match element_chunk_ids(elems, &callback_runtime) {
        Some(ids) => ids,
        None => ids,
    }
}

/// The chunk ids of the elements, if every one of them loads a chunk through
/// the given runtime.
fn element_chunk_ids(elems: &Vec<Option<ExprOrSpread>>, runtime: &Id) -> (r: Option<Vec<String>>)
    ensures
        match r {
            Some(ids) => elements_chunks(elems, runtime@, elems@.len()) == Some(texts(ids@)),
            None => elements_chunks(elems, runtime@, elems@.len()) is None,
        },
{
    let mut ids: Vec<String> = Vec::new();
    let mut i: usize = 0;
    proof {
        assert(texts(ids@) =~= Seq::<Seq<char>>::empty());
    }
    while i < elems.len()
        invariant
            i <= elems@.len(),
            elements_chunks(elems, runtime@, i as nat) == Some(texts(ids@)),
        decreases elems@.len() - i,
    {
        let found = match &elems[i] {
            Some(element) => if element.spread {
                None
            } else {
                match ensure_call_literal_id(strip_parens(&element.expr)) {
                    Some((receiver, id)) => if receiver.same(runtime) {
                        Some(id)
                    } else {
                        None
                    },
                    None => None,
                }
            },
            None => None,
        };
        match found {
            Some(id) => {
                let ghost before = texts(ids@);
                ids.push(id);
                proof {
                    assert(texts(ids@) =~= before.push(id@));
                }
            },
            None => {
                proof {
                    lemma_elements_chunks_fail(elems, runtime@, (i + 1) as nat, elems@.len());
                }
                return None;
            },
        }
        i = i + 1;
    }
    Some(ids)
}

// ---------------------------------------------------------------------------
// One more site
// ---------------------------------------------------------------------------

proof fn lemma_contains_add(a: Seq<Seq<char>>, b: Seq<Seq<char>>, t: Seq<char>)
    ensures
        (a + b).contains(t) <==> a.contains(t) || b.contains(t),
{
    let c = a + b;
    if a.contains(t) {
        let i = choose|i: int| 0 <= i < a.len() && a[i] == t;
        assert(c[i] == t);
    }
    if b.contains(t) {
        let i = choose|i: int| 0 <= i < b.len() && b[i] == t;
        assert(c[a.len() + i] == t);
    }
    if c.contains(t) {
        let i = choose|i: int| 0 <= i < c.len() && c[i] == t;
        if i < a.len() {
            assert(a[i] == t);
        } else {
            assert(b[i - a.len()] == t);
        }
    }
}

proof fn lemma_lists_id_push(ids: Seq<Id>, next: Id)
    ensures
        forall|id: Binding| #[trigger]
            lists_id(ids.push(next), id) <==> lists_id(ids, id) || next@ == id,
{
    assert forall|id: Binding| #[trigger]
        lists_id(ids.push(next), id) <==> lists_id(ids, id) || next@ == id by {
        let all = ids.push(next);
        if lists_id(ids, id) {
            let i = choose|i: int| 0 <= i < ids.len() && (#[trigger] ids[i])@ == id;
            assert(all[i]@ == id);
        }
        assert(all[ids.len() as int] == next);
        if lists_id(all, id) {
            let i = choose|i: int| 0 <= i < all.len() && (#[trigger] all[i])@ == id;
            if i < ids.len() {
                assert(ids[i]@ == id);
            }
        }
    }
}

proof fn lemma_lists_property_push(props: Seq<(Id, String)>, next: (Id, String))
    ensures
        forall|object: Binding, name: Seq<char>| #[trigger]
            lists_property(props.push(next), object, name) <==> lists_property(props, object, name)
                || (next.0@ == object && next.1@ == name),
{
    assert forall|object: Binding, name: Seq<char>| #[trigger]
        lists_property(props.push(next), object, name) <==> lists_property(props, object, name) || (
        next.0@ == object && next.1@ == name) by {
        let all = props.push(next);
        if lists_property(props, object, name) {
            let i = choose|i: int|
                0 <= i < props.len() && (#[trigger] props[i]).0@ == object && props[i].1@ == name;
            assert(all[i].0@ == object);
        }
        assert(all[props.len() as int] == next);
        if lists_property(all, object, name) {
            let i = choose|i: int|
                0 <= i < all.len() && (#[trigger] all[i]).0@ == object && all[i].1@ == name;
            if i < props.len() {
                assert(props[i].0@ == object);
            }
        }
    }
}

proof fn lemma_values_listed_push<'a>(
    writes: Seq<(Id, Option<&'a Expr>)>,
    next: (Id, Option<&'a Expr>),
)
    ensures
        forall|object: Binding| #[trigger]
            values_listed(writes.push(next), object) == (if next.0@ == object {
                values_listed(writes, object).push(next.1)
            } else {
                values_listed(writes, object)
            }),
{
    assert(writes.push(next).drop_last() =~= writes);
}

/// What one more site adds.
proof fn lemma_sites_push<'a>(sites: Seq<Site<'a>>, site: Site<'a>, unresolved_mark: Mark)
    ensures
        forall|id: Binding| #[trigger]
            is_function_name(sites.push(site), id) <==> is_function_name(sites, id)
                || function_bound_at(site) == Some(id),
        forall|object: Binding, name: Seq<char>| #[trigger]
            values_written(sites.push(site), object, name) == (match property_written_at(site) {
                Some(write) => if write.object == object && write.name == name {
                    values_written(sites, object, name).push(write.value)
                } else {
                    values_written(sites, object, name)
                },
                None => values_written(sites, object, name),
            }),
        forall|object: Binding, name: Seq<char>| #[trigger]
            has_runtime_property(sites.push(site), object, name) <==> has_runtime_property(
                sites,
                object,
                name,
            ) || (is_runtime_property(name) && name != "u"@ && name != "miniCssF"@ && assigns(
                site,
                object,
                name,
            )),
        forall|id: Seq<char>| #[trigger]
            is_loaded(sites.push(site), unresolved_mark, id) <==> is_loaded(
                sites,
                unresolved_mark,
                id,
            ) || match site {
                Site::Call(call) => loaded_chunks(call, unresolved_mark).contains(id),
                _ => false,
            },
        script_srcs(sites.push(site)) == (match script_src_at(site) {
            Some(src) => script_srcs(sites).push(src),
            None => script_srcs(sites),
        }),
{
    let all = sites.push(site);
    assert(all.drop_last() =~= sites);
    assert(all[sites.len() as int] == site);
    assert forall|i: int| 0 <= i < sites.len() implies all[i] == sites[i] by {}
    assert forall|id: Binding| #[trigger]
        is_function_name(all, id) <==> is_function_name(sites, id) || function_bound_at(site)
            == Some(id) by {
        if is_function_name(sites, id) {
            let i = choose|i: int|
                0 <= i < sites.len() && function_bound_at(#[trigger] sites[i]) == Some(id);
            assert(function_bound_at(all[i]) == Some(id));
        }
        if is_function_name(all, id) {
            let i = choose|i: int|
                0 <= i < all.len() && function_bound_at(#[trigger] all[i]) == Some(id);
            if i < sites.len() {
                assert(function_bound_at(sites[i]) == Some(id));
            }
        }
    }
    assert forall|object: Binding, name: Seq<char>| #[trigger]
        has_runtime_property(all, object, name) <==> has_runtime_property(sites, object, name) || (
        is_runtime_property(name) && name != "u"@ && name != "miniCssF"@ && assigns(
            site,
            object,
            name,
        )) by {
        if has_runtime_property(sites, object, name) {
            let i = choose|i: int|
                0 <= i < sites.len() && assigns(#[trigger] sites[i], object, name);
            assert(all[i] == sites[i]);
        }
        if has_runtime_property(all, object, name) {
            let i = choose|i: int|
                0 <= i < all.len() && assigns(#[trigger] all[i], object, name);
            if i < sites.len() {
                assert(all[i] == sites[i]);
            }
        }
    }
    assert forall|id: Seq<char>| #[trigger]
        is_loaded(all, unresolved_mark, id) <==> is_loaded(sites, unresolved_mark, id)
            || match site {
            Site::Call(call) => loaded_chunks(call, unresolved_mark).contains(id),
            _ => false,
        } by {
        if is_loaded(sites, unresolved_mark, id) {
            let i = choose|i: int|
                0 <= i < sites.len() && match #[trigger] sites[i] {
                    Site::Call(call) => loaded_chunks(call, unresolved_mark).contains(id),
                    _ => false,
                };
            assert(all[i] == sites[i]);
        }
        if is_loaded(all, unresolved_mark, id) {
            let i = choose|i: int|
                0 <= i < all.len() && match #[trigger] all[i] {
                    Site::Call(call) => loaded_chunks(call, unresolved_mark).contains(id),
                    _ => false,
                };
            if i < sites.len() {
                assert(all[i] == sites[i]);
            }
        }
    }
}

} // verus!
