//! The public path of a webpack runtime.
//!
//! A script-relative claim requires both an exact script URL source and the
//! replacement of the file name by the directory; merely seeing a `.src`
//! property or an untrimmed `document.currentScript.src` is not enough.

use vstd::prelude::*;

use crate::ast::{
    ident_is, is_empty_string, is_ident_of, member_prop_is, names_prop, only_string_argument,
    regex_and_string, regex_and_string_arguments, single_string_argument, string_literal,
    string_text, strip_parens, stripped, ArrowFunctionBody, AssignExpr, AssignOp, AssignTarget,
    BinExpr, BinaryOp, Binding, CallExpr, Callee, Expr, ExprOrSpread, Function, Id, Ident, Lit,
    Mark, MemberExpr, MemberProp, MetaPropKind, Module, ModuleItem, Node, Param, Pat, Prop,
    PropName, Stmt, VarDeclarator,
};
use crate::facts::{PublicPathFact, PublicPathView};
use crate::text::{chars_of, contains_text, occurs_in, text_eq};

verus! {

/// A literal suffix that leads from the script's directory to a directory:
/// it is not empty, ends in `/`, does not begin with `/`, and holds no
/// `://`.
pub open spec fn is_script_relative_suffix(suffix: Seq<char>) -> bool {
    &&& suffix.len() > 0
    &&& suffix.last() == '/'
    &&& suffix.first() != '/'
    &&& !occurs_in(suffix, "://"@)
}

/// Whether a literal leads from the script's directory to a directory.
pub fn valid_script_relative_suffix(suffix: &str) -> (r: bool)
    ensures
        r == is_script_relative_suffix(suffix@),
{
    let chars = chars_of(suffix);
    chars.len() > 0 && chars[chars.len() - 1] == '/' && chars[0] != '/' && !contains_text(
        suffix,
        "://",
    )
}

/// What the value of an expression is known to be.
#[derive(Debug, Clone, Copy, PartialEq, Eq, Structural)]
pub enum ScriptTraceValue {
    Document,
    ScriptCollection,
    ScriptElement,
    ScriptUrl,
    ScriptDirectory,
}

/// What is known at a point of the walk: the values of bindings, the public
/// path assignments seen so far, and whether `runtime.g.location` is the
/// script's own URL there.
#[verifier::ext_equal]
pub struct TraceView {
    pub runtime: Binding,
    pub unresolved_mark: Mark,
    pub values: Map<Binding, ScriptTraceValue>,
    pub assignments: Seq<PublicPathView>,
    pub allow_runtime_location: bool,
}

// ---------------------------------------------------------------------------
// Classification
// ---------------------------------------------------------------------------

/// `ident` is the free identifier `name`.
pub open spec fn is_global(ident: &Ident, name: Seq<char>, unresolved_mark: Mark) -> bool {
    ident.sym@ == name && ident.outer == unresolved_mark
}

/// `member` is `runtime.g.property`.
pub open spec fn is_global_member(
    member: &MemberExpr,
    property: Seq<char>,
    runtime: Binding,
) -> bool {
    &&& names_prop(&member.prop, property)
    &&& match stripped(&member.obj) {
        Expr::Member(global) => names_prop(&global.prop, "g"@) && is_ident_of(&global.obj, runtime),
        _ => false,
    }
}

/// `expr` is `runtime.g.property`.
pub open spec fn is_runtime_global(expr: &Expr, property: Seq<char>, runtime: Binding) -> bool {
    match stripped(expr) {
        Expr::Member(member) => is_global_member(member, property, runtime),
        _ => false,
    }
}

/// What is left of a script URL after a replacement.
pub open spec fn replaced_url(pattern: Seq<char>, replacement: Seq<char>) -> Option<
    ScriptTraceValue,
> {
    if replacement == ""@ && (pattern == "^blob:"@ || pattern == "#.*$"@ || pattern == r"\?.*$"@) {
        Some(ScriptTraceValue::ScriptUrl)
    } else if replacement == "/"@ && pattern == r"\/[^\/]+$"@ {
        Some(ScriptTraceValue::ScriptDirectory)
    } else {
        None
    }
}

/// What the value of an expression is known to be.
pub open spec fn value_of(expr: &Expr, st: TraceView) -> Option<ScriptTraceValue>
    decreases expr, 0nat,
{
    match expr {
        Expr::Paren(inner) => value_of(inner, st),
        Expr::Ident(ident) => if st.values.contains_key(ident.binding()) {
            Some(st.values[ident.binding()])
        } else if is_global(ident, "document"@, st.unresolved_mark) {
            Some(ScriptTraceValue::Document)
        } else {
            None
        },
        Expr::Member(member) => member_value(member, st),
        Expr::Call(call) => match &call.callee {
            Callee::Expr(callee) => call_value(callee, call, st),
            _ => None,
        },
        Expr::Bin(bin) => if bin.op == BinaryOp::Add {
            if string_text(&bin.left) == Some(""@) {
                value_of(&bin.right, st)
            } else if string_text(&bin.right) == Some(""@) {
                value_of(&bin.left, st)
            } else {
                None
            }
        } else {
            None
        },
        Expr::Assign(assign) => if assign.op == AssignOp::Assign {
            value_of(&assign.right, st)
        } else {
            None
        },
        Expr::Sequence(exprs) => if exprs@.len() > 0 {
            value_of(&exprs@[exprs@.len() - 1], st)
        } else {
            None
        },
        Expr::Cond(cond) => if value_of(&cond.cons, st) == value_of(&cond.alt, st) {
            value_of(&cond.cons, st)
        } else {
            None
        },
        _ => None,
    }
}

/// What the value of a member expression is known to be.
pub open spec fn member_value(member: &MemberExpr, st: TraceView) -> Option<ScriptTraceValue>
    decreases member, 0nat,
{
    if is_global_member(member, "document"@, st.runtime) {
        Some(ScriptTraceValue::Document)
    } else if st.allow_runtime_location && is_global_member(member, "location"@, st.runtime) {
        Some(ScriptTraceValue::ScriptUrl)
    } else if names_prop(&member.prop, "url"@) && *stripped(&member.obj) == Expr::MetaProp(
        MetaPropKind::ImportMeta,
    ) {
        Some(ScriptTraceValue::ScriptUrl)
    } else {
        match value_of(&member.obj, st) {
            Some(ScriptTraceValue::Document) => if names_prop(&member.prop, "currentScript"@) {
                Some(ScriptTraceValue::ScriptElement)
            } else {
                None
            },
            Some(ScriptTraceValue::ScriptElement) => if names_prop(&member.prop, "src"@) {
                Some(ScriptTraceValue::ScriptUrl)
            } else {
                None
            },
            Some(ScriptTraceValue::ScriptCollection) => match &member.prop {
                MemberProp::Computed(_) => Some(ScriptTraceValue::ScriptElement),
                _ => None,
            },
            _ => None,
        }
    }
}

/// What the value of a call with the given callee is known to be.
pub open spec fn call_value(callee: &Expr, call: &CallExpr, st: TraceView) -> Option<
    ScriptTraceValue,
>
    decreases callee, 1nat,
{
    match callee {
        Expr::Paren(inner) => call_value(inner, call, st),
        Expr::Member(member) => if names_prop(&member.prop, "getElementsByTagName"@) && value_of(
            &member.obj,
            st,
        ) == Some(ScriptTraceValue::Document) && only_string_argument(call) == Some("script"@) {
            Some(ScriptTraceValue::ScriptCollection)
        } else if names_prop(&member.prop, "replace"@) && value_of(&member.obj, st) == Some(
            ScriptTraceValue::ScriptUrl,
        ) {
            match regex_and_string(call) {
                Some((pattern, replacement)) => replaced_url(pattern, replacement),
                None => None,
            }
        } else {
            None
        },
        _ => None,
    }
}

/// What an expression that is assigned to the public path proves about it.
pub open spec fn public_path_of(expr: &Expr, st: TraceView) -> PublicPathView {
    match stripped(expr) {
        Expr::Lit(Lit::Str(Some(path))) => PublicPathView::Static(path@),
        Expr::Bin(bin) => match string_text(&bin.right) {
            Some(suffix) => if bin.op == BinaryOp::Add && value_of(&bin.left, st) == Some(
                ScriptTraceValue::ScriptDirectory,
            ) && is_script_relative_suffix(suffix) {
                PublicPathView::ScriptRelative(suffix)
            } else {
                PublicPathView::RuntimeComputed
            },
            None => PublicPathView::RuntimeComputed,
        },
        _ => PublicPathView::RuntimeComputed,
    }
}

/// `member` is `runtime.p`.
pub open spec fn is_public_path(member: &MemberExpr, runtime: Binding) -> bool {
    names_prop(&member.prop, "p"@) && is_ident_of(&member.obj, runtime)
}

/// The target is `runtime.p`.
pub open spec fn targets_public_path(target: &AssignTarget, runtime: Binding) -> bool
    decreases target,
{
    match target {
        AssignTarget::Member(member) => is_public_path(member, runtime),
        AssignTarget::Paren(inner) => targets_public_path(inner, runtime),
        _ => false,
    }
}

/// What an assignment proves about the public path that it writes. One that
/// is no plain `=` proves no value.
pub open spec fn assigned_fact(assign: &AssignExpr, st: TraceView) -> PublicPathView {
    if assign.op == AssignOp::Assign && targets_public_path(&assign.left, st.runtime) {
        public_path_of(&assign.right, st)
    } else {
        PublicPathView::RuntimeComputed
    }
}

/// What the value that an assignment assigns is known to be.
pub open spec fn assigned_value(assign: &AssignExpr, st: TraceView) -> Option<ScriptTraceValue> {
    if assign.op == AssignOp::Assign {
        value_of(&assign.right, st)
    } else {
        None
    }
}

// ---------------------------------------------------------------------------
// The walk
// ---------------------------------------------------------------------------

/// The binding has the value, or no known value, from here on.
pub open spec fn bound(st: TraceView, id: Binding, value: Option<ScriptTraceValue>) -> TraceView {
    TraceView {
        values: match value {
            Some(value) => st.values.insert(id, value),
            None => st.values.remove(id),
        },
        ..st
    }
}

/// A public path assignment was seen.
pub open spec fn assigned(st: TraceView, fact: PublicPathView) -> TraceView {
    TraceView { assignments: st.assignments.push(fact), ..st }
}

/// Whether `runtime.g.location` is the script's own URL.
pub open spec fn allowing(st: TraceView, allow: bool) -> TraceView {
    TraceView { allow_runtime_location: allow, ..st }
}

/// What is known after an expression.
pub open spec fn after_expr(expr: &Expr, st: TraceView) -> TraceView
    decreases expr, 0nat,
{
    match expr {
        Expr::Paren(inner) => after_expr(inner, st),
        Expr::Ident(_) => st,
        Expr::Lit(_) => st,
        Expr::Tpl(tpl) => after_exprs(&tpl.exprs, tpl.exprs@.len(), st),
        Expr::Bin(bin) => after_bin(bin, st),
        Expr::Assign(assign) => after_assign(assign, st),
        Expr::Member(member) => after_member(member, st),
        Expr::Call(call) => after_args(
            &call.args,
            call.args@.len(),
            after_callee(&call.callee, st),
        ),
        Expr::Array(elems) => after_elems(elems, elems@.len(), st),
        Expr::Object(props) => after_props(props, props@.len(), st),
        Expr::Fn(function) => after_function(function, st),
        Expr::Arrow(arrow) => after_arrow_body(
            &arrow.body,
            after_params(&arrow.params, arrow.params@.len(), st),
        ),
        Expr::Sequence(exprs) => after_exprs(exprs, exprs@.len(), st),
        Expr::Cond(cond) => after_expr(
            &cond.alt,
            after_expr(&cond.cons, after_expr(&cond.test, st)),
        ),
        Expr::MetaProp(_) => st,
        Expr::Other(nodes) => after_nodes(nodes, nodes@.len(), st),
    }
}

/// What is known after a binary expression. The right operand of
/// `runtime.g.importScripts && ...` is evaluated in a worker, whose location
/// is the script's own URL.
pub open spec fn after_bin(bin: &BinExpr, st: TraceView) -> TraceView
    decreases bin, 0nat,
{
    let left = after_expr(&bin.left, st);
    let right = after_expr(
        &bin.right,
        allowing(
            left,
            left.allow_runtime_location || (bin.op == BinaryOp::LogicalAnd && is_runtime_global(
                &bin.left,
                "importScripts"@,
                left.runtime,
            )),
        ),
    );
    allowing(right, left.allow_runtime_location)
}

/// What is known after an assignment: the object and the key of its target
/// come first, then the right-hand side, then the write. What is assigned is
/// judged by what was known before the right-hand side.
pub open spec fn after_assign(assign: &AssignExpr, st: TraceView) -> TraceView
    decreases assign, 0nat,
{
    let target = after_target(&assign.left, st);
    written(
        &assign.left,
        after_expr(&assign.right, target),
        assigned_value(assign, target),
        assigned_fact(assign, target),
    )
}

/// What is known after the object and the key of a target.
pub open spec fn after_target(target: &AssignTarget, st: TraceView) -> TraceView
    decreases target, 0nat,
{
    match target {
        AssignTarget::Member(member) => after_member(member, st),
        AssignTarget::Paren(inner) => after_target(inner, st),
        _ => st,
    }
}

/// What is known after a write of a target: a binding has the value, the
/// runtime's public path is as the fact says, and a pattern writes its parts.
pub open spec fn written(
    target: &AssignTarget,
    st: TraceView,
    value: Option<ScriptTraceValue>,
    fact: PublicPathView,
) -> TraceView
    decreases target, 0nat,
{
    match target {
        AssignTarget::Ident(ident) => bound(st, ident.binding(), value),
        AssignTarget::Member(member) => if is_public_path(member, st.runtime) {
            assigned(st, fact)
        } else {
            st
        },
        AssignTarget::Paren(inner) => written(inner, st, value, fact),
        AssignTarget::Other(nodes) => after_nodes(nodes, nodes@.len(), st),
    }
}

/// What is known after a declarator: its initializer comes first, then its
/// pattern.
pub open spec fn after_declarator(declarator: &VarDeclarator, st: TraceView) -> TraceView
    decreases declarator, 0nat,
{
    let after = match &declarator.init {
        Some(init) => after_expr(init, st),
        None => st,
    };
    match (&declarator.name, &declarator.init) {
        (Pat::Ident(ident), Some(init)) => bound(after, ident.binding(), value_of(init, after)),
        _ => after_pat(&declarator.name, after),
    }
}

/// What is known after the writes and the expressions of a pattern.
pub open spec fn after_pat(pat: &Pat, st: TraceView) -> TraceView
    decreases pat, 0nat,
{
    match pat {
        Pat::Ident(_) => st,
        Pat::Other(nodes) => after_nodes(nodes, nodes@.len(), st),
    }
}

/// What is known after a member expression.
pub open spec fn after_member(member: &MemberExpr, st: TraceView) -> TraceView
    decreases member, 0nat,
{
    match &member.prop {
        MemberProp::Computed(inner) => after_expr(inner, after_expr(&member.obj, st)),
        _ => after_expr(&member.obj, st),
    }
}

/// What is known after a callee.
pub open spec fn after_callee(callee: &Callee, st: TraceView) -> TraceView
    decreases callee, 0nat,
{
    match callee {
        Callee::Expr(inner) => after_expr(inner, st),
        _ => st,
    }
}

/// What is known after an array element.
pub open spec fn after_elem(elem: &Option<ExprOrSpread>, st: TraceView) -> TraceView
    decreases elem, 0nat,
{
    match elem {
        Some(element) => after_expr(&element.expr, st),
        None => st,
    }
}

/// What is known after a member of an object literal.
pub open spec fn after_prop(prop: &Prop, st: TraceView) -> TraceView
    decreases prop, 0nat,
{
    match prop {
        Prop::KeyValue(key_value) => after_expr(
            &key_value.value,
            match &key_value.key {
                PropName::Other(nodes) => after_nodes(nodes, nodes@.len(), st),
                _ => st,
            },
        ),
        Prop::Other(nodes) => after_nodes(nodes, nodes@.len(), st),
    }
}

/// What is known after a parameter.
pub open spec fn after_param(param: &Param, st: TraceView) -> TraceView
    decreases param, 0nat,
{
    after_pat(&param.pat, after_nodes(&param.decorators, param.decorators@.len(), st))
}

/// What is known after a statement.
pub open spec fn after_stmt(stmt: &Stmt, st: TraceView) -> TraceView
    decreases stmt, 0nat,
{
    match stmt {
        Stmt::Return(Some(arg)) => after_expr(arg, st),
        Stmt::Return(None) => st,
        Stmt::Other(nodes) => after_nodes(nodes, nodes@.len(), st),
    }
}

/// What is known after a function's parameters and body.
pub open spec fn after_function(function: &Function, st: TraceView) -> TraceView
    decreases function, 0nat,
{
    let after = after_nodes(
        &function.decorators,
        function.decorators@.len(),
        after_params(&function.params, function.params@.len(), st),
    );
    match &function.body {
        Some(stmts) => after_stmts(stmts, stmts@.len(), after),
        None => after,
    }
}

/// What is known after the body of an arrow function.
pub open spec fn after_arrow_body(arrow_body: &ArrowFunctionBody, st: TraceView) -> TraceView
    decreases arrow_body, 0nat,
{
    match arrow_body {
        ArrowFunctionBody::Expr(inner) => after_expr(inner, st),
        ArrowFunctionBody::FunctionBody(stmts) => after_stmts(stmts, stmts@.len(), st),
    }
}

/// What is known after a node.
pub open spec fn after_node(node: &Node, st: TraceView) -> TraceView
    decreases node, 0nat,
{
    match node {
        Node::Expr(inner) => after_expr(inner, st),
        Node::FnDecl(decl) => after_function(&decl.function, st),
        Node::VarDeclarator(declarator) => after_declarator(declarator, st),
        Node::Write(target) => written(
            target,
            after_target(target, st),
            None,
            PublicPathView::RuntimeComputed,
        ),
    }
}

/// What is known after the first `n` of some nodes.
pub open spec fn after_nodes(v: &Vec<Node>, n: nat, st: TraceView) -> TraceView
    decreases v, n,
{
    if n == 0 || n > v@.len() {
        st
    } else {
        after_node(&v@[n - 1], after_nodes(v, (n - 1) as nat, st))
    }
}

/// What is known after the first `n` of some expressions.
pub open spec fn after_exprs(v: &Vec<Expr>, n: nat, st: TraceView) -> TraceView
    decreases v, n,
{
    if n == 0 || n > v@.len() {
        st
    } else {
        after_expr(&v@[n - 1], after_exprs(v, (n - 1) as nat, st))
    }
}

/// What is known after the first `n` of some arguments.
pub open spec fn after_args(v: &Vec<ExprOrSpread>, n: nat, st: TraceView) -> TraceView
    decreases v, n,
{
    if n == 0 || n > v@.len() {
        st
    } else {
        after_expr(&v@[n - 1].expr, after_args(v, (n - 1) as nat, st))
    }
}

/// What is known after the first `n` of some array elements.
pub open spec fn after_elems(v: &Vec<Option<ExprOrSpread>>, n: nat, st: TraceView) -> TraceView
    decreases v, n,
{
    if n == 0 || n > v@.len() {
        st
    } else {
        after_elem(&v@[n - 1], after_elems(v, (n - 1) as nat, st))
    }
}

/// What is known after the first `n` of some members of an object literal.
pub open spec fn after_props(v: &Vec<Prop>, n: nat, st: TraceView) -> TraceView
    decreases v, n,
{
    if n == 0 || n > v@.len() {
        st
    } else {
        after_prop(&v@[n - 1], after_props(v, (n - 1) as nat, st))
    }
}

/// What is known after the first `n` of some parameters.
pub open spec fn after_params(v: &Vec<Param>, n: nat, st: TraceView) -> TraceView
    decreases v, n,
{
    if n == 0 || n > v@.len() {
        st
    } else {
        after_param(&v@[n - 1], after_params(v, (n - 1) as nat, st))
    }
}

/// What is known after the first `n` of some statements.
pub open spec fn after_stmts(v: &Vec<Stmt>, n: nat, st: TraceView) -> TraceView
    decreases v, n,
{
    if n == 0 || n > v@.len() {
        st
    } else {
        after_stmt(&v@[n - 1], after_stmts(v, (n - 1) as nat, st))
    }
}

/// What is known after a module item.
pub open spec fn after_item(item: &ModuleItem, st: TraceView) -> TraceView {
    match item {
        ModuleItem::Import(_, nodes) => after_nodes(nodes, nodes@.len(), st),
        ModuleItem::ExportNamed(_, nodes) => after_nodes(nodes, nodes@.len(), st),
        ModuleItem::ExportAll(_, nodes) => after_nodes(nodes, nodes@.len(), st),
        ModuleItem::Other(nodes) => after_nodes(nodes, nodes@.len(), st),
    }
}

/// What is known after the first `n` items of a module.
pub open spec fn after_items(v: &Vec<ModuleItem>, n: nat, st: TraceView) -> TraceView
    decreases n,
{
    if n == 0 || n > v@.len() {
        st
    } else {
        after_item(&v@[n - 1], after_items(v, (n - 1) as nat, st))
    }
}

/// What is known before the walk.
pub open spec fn trace_start(runtime: Binding, unresolved_mark: Mark) -> TraceView {
    TraceView {
        runtime,
        unresolved_mark,
        values: Map::empty(),
        assignments: Seq::empty(),
        allow_runtime_location: false,
    }
}

/// The public path assignments of a module, in the order of the walk.
pub open spec fn public_path_assignments(
    module: &Module,
    runtime: Binding,
    unresolved_mark: Mark,
) -> Seq<PublicPathView> {
    after_items(
        &module.body,
        module.body@.len(),
        trace_start(runtime, unresolved_mark),
    ).assignments
}

/// What a number of public path assignments prove together.
pub open spec fn public_path_fact(assignments: Seq<PublicPathView>) -> PublicPathView {
    if assignments.len() == 0 {
        PublicPathView::NotFound
    } else if assignments.len() == 1 {
        assignments[0]
    } else {
        PublicPathView::RuntimeComputed
    }
}

/// What a module proves about the public path of its runtime.
pub open spec fn module_public_path(
    module: &Module,
    runtime: Binding,
    unresolved_mark: Mark,
) -> PublicPathView {
    public_path_fact(public_path_assignments(module, runtime, unresolved_mark))
}

// ---------------------------------------------------------------------------
// Tracing
// ---------------------------------------------------------------------------

/// The mapping that a list of binding values spells out.
pub open spec fn values_map(values: Seq<(Id, ScriptTraceValue)>) -> Map<Binding, ScriptTraceValue>
    decreases values.len(),
{
    if values.len() == 0 {
        Map::empty()
    } else {
        values_map(values.drop_last()).insert(values.last().0@, values.last().1)
    }
}

/// Binding-aware recognition of webpack's generated automatic public path
/// prelude.
pub struct ScriptPathTrace {
    runtime: Id,
    unresolved_mark: Mark,
    values: Vec<(Id, ScriptTraceValue)>,
    public_path_assignments: Vec<PublicPathFact>,
    allow_runtime_location: bool,
}

impl View for ScriptPathTrace {
    type V = TraceView;

    closed spec fn view(&self) -> TraceView {
        TraceView {
            runtime: self.runtime@,
            unresolved_mark: self.unresolved_mark,
            values: values_map(self.values@),
            assignments: self.public_path_assignments@.map_values(|fact: PublicPathFact| fact@),
            allow_runtime_location: self.allow_runtime_location,
        }
    }
}

impl ScriptPathTrace {
    /// What a module proves about the public path of the runtime.
    pub fn collect(module: &Module, runtime: Id, unresolved_mark: Mark) -> (r: PublicPathFact)
        ensures
            r@ == module_public_path(module, runtime@, unresolved_mark),
    {
        let mut trace = ScriptPathTrace::new(runtime, unresolved_mark);
        let ghost start = trace@;
        let mut i: usize = 0;
        while i < module.body.len()
            invariant
                i <= module.body@.len(),
                trace@ == after_items(&module.body, i as nat, start),
            decreases module.body@.len() - i,
        {
            trace.visit_item(&module.body[i]);
            i = i + 1;
        }
        let n: usize = trace.public_path_assignments.len();
        if n == 0 {
            PublicPathFact::NotFound
        } else if n == 1 {
            trace.public_path_assignments[0].copy()
        } else {
            PublicPathFact::RuntimeComputed
        }
    }

    /// A trace that knows nothing yet.
    pub fn new(runtime: Id, unresolved_mark: Mark) -> (r: ScriptPathTrace)
        ensures
            r@ == trace_start(runtime@, unresolved_mark),
    {
        let r = ScriptPathTrace {
            runtime,
            unresolved_mark,
            values: Vec::new(),
            public_path_assignments: Vec::new(),
            allow_runtime_location: false,
        };
        proof {
            assert(r@ =~= trace_start(runtime@, unresolved_mark));
        }
        r
    }

    /// The known value of a binding.
    fn binding_value(&self, id: &Id) -> (r: Option<ScriptTraceValue>)
        ensures
            r == (if self@.values.contains_key(id@) {
                Some(self@.values[id@])
            } else {
                None
            }),
    {
        let mut n: usize = self.values.len();
        proof {
            assert(self.values@.take(n as int) =~= self.values@);
        }
        while n > 0
            invariant
                n <= self.values@.len(),
                self@.values.contains_key(id@) == values_map(
                    self.values@.take(n as int),
                ).contains_key(id@),
                self@.values.contains_key(id@) ==> self@.values[id@] == values_map(
                    self.values@.take(n as int),
                )[id@],
            decreases n,
        {
            proof {
                let taken = self.values@.take(n as int);
                assert(taken.drop_last() =~= self.values@.take(n - 1));
                assert(taken.last() == self.values@[n - 1]);
            }
            if self.values[n - 1].0.same(id) {
                return Some(self.values[n - 1].1);
            }
            n = n - 1;
        }
        None
    }

    /// Record the value of a binding, or that it has no known value.
    pub fn set_binding(&mut self, id: Id, value: Option<ScriptTraceValue>)
        ensures
            final(self)@ == bound(old(self)@, id@, value),
    {
        let mut values: Vec<(Id, ScriptTraceValue)> = Vec::new();
        let mut i: usize = 0;
        while i < self.values.len()
            invariant
                *self == *old(self),
                i <= self.values@.len(),
                values_map(values@) =~= values_map(self.values@.take(i as int)).remove(id@),
            decreases self.values@.len() - i,
        {
            let ghost before = values@;
            proof {
                let taken = self.values@.take(i + 1);
                assert(taken.drop_last() =~= self.values@.take(i as int));
                assert(taken.last() == self.values@[i as int]);
            }
            if !self.values[i].0.same(&id) {
                values.push((self.values[i].0.copy(), self.values[i].1));
                proof {
                    assert(values@.drop_last() =~= before);
                }
            }
            i = i + 1;
        }
        proof {
            assert(self.values@.take(i as int) =~= self.values@);
        }
        match value {
            Some(value) => {
                let ghost before = values@;
                values.push((id, value));
                proof {
                    assert(values@.drop_last() =~= before);
                    assert(values_map(values@) =~= values_map(self.values@).insert(id@, value));
                }
            },
            None => {},
        }
        self.values = values;
        proof {
            assert(self@ =~= bound(old(self)@, id@, value));
        }
    }

    /// Record a public path assignment.
    fn push_assignment(&mut self, fact: PublicPathFact)
        ensures
            final(self)@ == assigned(old(self)@, fact@),
    {
        self.public_path_assignments.push(fact);
        proof {
            assert(self@ =~= assigned(old(self)@, fact@));
        }
    }

    /// Whether `member` is `runtime.p`.
    fn is_public_path_member(&self, member: &MemberExpr) -> (r: bool)
        ensures
            r == is_public_path(member, self@.runtime),
    {
        member_prop_is(&member.prop, "p") && ident_is(&member.obj, &self.runtime)
    }

    /// Whether the target is `runtime.p`.
    fn is_public_path_target(&self, target: &AssignTarget) -> (r: bool)
        ensures
            r == targets_public_path(target, self@.runtime),
        decreases target,
    {
        match target {
            AssignTarget::Member(member) => self.is_public_path_member(member),
            AssignTarget::Paren(inner) => self.is_public_path_target(inner),
            _ => false,
        }
    }

    /// What an expression that is assigned to the public path proves.
    pub fn classify_public_path(&self, expr: &Expr) -> (r: PublicPathFact)
        ensures
            r@ == public_path_of(expr, self@),
    {
        match strip_parens(expr) {
            Expr::Lit(Lit::Str(Some(path))) => PublicPathFact::Static(path.clone()),
            Expr::Bin(bin) => {
                if bin.op != BinaryOp::Add {
                    return PublicPathFact::RuntimeComputed;
                }
                let suffix = match string_literal(&bin.right) {
                    Some(suffix) => suffix,
                    None => {
                        return PublicPathFact::RuntimeComputed;
                    },
                };
                if self.classify_value(&bin.left) == Some(ScriptTraceValue::ScriptDirectory)
                    && valid_script_relative_suffix(suffix) {
                    PublicPathFact::ScriptRelative(suffix.to_owned())
                } else {
                    PublicPathFact::RuntimeComputed
                }
            },
            _ => PublicPathFact::RuntimeComputed,
        }
    }

    /// What the value of an expression is known to be.
    pub fn classify_value(&self, expr: &Expr) -> (r: Option<ScriptTraceValue>)
        ensures
            r == value_of(expr, self@),
        decreases expr, 0nat,
    {
        proof {
            reveal_strlit("");
            assert(""@ =~= Seq::<char>::empty());
        }
        match expr {
            Expr::Paren(inner) => self.classify_value(inner),
            Expr::Ident(ident) => match self.binding_value(&ident.to_id()) {
                Some(value) => Some(value),
                None => if self.is_global_ident(ident, "document") {
                    Some(ScriptTraceValue::Document)
                } else {
                    None
                },
            },
            Expr::Member(member) => self.classify_member(member),
            Expr::Call(call) => match &call.callee {
                Callee::Expr(callee) => self.classify_call(callee, call),
                _ => None,
            },
            Expr::Bin(bin) => {
                if bin.op != BinaryOp::Add {
                    None
                } else if is_empty_string(&bin.left) {
                    self.classify_value(&bin.right)
                } else if is_empty_string(&bin.right) {
                    self.classify_value(&bin.left)
                } else {
                    None
                }
            },
            Expr::Assign(assign) => if assign.op == AssignOp::Assign {
                self.classify_value(&assign.right)
            } else {
                None
            },
            Expr::Sequence(exprs) => if exprs.len() > 0 {
                self.classify_value(&exprs[exprs.len() - 1])
            } else {
                None
            },
            Expr::Cond(cond) => {
                let consequent = self.classify_value(&cond.cons);
                if self.classify_value(&cond.alt) == consequent {
                    consequent
                } else {
                    None
                }
            },
            _ => None,
        }
    }

    /// What the value of a member expression is known to be.
    pub fn classify_member(&self, member: &MemberExpr) -> (r: Option<ScriptTraceValue>)
        ensures
            r == member_value(member, self@),
        decreases member, 0nat,
    {
        if self.is_global_member_of(member, "document") {
            return Some(ScriptTraceValue::Document);
        }
        if self.allow_runtime_location && self.is_global_member_of(member, "location") {
            return Some(ScriptTraceValue::ScriptUrl);
        }
        if member_prop_is(&member.prop, "url") {
            match strip_parens(&member.obj) {
                Expr::MetaProp(MetaPropKind::ImportMeta) => {
                    return Some(ScriptTraceValue::ScriptUrl);
                },
                _ => {},
            }
        }
        match self.classify_value(&member.obj) {
            Some(ScriptTraceValue::Document) => if member_prop_is(&member.prop, "currentScript") {
                Some(ScriptTraceValue::ScriptElement)
            } else {
                None
            },
            Some(ScriptTraceValue::ScriptElement) => if member_prop_is(&member.prop, "src") {
                Some(ScriptTraceValue::ScriptUrl)
            } else {
                None
            },
            Some(ScriptTraceValue::ScriptCollection) => match &member.prop {
                MemberProp::Computed(_) => Some(ScriptTraceValue::ScriptElement),
                _ => None,
            },
            _ => None,
        }
    }

    /// What the value of a call with the given callee is known to be.
    pub fn classify_call(&self, callee: &Expr, call: &CallExpr) -> (r: Option<ScriptTraceValue>)
        ensures
            r == call_value(callee, call, self@),
        decreases callee, 1nat,
    {
        match callee {
            Expr::Paren(inner) => self.classify_call(inner, call),
            Expr::Member(member) => {
                let receiver = self.classify_value(&member.obj);
                if member_prop_is(&member.prop, "getElementsByTagName") && receiver == Some(
                    ScriptTraceValue::Document,
                ) {
                    match single_string_argument(call) {
                        Some(tag) => {
                            if text_eq(tag, "script") {
                                return Some(ScriptTraceValue::ScriptCollection);
                            }
                        },
                        None => {},
                    }
                }
                if !member_prop_is(&member.prop, "replace") || receiver != Some(
                    ScriptTraceValue::ScriptUrl,
                ) {
                    return None;
                }
                match regex_and_string_arguments(call) {
                    Some((pattern, replacement)) => replace_in_url(pattern, replacement),
                    None => None,
                }
            },
            _ => None,
        }
    }

    /// Whether `ident` is the free identifier `name`.
    pub fn is_global_ident(&self, ident: &Ident, name: &str) -> (r: bool)
        ensures
            r == is_global(ident, name@, self@.unresolved_mark),
    {
        text_eq(ident.sym.as_str(), name) && ident.outer == self.unresolved_mark
    }

    /// Whether `member` is `runtime.g.property`.
    fn is_global_member_of(&self, member: &MemberExpr, property: &str) -> (r: bool)
        ensures
            r == is_global_member(member, property@, self@.runtime),
    {
        member_prop_is(&member.prop, property) && match strip_parens(&member.obj) {
            Expr::Member(global) => member_prop_is(&global.prop, "g") && ident_is(
                &global.obj,
                &self.runtime,
            ),
            _ => false,
        }
    }

    /// Whether `expr` is `runtime.g.property`.
    pub fn is_runtime_global_member(&self, expr: &Expr, property: &str) -> (r: bool)
        ensures
            r == is_runtime_global(expr, property@, self@.runtime),
    {
        match strip_parens(expr) {
            Expr::Member(member) => self.is_global_member_of(member, property),
            _ => false,
        }
    }

    fn visit_expr(&mut self, expr: &Expr)
        ensures
            final(self)@ == after_expr(expr, old(self)@),
        decreases expr, 0nat,
    {
        match expr {
            Expr::Paren(inner) => self.visit_expr(inner),
            Expr::Ident(_) => {},
            Expr::Lit(_) => {},
            Expr::Tpl(tpl) => self.visit_exprs(&tpl.exprs),
            Expr::Bin(bin) => self.visit_bin_expr(bin),
            Expr::Assign(assign) => self.visit_assign_expr(assign),
            Expr::Member(member) => self.visit_member(member),
            Expr::Call(call) => {
                self.visit_callee(&call.callee);
                self.visit_args(&call.args);
            },
            Expr::Array(elems) => self.visit_elems(elems),
            Expr::Object(props) => self.visit_props(props),
            Expr::Fn(function) => self.visit_function(function),
            Expr::Arrow(arrow) => {
                self.visit_params(&arrow.params);
                self.visit_arrow_body(&arrow.body);
            },
            Expr::Sequence(exprs) => self.visit_exprs(exprs),
            Expr::Cond(cond) => {
                self.visit_expr(&cond.test);
                self.visit_expr(&cond.cons);
                self.visit_expr(&cond.alt);
            },
            Expr::MetaProp(_) => {},
            Expr::Other(nodes) => self.visit_nodes(nodes),
        }
    }

    /// Walk a binary expression.
    fn visit_bin_expr(&mut self, bin: &BinExpr)
        ensures
            final(self)@ == after_bin(bin, old(self)@),
        decreases bin, 0nat,
    {
        self.visit_expr(&bin.left);
        let previous = self.allow_runtime_location;
        if bin.op == BinaryOp::LogicalAnd && self.is_runtime_global_member(
            &bin.left,
            "importScripts",
        ) {
            self.allow_runtime_location = true;
        }
        self.visit_expr(&bin.right);
        self.allow_runtime_location = previous;
    }

    /// Walk an assignment, and record what it binds or writes.
    fn visit_assign_expr(&mut self, assign: &AssignExpr)
        ensures
            final(self)@ == after_assign(assign, old(self)@),
        decreases assign, 0nat,
    {
        self.visit_target(&assign.left);
        let value = if assign.op == AssignOp::Assign {
            self.classify_value(&assign.right)
        } else {
            None
        };
        let fact = if assign.op == AssignOp::Assign && self.is_public_path_target(&assign.left) {
            self.classify_public_path(&assign.right)
        } else {
            PublicPathFact::RuntimeComputed
        };
        self.visit_expr(&assign.right);
        self.write(&assign.left, value, fact);
    }

    /// Walk the object and the key of a target.
    fn visit_target(&mut self, target: &AssignTarget)
        ensures
            final(self)@ == after_target(target, old(self)@),
        decreases target, 0nat,
    {
        match target {
            AssignTarget::Member(member) => self.visit_member(member),
            AssignTarget::Paren(inner) => self.visit_target(inner),
            _ => {},
        }
    }

    /// Record a write of a target.
    fn write(
        &mut self,
        target: &AssignTarget,
        value: Option<ScriptTraceValue>,
        fact: PublicPathFact,
    )
        ensures
            final(self)@ == written(target, old(self)@, value, fact@),
        decreases target, 0nat,
    {
        match target {
            AssignTarget::Ident(ident) => self.set_binding(ident.to_id(), value),
            AssignTarget::Member(member) => {
                if self.is_public_path_member(member) {
                    self.push_assignment(fact);
                }
            },
            AssignTarget::Paren(inner) => self.write(inner, value, fact),
            AssignTarget::Other(nodes) => self.visit_nodes(nodes),
        }
    }

    /// Walk a declarator, and record what it binds.
    fn visit_var_declarator(&mut self, declarator: &VarDeclarator)
        ensures
            final(self)@ == after_declarator(declarator, old(self)@),
        decreases declarator, 0nat,
    {
        match &declarator.init {
            Some(init) => self.visit_expr(init),
            None => {},
        }
        match (&declarator.name, &declarator.init) {
            (Pat::Ident(ident), Some(init)) => {
                let value = self.classify_value(init);
                self.set_binding(ident.to_id(), value);
            },
            _ => self.visit_pat(&declarator.name),
        }
    }

    fn visit_pat(&mut self, pat: &Pat)
        ensures
            final(self)@ == after_pat(pat, old(self)@),
        decreases pat, 0nat,
    {
        match pat {
            Pat::Ident(_) => {},
            Pat::Other(nodes) => self.visit_nodes(nodes),
        }
    }

    fn visit_member(&mut self, member: &MemberExpr)
        ensures
            final(self)@ == after_member(member, old(self)@),
        decreases member, 0nat,
    {
        self.visit_expr(&member.obj);
        match &member.prop {
            MemberProp::Computed(inner) => self.visit_expr(inner),
            _ => {},
        }
    }

    fn visit_callee(&mut self, callee: &Callee)
        ensures
            final(self)@ == after_callee(callee, old(self)@),
        decreases callee, 0nat,
    {
        match callee {
            Callee::Expr(inner) => self.visit_expr(inner),
            _ => {},
        }
    }

    fn visit_elem(&mut self, elem: &Option<ExprOrSpread>)
        ensures
            final(self)@ == after_elem(elem, old(self)@),
        decreases elem, 0nat,
    {
        match elem {
            Some(element) => self.visit_expr(&element.expr),
            None => {},
        }
    }

    fn visit_prop(&mut self, prop: &Prop)
        ensures
            final(self)@ == after_prop(prop, old(self)@),
        decreases prop, 0nat,
    {
        match prop {
            Prop::KeyValue(key_value) => {
                match &key_value.key {
                    PropName::Other(nodes) => self.visit_nodes(nodes),
                    _ => {},
                }
                self.visit_expr(&key_value.value);
            },
            Prop::Other(nodes) => self.visit_nodes(nodes),
        }
    }

    fn visit_param(&mut self, param: &Param)
        ensures
            final(self)@ == after_param(param, old(self)@),
        decreases param, 0nat,
    {
        self.visit_nodes(&param.decorators);
        self.visit_pat(&param.pat);
    }

    fn visit_stmt(&mut self, stmt: &Stmt)
        ensures
            final(self)@ == after_stmt(stmt, old(self)@),
        decreases stmt, 0nat,
    {
        match stmt {
            Stmt::Return(Some(arg)) => self.visit_expr(arg),
            Stmt::Return(None) => {},
            Stmt::Other(nodes) => self.visit_nodes(nodes),
        }
    }

    fn visit_function(&mut self, function: &Function)
        ensures
            final(self)@ == after_function(function, old(self)@),
        decreases function, 0nat,
    {
        self.visit_params(&function.params);
        self.visit_nodes(&function.decorators);
        match &function.body {
            Some(stmts) => self.visit_stmts(stmts),
            None => {},
        }
    }

    fn visit_arrow_body(&mut self, arrow_body: &ArrowFunctionBody)
        ensures
            final(self)@ == after_arrow_body(arrow_body, old(self)@),
        decreases arrow_body, 0nat,
    {
        match arrow_body {
            ArrowFunctionBody::Expr(inner) => self.visit_expr(inner),
            ArrowFunctionBody::FunctionBody(stmts) => self.visit_stmts(stmts),
        }
    }

    fn visit_node(&mut self, node: &Node)
        ensures
            final(self)@ == after_node(node, old(self)@),
        decreases node, 0nat,
    {
        match node {
            Node::Expr(inner) => self.visit_expr(inner),
            Node::FnDecl(decl) => self.visit_function(&decl.function),
            Node::VarDeclarator(declarator) => self.visit_var_declarator(declarator),
            Node::Write(target) => {
                self.visit_target(target);
                self.write(target, None, PublicPathFact::RuntimeComputed);
            },
        }
    }

    fn visit_nodes(&mut self, v: &Vec<Node>)
        ensures
            final(self)@ == after_nodes(v, v@.len(), old(self)@),
        decreases v, 1nat,
    {
        let mut i: usize = 0;
        while i < v.len()
            invariant
                i <= v@.len(),
                self@ == after_nodes(v, i as nat, old(self)@),
            decreases v@.len() - i,
        {
            self.visit_node(&v[i]);
            i = i + 1;
        }
    }

    fn visit_exprs(&mut self, v: &Vec<Expr>)
        ensures
            final(self)@ == after_exprs(v, v@.len(), old(self)@),
        decreases v, 1nat,
    {
        let mut i: usize = 0;
        while i < v.len()
            invariant
                i <= v@.len(),
                self@ == after_exprs(v, i as nat, old(self)@),
            decreases v@.len() - i,
        {
            self.visit_expr(&v[i]);
            i = i + 1;
        }
    }

    fn visit_args(&mut self, v: &Vec<ExprOrSpread>)
        ensures
            final(self)@ == after_args(v, v@.len(), old(self)@),
        decreases v, 1nat,
    {
        let mut i: usize = 0;
        while i < v.len()
            invariant
                i <= v@.len(),
                self@ == after_args(v, i as nat, old(self)@),
            decreases v@.len() - i,
        {
            self.visit_expr(&v[i].expr);
            i = i + 1;
        }
    }

    fn visit_elems(&mut self, v: &Vec<Option<ExprOrSpread>>)
        ensures
            final(self)@ == after_elems(v, v@.len(), old(self)@),
        decreases v, 1nat,
    {
        let mut i: usize = 0;
        while i < v.len()
            invariant
                i <= v@.len(),
                self@ == after_elems(v, i as nat, old(self)@),
            decreases v@.len() - i,
        {
            self.visit_elem(&v[i]);
            i = i + 1;
        }
    }

    fn visit_props(&mut self, v: &Vec<Prop>)
        ensures
            final(self)@ == after_props(v, v@.len(), old(self)@),
        decreases v, 1nat,
    {
        let mut i: usize = 0;
        while i < v.len()
            invariant
                i <= v@.len(),
                self@ == after_props(v, i as nat, old(self)@),
            decreases v@.len() - i,
        {
            self.visit_prop(&v[i]);
            i = i + 1;
        }
    }

    fn visit_params(&mut self, v: &Vec<Param>)
        ensures
            final(self)@ == after_params(v, v@.len(), old(self)@),
        decreases v, 1nat,
    {
        let mut i: usize = 0;
        while i < v.len()
            invariant
                i <= v@.len(),
                self@ == after_params(v, i as nat, old(self)@),
            decreases v@.len() - i,
        {
            self.visit_param(&v[i]);
            i = i + 1;
        }
    }

    fn visit_stmts(&mut self, v: &Vec<Stmt>)
        ensures
            final(self)@ == after_stmts(v, v@.len(), old(self)@),
        decreases v, 1nat,
    {
        let mut i: usize = 0;
        while i < v.len()
            invariant
                i <= v@.len(),
                self@ == after_stmts(v, i as nat, old(self)@),
            decreases v@.len() - i,
        {
            self.visit_stmt(&v[i]);
            i = i + 1;
        }
    }

    fn visit_item(&mut self, item: &ModuleItem)
        ensures
            final(self)@ == after_item(item, old(self)@),
    {
        match item {
            ModuleItem::Import(_, nodes) => self.visit_nodes(nodes),
            ModuleItem::ExportNamed(_, nodes) => self.visit_nodes(nodes),
            ModuleItem::ExportAll(_, nodes) => self.visit_nodes(nodes),
            ModuleItem::Other(nodes) => self.visit_nodes(nodes),
        }
    }
}

/// What is left of a script URL after a replacement.
fn replace_in_url(pattern: &str, replacement: &str) -> (r: Option<ScriptTraceValue>)
    ensures
        r == replaced_url(pattern@, replacement@),
{
    if text_eq(replacement, "") && (text_eq(pattern, "^blob:") || text_eq(pattern, "#.*$")
        || text_eq(pattern, r"\?.*$")) {
        Some(ScriptTraceValue::ScriptUrl)
    } else if text_eq(replacement, "/") && text_eq(pattern, r"\/[^\/]+$") {
        Some(ScriptTraceValue::ScriptDirectory)
    } else {
        None
    }
}

} // verus!
