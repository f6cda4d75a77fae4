//! Where the public path facts come from.
//!
//! Counting the expressions, the declarations and the writes of a module that
//! have a property tells what a fact rests on: how many writes it condenses,
//! and which sources and replacements must be there.

use vstd::prelude::*;

use crate::ast::{
    names_prop, only_string_argument, regex_and_string, string_text, stripped, ArrowFunctionBody,
    AssignExpr, AssignOp, AssignTarget, BinaryOp, Binding, CallExpr, Callee, Expr, ExprOrSpread,
    Function, Lit, Mark, MemberExpr, MemberProp, MetaPropKind, Module, ModuleItem, Node, Param, Pat,
    Prop, PropName, Stmt, VarDeclarator,
};
use crate::facts::PublicPathView;
use crate::script_path::{
    after_args, after_arrow_body, after_assign, after_bin, after_callee, after_declarator,
    after_elem, after_elems, after_expr, after_exprs, after_function, after_items, after_member,
    after_node, after_nodes, after_param, after_params, after_pat, after_prop, after_props,
    after_stmt, after_stmts, after_target, allowing, assigned_fact, assigned_value, bound,
    call_value, is_global_member, is_runtime_global, is_script_relative_suffix, member_value,
    module_public_path, public_path_assignments, replaced_url, targets_public_path, trace_start,
    value_of, written, ScriptTraceValue, TraceView,
};
use crate::reading::is_binding;
use crate::recognition::{denotes_binding, is_property};
use crate::surface::called_member;
use crate::tracing::{
    is_relative_directory, law_bound_names, law_script_urls, law_spelled_directories, law_suffixes,
    reads_global, spells_directory, Names,
};

verus! {

/// A property of the nodes of a module: of its expressions, its declarations
/// and its writes.
pub type Property = spec_fn(Node) -> bool;

// ---------------------------------------------------------------------------
// Counting nodes
// ---------------------------------------------------------------------------

/// How many nodes with the property there are in an
/// expression, the expression itself included.
pub open spec fn count_expr(expr: &Expr, p: Property) -> nat
    decreases expr, 0nat,
{
    let inner: nat = match expr {
        Expr::Paren(inner) => count_expr(inner, p),
        Expr::Ident(_) => 0,
        Expr::Lit(_) => 0,
        Expr::Tpl(tpl) => count_exprs(&tpl.exprs, tpl.exprs@.len(), p),
        Expr::Bin(bin) => count_expr(&bin.left, p) + count_expr(&bin.right, p),
        Expr::Assign(assign) => count_target(&assign.left, p) + count_expr(&assign.right, p),
        Expr::Member(member) => count_member(member, p),
        Expr::Call(call) => count_callee(&call.callee, p) + count_args(
            &call.args,
            call.args@.len(),
            p,
        ),
        Expr::Array(elems) => count_elems(elems, elems@.len(), p),
        Expr::Object(props) => count_props(props, props@.len(), p),
        Expr::Fn(function) => count_function(function, p),
        Expr::Arrow(arrow) => count_params(&arrow.params, arrow.params@.len(), p)
            + count_arrow_body(&arrow.body, p),
        Expr::Sequence(exprs) => count_exprs(exprs, exprs@.len(), p),
        Expr::Cond(cond) => count_expr(&cond.test, p) + count_expr(&cond.cons, p) + count_expr(
            &cond.alt,
            p,
        ),
        Expr::MetaProp(_) => 0,
        Expr::Other(nodes) => count_nodes(nodes, nodes@.len(), p),
    };
    if p(Node::Expr(*expr)) {
        inner + 1
    } else {
        inner
    }
}

/// How many nodes with the property there are in a target.
pub open spec fn count_target(target: &AssignTarget, p: Property) -> nat
    decreases target, 0nat,
{
    match target {
        AssignTarget::Ident(_) => 0,
        AssignTarget::Member(member) => count_member(member, p),
        AssignTarget::Paren(inner) => count_target(inner, p),
        AssignTarget::Other(nodes) => count_nodes(nodes, nodes@.len(), p),
    }
}

/// How many nodes with the property there are in a declarator.
pub open spec fn count_declarator(declarator: &VarDeclarator, p: Property) -> nat
    decreases declarator, 0nat,
{
    count_pat(&declarator.name, p) + match &declarator.init {
        Some(init) => count_expr(init, p),
        None => 0,
    }
}

/// How many nodes with the property there are in a pattern.
pub open spec fn count_pat(pat: &Pat, p: Property) -> nat
    decreases pat, 0nat,
{
    match pat {
        Pat::Ident(_) => 0,
        Pat::Other(nodes) => count_nodes(nodes, nodes@.len(), p),
    }
}

/// How many nodes with the property there are in a member expression.
pub open spec fn count_member(member: &MemberExpr, p: Property) -> nat
    decreases member, 0nat,
{
    match &member.prop {
        MemberProp::Computed(inner) => count_expr(&member.obj, p) + count_expr(inner, p),
        _ => count_expr(&member.obj, p),
    }
}

/// How many nodes with the property there are in a callee.
pub open spec fn count_callee(callee: &Callee, p: Property) -> nat
    decreases callee, 0nat,
{
    match callee {
        Callee::Expr(inner) => count_expr(inner, p),
        _ => 0,
    }
}

/// How many nodes with the property there are in an array element.
pub open spec fn count_elem(elem: &Option<ExprOrSpread>, p: Property) -> nat
    decreases elem, 0nat,
{
    match elem {
        Some(element) => count_expr(&element.expr, p),
        None => 0,
    }
}

/// How many nodes with the property there are in a member of an object literal.
pub open spec fn count_prop(prop: &Prop, p: Property) -> nat
    decreases prop, 0nat,
{
    match prop {
        Prop::KeyValue(key_value) => match &key_value.key {
            PropName::Other(nodes) => count_nodes(nodes, nodes@.len(), p) + count_expr(
                &key_value.value,
                p,
            ),
            _ => count_expr(&key_value.value, p),
        },
        Prop::Other(nodes) => count_nodes(nodes, nodes@.len(), p),
    }
}

/// How many nodes with the property there are in a parameter.
pub open spec fn count_param(param: &Param, p: Property) -> nat
    decreases param, 0nat,
{
    count_nodes(&param.decorators, param.decorators@.len(), p) + count_pat(&param.pat, p)
}

/// How many nodes with the property there are in a statement.
pub open spec fn count_stmt(stmt: &Stmt, p: Property) -> nat
    decreases stmt, 0nat,
{
    match stmt {
        Stmt::Return(Some(arg)) => count_expr(arg, p),
        Stmt::Return(None) => 0,
        Stmt::Other(nodes) => count_nodes(nodes, nodes@.len(), p),
    }
}

/// How many nodes with the property there are in a function's parameters and body.
pub open spec fn count_function(function: &Function, p: Property) -> nat
    decreases function, 0nat,
{
    count_params(&function.params, function.params@.len(), p) + count_nodes(
        &function.decorators,
        function.decorators@.len(),
        p,
    ) + match &function.body {
        Some(stmts) => count_stmts(stmts, stmts@.len(), p),
        None => 0,
    }
}

/// How many nodes with the property there are in the body of an arrow function.
pub open spec fn count_arrow_body(arrow_body: &ArrowFunctionBody, p: Property) -> nat
    decreases arrow_body, 0nat,
{
    match arrow_body {
        ArrowFunctionBody::Expr(inner) => count_expr(inner, p),
        ArrowFunctionBody::FunctionBody(stmts) => count_stmts(stmts, stmts@.len(), p),
    }
}

/// How many nodes with the property there are in a node.
pub open spec fn count_node(node: &Node, p: Property) -> nat
    decreases node, 0nat,
{
    match node {
        Node::Expr(inner) => count_expr(inner, p),
        Node::FnDecl(decl) => count_function(&decl.function, p) + (if p(*node) {
            1nat
        } else {
            0nat
        }),
        Node::VarDeclarator(declarator) => count_declarator(declarator, p) + (if p(*node) {
            1nat
        } else {
            0nat
        }),
        Node::Write(target) => count_target(target, p) + (if p(*node) {
            1nat
        } else {
            0nat
        }),
    }
}

/// How many nodes with the property there are in the first
/// `n` of some nodes.
pub open spec fn count_nodes(v: &Vec<Node>, n: nat, p: Property) -> nat
    decreases v, n,
{
    if n == 0 || n > v@.len() {
        0
    } else {
        count_nodes(v, (n - 1) as nat, p) + count_node(&v@[n - 1], p)
    }
}

/// How many nodes with the property there are in the first
/// `n` of some expressions.
pub open spec fn count_exprs(v: &Vec<Expr>, n: nat, p: Property) -> nat
    decreases v, n,
{
    if n == 0 || n > v@.len() {
        0
    } else {
        count_exprs(v, (n - 1) as nat, p) + count_expr(&v@[n - 1], p)
    }
}

/// How many nodes with the property there are in the first
/// `n` of some arguments.
pub open spec fn count_args(v: &Vec<ExprOrSpread>, n: nat, p: Property) -> nat
    decreases v, n,
{
    if n == 0 || n > v@.len() {
        0
    } else {
        count_args(v, (n - 1) as nat, p) + count_expr(&v@[n - 1].expr, p)
    }
}

/// How many nodes with the property there are in the first
/// `n` of some array elements.
pub open spec fn count_elems(v: &Vec<Option<ExprOrSpread>>, n: nat, p: Property) -> nat
    decreases v, n,
{
    if n == 0 || n > v@.len() {
        0
    } else {
        count_elems(v, (n - 1) as nat, p) + count_elem(&v@[n - 1], p)
    }
}

/// How many nodes with the property there are in the first
/// `n` of some members of an object literal.
pub open spec fn count_props(v: &Vec<Prop>, n: nat, p: Property) -> nat
    decreases v, n,
{
    if n == 0 || n > v@.len() {
        0
    } else {
        count_props(v, (n - 1) as nat, p) + count_prop(&v@[n - 1], p)
    }
}

/// How many nodes with the property there are in the first
/// `n` of some parameters.
pub open spec fn count_params(v: &Vec<Param>, n: nat, p: Property) -> nat
    decreases v, n,
{
    if n == 0 || n > v@.len() {
        0
    } else {
        count_params(v, (n - 1) as nat, p) + count_param(&v@[n - 1], p)
    }
}

/// How many nodes with the property there are in the first
/// `n` of some statements.
pub open spec fn count_stmts(v: &Vec<Stmt>, n: nat, p: Property) -> nat
    decreases v, n,
{
    if n == 0 || n > v@.len() {
        0
    } else {
        count_stmts(v, (n - 1) as nat, p) + count_stmt(&v@[n - 1], p)
    }
}

/// How many nodes with the property there are in a module
/// item.
pub open spec fn count_item(item: &ModuleItem, p: Property) -> nat {
    match item {
        ModuleItem::Import(_, nodes) => count_nodes(nodes, nodes@.len(), p),
        ModuleItem::ExportNamed(_, nodes) => count_nodes(nodes, nodes@.len(), p),
        ModuleItem::ExportAll(_, nodes) => count_nodes(nodes, nodes@.len(), p),
        ModuleItem::Other(nodes) => count_nodes(nodes, nodes@.len(), p),
    }
}

/// How many nodes with the property there are in the first
/// `n` items of a module.
pub open spec fn count_items(v: &Vec<ModuleItem>, n: nat, p: Property) -> nat
    decreases n,
{
    if n == 0 || n > v@.len() {
        0
    } else {
        count_items(v, (n - 1) as nat, p) + count_item(&v@[n - 1], p)
    }
}

/// How many nodes with the property there are in a module.
pub open spec fn count_module(module: &Module, p: Property) -> nat {
    count_items(&module.body, module.body@.len(), p)
}

// ---------------------------------------------------------------------------
// Values and their sources
// ---------------------------------------------------------------------------

/// The public path of the runtime is written, by whatever means.
pub open spec fn public_path_write(runtime: Binding) -> Property {
    |node: Node|
        match node {
            Node::Expr(Expr::Assign(assign)) => targets_public_path(&assign.left, runtime),
            Node::Write(target) => targets_public_path(&target, runtime),
            _ => false,
        }
}

/// The public path of the runtime is assigned the given string literal, by a
/// plain `=`.
pub open spec fn literal_write(runtime: Binding, path: Seq<char>) -> Property {
    |node: Node|
        match node {
            Node::Expr(Expr::Assign(assign)) => assign.op == AssignOp::Assign
                && targets_public_path(&assign.left, runtime) && string_text(&assign.right) == Some(
                path,
            ),
            _ => false,
        }
}

/// `runtime.g.importScripts && ...`: the right operand is evaluated in a
/// worker.
pub open spec fn worker_guard(runtime: Binding) -> Property {
    |node: Node|
        match node {
            Node::Expr(Expr::Bin(bin)) => bin.op == BinaryOp::LogicalAnd && is_runtime_global(
                &bin.left,
                "importScripts"@,
                runtime,
            ),
            _ => false,
        }
}

/// The value is known and stands in the set.
spec fn is_in(value: Option<ScriptTraceValue>, values: Set<ScriptTraceValue>) -> bool {
    match value {
        Some(value) => values.contains(value),
        None => false,
    }
}

/// Nothing that is known rests on a value of the set: no binding has one, and
/// no public path is script-relative.
spec fn avoids(st: TraceView, values: Set<ScriptTraceValue>) -> bool {
    &&& forall|id: Binding| #[trigger]
        st.values.contains_key(id) ==> !values.contains(st.values[id])
    &&& forall|i: int|
        0 <= i < st.assignments.len() ==> !((#[trigger] st.assignments[i]) is ScriptRelative)
}

/// Every assignment seen is a fact about an assigned public path, and a
/// script-relative one has a suffix that leads to a directory.
spec fn is_sound(st: TraceView) -> bool {
    forall|i: int|
        0 <= i < st.assignments.len() ==> is_sound_fact(#[trigger] st.assignments[i])
}

spec fn is_sound_fact(fact: PublicPathView) -> bool {
    match fact {
        PublicPathView::ScriptRelative(suffix) => is_script_relative_suffix(suffix),
        PublicPathView::NotFound => false,
        _ => true,
    }
}

/// The expression has a value of the set, and not from the object that it
/// reads or calls a method of.
spec fn introduces(expr: Expr, values: Set<ScriptTraceValue>, st: TraceView) -> bool {
    &&& is_in(value_of(&expr, st), values)
    &&& match expr {
        Expr::Member(member) => !is_in(value_of(&member.obj, st), values),
        Expr::Call(call) => match called_member(&call) {
            Some(member) => !is_in(value_of(&member.obj, st), values),
            None => false,
        },
        _ => false,
    }
}

/// The property and the set of values that an argument is about, for one
/// runtime.
struct Sources {
    p: Property,
    values: Set<ScriptTraceValue>,
    /// Whether `runtime.g.location` may be the script's own URL.
    location: bool,
    runtime: Binding,
    unresolved_mark: Mark,
    /// The literal whose assignments are counted.
    path: Seq<char>,
    /// The binding whose writes are counted.
    id: Binding,
    /// The suffix whose script-relative assignments are counted.
    suffix: Seq<char>,
}

/// How many of the assignments are of the literal `path`.
spec fn count_static(assignments: Seq<PublicPathView>, path: Seq<char>) -> nat
    decreases assignments.len(),
{
    if assignments.len() == 0 {
        0
    } else {
        count_static(assignments.drop_last(), path) + (if assignments.last()
            == PublicPathView::Static(path) {
            1nat
        } else {
            0nat
        })
    }
}

/// How many of the assignments are script-relative with the suffix.
spec fn count_relative(assignments: Seq<PublicPathView>, suffix: Seq<char>) -> nat
    decreases assignments.len(),
{
    if assignments.len() == 0 {
        0
    } else {
        count_relative(assignments.drop_last(), suffix) + (if assignments.last()
            == PublicPathView::ScriptRelative(suffix) {
            1nat
        } else {
            0nat
        })
    }
}

/// The value that a binding is known to have.
pub open spec fn value_at(st: TraceView, id: Binding) -> Option<ScriptTraceValue> {
    if st.values.contains_key(id) {
        Some(st.values[id])
    } else {
        None
    }
}

/// The target is the variable, in any parentheses.
pub open spec fn is_variable(target: &AssignTarget, id: Binding) -> bool
    decreases target,
{
    match target {
        AssignTarget::Paren(inner) => is_variable(inner, id),
        AssignTarget::Ident(ident) => denotes_binding(*ident, id),
        _ => false,
    }
}

/// The variable is written, by whatever means.
pub open spec fn binding_write(id: Binding) -> Property {
    |node: Node|
        match node {
            Node::Expr(Expr::Assign(assign)) => is_variable(&assign.left, id),
            Node::Write(target) => is_variable(&target, id),
            Node::VarDeclarator(VarDeclarator { name: Pat::Ident(ident), init: Some(_) }) =>
                denotes_binding(ident, id),
            _ => false,
        }
}

/// The assignment is `runtime.p = <directory> + "<suffix>"`, where the whole
/// way to the directory of the running script is spelled out, and the suffix
/// leads from there to a directory.
pub open spec fn assigns_relative(assign: &AssignExpr, names: Names, suffix: Seq<char>) -> bool {
    &&& assign.op == AssignOp::Assign
    &&& is_property(&assign.left, names.runtime, "p"@)
    &&& is_relative_directory(suffix)
    &&& match stripped(&assign.right) {
        Expr::Bin(bin) => bin.op == BinaryOp::Add && spells_directory(&bin.left, names)
            && match stripped(&bin.right) {
            Expr::Lit(Lit::Str(Some(value))) => value@ == suffix,
            _ => false,
        },
        _ => false,
    }
}

/// The public path is assigned the directory of the running script, followed
/// by the literal suffix.
pub open spec fn relative_write(names: Names, suffix: Seq<char>) -> Property {
    |node: Node|
        match node {
            Node::Expr(Expr::Assign(assign)) => assigns_relative(&assign, names, suffix),
            _ => false,
        }
}

/// A target is the public path of the runtime if and only if it is
/// `runtime.p`, in any parentheses.
pub proof fn law_public_path_targets(target: &AssignTarget, runtime: Binding)
    ensures
        targets_public_path(target, runtime) <==> is_property(target, runtime, "p"@),
    decreases target,
{
    match target {
        AssignTarget::Paren(inner) => law_public_path_targets(inner, runtime),
        _ => {},
    }
}

impl Sources {
    /// The names that matter to the way to the script.
    spec fn names(self) -> Names {
        Names {
            runtime: self.runtime,
            unresolved_mark: self.unresolved_mark,
            document: self.id,
        }
    }

    /// Every expression that introduces a value of the set has the property.
    spec fn wf(self) -> bool {
        &&& !self.values.contains(ScriptTraceValue::Document)
        &&& self.values.contains(ScriptTraceValue::ScriptDirectory)
        &&& forall|expr: Expr, st: TraceView|
            self.covers(st) && #[trigger] introduces(expr, self.values, st) ==> (self.p)(
                Node::Expr(expr),
            )
    }

    /// The state is one of the same runtime.
    spec fn covers(self, st: TraceView) -> bool {
        &&& st.runtime == self.runtime
        &&& st.unresolved_mark == self.unresolved_mark
        &&& st.allow_runtime_location ==> self.location
    }

    /// The number of places where `runtime.g.location` becomes the script's
    /// own URL is admitted.
    spec fn admits(self, guards: nat) -> bool {
        self.location || guards == 0
    }

    /// How a part of the walk changes what is known: each write of the public
    /// path adds one assignment, without a source nothing comes to rest on a
    /// value of the set, and without a write the binding keeps its value.
    spec fn steps(
        self,
        before: TraceView,
        after: TraceView,
        writes: nat,
        literals: nat,
        sources: nat,
        rewrites: nat,
        relatives: nat,
    ) -> bool {
        &&& after.runtime == before.runtime
        &&& after.unresolved_mark == before.unresolved_mark
        &&& after.allow_runtime_location == before.allow_runtime_location
        &&& after.assignments.len() == before.assignments.len() + writes
        &&& count_static(after.assignments, self.path) == count_static(
            before.assignments,
            self.path,
        ) + literals
        &&& is_sound(before) ==> is_sound(after)
        &&& sources == 0 && avoids(before, self.values) ==> avoids(after, self.values)
        &&& before.assignments.is_prefix_of(after.assignments)
        &&& rewrites == 0 ==> value_at(after, self.id) == value_at(before, self.id)
        &&& rewrites == 0 && !before.values.contains_key(self.id) ==> count_relative(
            after.assignments,
            self.suffix,
        ) >= count_relative(before.assignments, self.suffix) + relatives
    }
}

/// Sources that leave nothing out.
spec fn any_source(runtime: Binding, unresolved_mark: Mark, path: Seq<char>) -> Sources {
    Sources {
        p: |node: Node| true,
        values: set![ScriptTraceValue::ScriptDirectory],
        location: true,
        runtime,
        unresolved_mark,
        path,
        id: (Seq::empty(), 0),
        suffix: Seq::empty(),
    }
}

/// The value of a call, by the member that it calls.
proof fn lemma_call_value(callee: &Expr, call: &CallExpr, st: TraceView)
    ensures
        call_value(callee, call, st) == (match stripped(callee) {
            Expr::Member(member) => call_value(stripped(callee), call, st),
            _ => None,
        }),
    decreases callee,
{
    match callee {
        Expr::Paren(inner) => lemma_call_value(inner, call, st),
        _ => {},
    }
}

/// Stripping parentheses leaves a part of the expression.
proof fn lemma_count_stripped(expr: &Expr, p: Property)
    ensures
        count_expr(stripped(expr), p) <= count_expr(expr, p),
    decreases expr,
{
    match expr {
        Expr::Paren(inner) => lemma_count_stripped(inner, p),
        _ => {},
    }
}

proof fn lemma_count_last(v: &Vec<Expr>, n: nat, p: Property)
    requires
        0 < n <= v@.len(),
    ensures
        count_expr(&v@[n - 1], p) <= count_exprs(v, n, p),
{
}

/// Without a source, no value of the set.
proof fn lemma_value(expr: &Expr, st: TraceView, s: Sources)
    requires
        s.wf(),
        s.covers(st),
        avoids(st, s.values),
        count_expr(expr, s.p) == 0,
    ensures
        !is_in(value_of(expr, st), s.values),
    decreases expr,
{
    match expr {
        Expr::Paren(inner) => lemma_value(inner, st, s),
        Expr::Ident(_) => {},
        Expr::Member(member) => {
            assert(count_expr(&member.obj, s.p) <= count_member(member, s.p));
            lemma_value(&member.obj, st, s);
            if is_in(value_of(expr, st), s.values) {
                assert(introduces(*expr, s.values, st));
            }
        },
        Expr::Call(call) => {
            match &call.callee {
                Callee::Expr(callee) => {
                    lemma_call_value(callee, call, st);
                    assert(count_expr(callee, s.p) == count_callee(&call.callee, s.p));
                    lemma_receiver(callee, st, s);
                    if is_in(value_of(expr, st), s.values) {
                        assert(introduces(*expr, s.values, st));
                    }
                },
                _ => {},
            }
        },
        Expr::Bin(bin) => {
            lemma_value(&bin.left, st, s);
            lemma_value(&bin.right, st, s);
        },
        Expr::Assign(assign) => lemma_value(&assign.right, st, s),
        Expr::Sequence(exprs) => {
            if exprs@.len() > 0 {
                lemma_count_last(exprs, exprs@.len(), s.p);
                lemma_value(&exprs@[exprs@.len() - 1], st, s);
            }
        },
        Expr::Cond(cond) => {
            lemma_value(&cond.cons, st, s);
            lemma_value(&cond.alt, st, s);
        },
        _ => {},
    }
}

proof fn lemma_receiver(callee: &Expr, st: TraceView, s: Sources)
    requires
        s.wf(),
        s.covers(st),
        avoids(st, s.values),
        count_expr(callee, s.p) == 0,
    ensures
        match stripped(callee) {
            Expr::Member(member) => !is_in(value_of(&member.obj, st), s.values),
            _ => true,
        },
    decreases callee,
{
    match callee {
        Expr::Paren(inner) => lemma_receiver(inner, st, s),
        Expr::Member(member) => {
            assert(count_expr(&member.obj, s.p) <= count_member(member, s.p));
            lemma_value(&member.obj, st, s);
        },
        _ => {},
    }
}

// ---------------------------------------------------------------------------
// The walk
// ---------------------------------------------------------------------------

proof fn lemma_expr(expr: &Expr, st: TraceView, s: Sources)
    requires
        s.wf(),
        s.covers(st),
        s.admits(count_expr(expr, worker_guard(s.runtime))),
    ensures
        s.steps(
            st,
            after_expr(expr, st),
            count_expr(expr, public_path_write(s.runtime)),
            count_expr(expr, literal_write(s.runtime, s.path)),
            count_expr(expr, s.p),
            count_expr(expr, binding_write(s.id)),
            count_expr(expr, relative_write(s.names(), s.suffix)),
        ),
    decreases expr, 0nat,
{
    match expr {
        Expr::Paren(inner) => lemma_expr(inner, st, s),
        Expr::Ident(_) => {},
        Expr::Lit(_) => {},
        Expr::Tpl(tpl) => lemma_exprs(&tpl.exprs, tpl.exprs@.len(), st, s),
        Expr::Bin(bin) => {
            let left = after_expr(&bin.left, st);
            lemma_expr(&bin.left, st, s);
            let inside = allowing(
                left,
                left.allow_runtime_location || (bin.op == BinaryOp::LogicalAnd && is_runtime_global(
                    &bin.left,
                    "importScripts"@,
                    left.runtime,
                )),
            );
            lemma_expr(&bin.right, inside, s);
            let right = after_expr(&bin.right, inside);
            assert(after_bin(bin, st) == allowing(right, left.allow_runtime_location));
            assert(avoids(left, s.values) ==> avoids(inside, s.values));
            assert(avoids(right, s.values) ==> avoids(after_bin(bin, st), s.values));
            assert(is_sound(left) ==> is_sound(inside));
            assert(is_sound(right) ==> is_sound(after_bin(bin, st)));
        },
        Expr::Assign(assign) => lemma_assign(assign, st, s),
        Expr::Member(member) => lemma_member(member, st, s),
        Expr::Call(call) => {
            lemma_callee(&call.callee, st, s);
            lemma_args(&call.args, call.args@.len(), after_callee(&call.callee, st), s);
        },
        Expr::Array(elems) => lemma_elems(elems, elems@.len(), st, s),
        Expr::Object(props) => lemma_props(props, props@.len(), st, s),
        Expr::Fn(function) => lemma_function(function, st, s),
        Expr::Arrow(arrow) => {
            lemma_params(&arrow.params, arrow.params@.len(), st, s);
            lemma_arrow_body(
                &arrow.body,
                after_params(&arrow.params, arrow.params@.len(), st),
                s,
            );
        },
        Expr::Sequence(exprs) => lemma_exprs(exprs, exprs@.len(), st, s),
        Expr::Cond(cond) => {
            let test = after_expr(&cond.test, st);
            let cons = after_expr(&cond.cons, test);
            lemma_expr(&cond.test, st, s);
            lemma_expr(&cond.cons, test, s);
            lemma_expr(&cond.alt, cons, s);
        },
        Expr::MetaProp(_) => {},
        Expr::Other(nodes) => lemma_nodes(nodes, nodes@.len(), st, s),
    }
}

/// A number, where something holds.
spec fn counted(holds: bool) -> nat {
    if holds {
        1
    } else {
        0
    }
}

proof fn lemma_assign(assign: &AssignExpr, st: TraceView, s: Sources)
    requires
        s.wf(),
        s.covers(st),
        s.admits(
            count_target(&assign.left, worker_guard(s.runtime)) + count_expr(
                &assign.right,
                worker_guard(s.runtime),
            ),
        ),
    ensures
        s.steps(
            st,
            after_assign(assign, st),
            count_target(&assign.left, public_path_write(s.runtime)) + count_expr(
                &assign.right,
                public_path_write(s.runtime),
            ) + counted(targets_public_path(&assign.left, s.runtime)),
            count_target(&assign.left, literal_write(s.runtime, s.path)) + count_expr(
                &assign.right,
                literal_write(s.runtime, s.path),
            ) + counted(
                assign.op == AssignOp::Assign && targets_public_path(&assign.left, s.runtime)
                    && string_text(&assign.right) == Some(s.path),
            ),
            count_target(&assign.left, s.p) + count_expr(&assign.right, s.p),
            count_target(&assign.left, binding_write(s.id)) + count_expr(
                &assign.right,
                binding_write(s.id),
            ) + counted(is_variable(&assign.left, s.id)),
            count_target(&assign.left, relative_write(s.names(), s.suffix)) + count_expr(
                &assign.right,
                relative_write(s.names(), s.suffix),
            ) + counted(assigns_relative(assign, s.names(), s.suffix)),
        ),
    decreases assign, 0nat,
{
    let target = after_target(&assign.left, st);
    let right = after_expr(&assign.right, target);
    let value = assigned_value(assign, target);
    let fact = assigned_fact(assign, target);
    lemma_target(&assign.left, st, s);
    lemma_expr(&assign.right, target, s);
    if count_target(&assign.left, s.p) + count_expr(&assign.right, s.p) == 0 && avoids(
        st,
        s.values,
    ) {
        lemma_value(&assign.right, target, s);
        match stripped(&assign.right) {
            Expr::Bin(bin) => {
                lemma_count_stripped(&assign.right, s.p);
                lemma_value(&bin.left, target, s);
            },
            _ => {},
        }
        assert(!(fact is ScriptRelative));
    }
    law_public_path_targets(&assign.left, s.runtime);
    if assigns_relative(assign, s.names(), s.suffix) && !target.values.contains_key(s.id) {
        match stripped(&assign.right) {
            Expr::Bin(bin) => {
                law_spelled_directories(&bin.left, s.names(), target);
                law_suffixes(s.suffix);
            },
            _ => {},
        }
        assert(fact == PublicPathView::ScriptRelative(s.suffix));
    }
    lemma_written(&assign.left, right, value, fact, s);
}

/// The target is a pattern, whose parts are written in turn.
spec fn is_pattern(target: &AssignTarget) -> bool
    decreases target,
{
    match target {
        AssignTarget::Paren(inner) => is_pattern(inner),
        AssignTarget::Other(_) => true,
        _ => false,
    }
}

/// What the object and the key of a target count, which a pattern lacks.
spec fn count_head(target: &AssignTarget, p: Property) -> nat {
    if is_pattern(target) {
        0
    } else {
        count_target(target, p)
    }
}

/// What the parts of a pattern count.
spec fn count_parts(target: &AssignTarget, p: Property) -> nat {
    if is_pattern(target) {
        count_target(target, p)
    } else {
        0
    }
}

proof fn lemma_target(target: &AssignTarget, st: TraceView, s: Sources)
    requires
        s.wf(),
        s.covers(st),
        s.admits(count_head(target, worker_guard(s.runtime))),
    ensures
        s.steps(
            st,
            after_target(target, st),
            count_head(target, public_path_write(s.runtime)),
            count_head(target, literal_write(s.runtime, s.path)),
            count_head(target, s.p),
            count_head(target, binding_write(s.id)),
            count_head(target, relative_write(s.names(), s.suffix)),
        ),
    decreases target, 0nat,
{
    match target {
        AssignTarget::Member(member) => lemma_member(member, st, s),
        AssignTarget::Paren(inner) => lemma_target(inner, st, s),
        _ => {},
    }
}

proof fn lemma_written(
    target: &AssignTarget,
    st: TraceView,
    value: Option<ScriptTraceValue>,
    fact: PublicPathView,
    s: Sources,
)
    requires
        s.wf(),
        s.covers(st),
        s.admits(count_parts(target, worker_guard(s.runtime))),
    ensures
        ({
            let after = written(target, st, value, fact);
            &&& after.runtime == st.runtime
            &&& after.unresolved_mark == st.unresolved_mark
            &&& after.allow_runtime_location == st.allow_runtime_location
            &&& after.assignments.len() == st.assignments.len() + count_parts(
                target,
                public_path_write(s.runtime),
            ) + counted(targets_public_path(target, s.runtime))
            &&& count_static(after.assignments, s.path) == count_static(st.assignments, s.path)
                + count_parts(target, literal_write(s.runtime, s.path)) + counted(
                targets_public_path(target, s.runtime) && fact == PublicPathView::Static(s.path),
            )
            &&& is_sound(st) && is_sound_fact(fact) ==> is_sound(after)
            &&& st.assignments.is_prefix_of(after.assignments)
            &&& count_parts(target, binding_write(s.id)) == 0 && !is_variable(target, s.id)
                ==> value_at(after, s.id) == value_at(st, s.id)
            &&& count_parts(target, binding_write(s.id)) == 0 && !st.values.contains_key(s.id)
                ==> count_relative(after.assignments, s.suffix) >= count_relative(
                st.assignments,
                s.suffix,
            ) + count_parts(target, relative_write(s.names(), s.suffix)) + counted(
                targets_public_path(target, s.runtime) && fact == PublicPathView::ScriptRelative(
                    s.suffix,
                ),
            )
            &&& count_parts(target, s.p) == 0 && avoids(st, s.values) && !is_in(value, s.values)
                && !(fact is ScriptRelative) ==> avoids(after, s.values)
        }),
    decreases target, 0nat,
{
    match target {
        AssignTarget::Ident(_) => {},
        AssignTarget::Member(member) => {
            assert(st.assignments.push(fact).drop_last() =~= st.assignments);
        },
        AssignTarget::Paren(inner) => lemma_written(inner, st, value, fact, s),
        AssignTarget::Other(nodes) => lemma_nodes(nodes, nodes@.len(), st, s),
    }
}

proof fn lemma_declarator(declarator: &VarDeclarator, st: TraceView, s: Sources)
    requires
        s.wf(),
        s.covers(st),
        s.admits(count_declarator(declarator, worker_guard(s.runtime))),
    ensures
        s.steps(
            st,
            after_declarator(declarator, st),
            count_declarator(declarator, public_path_write(s.runtime)),
            count_declarator(declarator, literal_write(s.runtime, s.path)),
            count_declarator(declarator, s.p),
            count_declarator(declarator, binding_write(s.id)) + counted(
                (binding_write(s.id))(Node::VarDeclarator(*declarator)),
            ),
            count_declarator(declarator, relative_write(s.names(), s.suffix)),
        ),
    decreases declarator, 0nat,
{
    let after = match &declarator.init {
        Some(init) => after_expr(init, st),
        None => st,
    };
    match &declarator.init {
        Some(init) => {
            lemma_expr(init, st, s);
            if count_expr(init, s.p) == 0 && avoids(st, s.values) {
                lemma_value(init, after, s);
            }
        },
        None => {},
    }
    lemma_pat(&declarator.name, after, s);
}

proof fn lemma_pat(pat: &Pat, st: TraceView, s: Sources)
    requires
        s.wf(),
        s.covers(st),
        s.admits(count_pat(pat, worker_guard(s.runtime))),
    ensures
        s.steps(
            st,
            after_pat(pat, st),
            count_pat(pat, public_path_write(s.runtime)),
            count_pat(pat, literal_write(s.runtime, s.path)),
            count_pat(pat, s.p),
            count_pat(pat, binding_write(s.id)),
            count_pat(pat, relative_write(s.names(), s.suffix)),
        ),
    decreases pat, 0nat,
{
    match pat {
        Pat::Ident(_) => {},
        Pat::Other(nodes) => lemma_nodes(nodes, nodes@.len(), st, s),
    }
}

proof fn lemma_member(member: &MemberExpr, st: TraceView, s: Sources)
    requires
        s.wf(),
        s.covers(st),
        s.admits(count_member(member, worker_guard(s.runtime))),
    ensures
        s.steps(
            st,
            after_member(member, st),
            count_member(member, public_path_write(s.runtime)),
            count_member(member, literal_write(s.runtime, s.path)),
            count_member(member, s.p),
            count_member(member, binding_write(s.id)),
            count_member(member, relative_write(s.names(), s.suffix)),
        ),
    decreases member, 0nat,
{
    lemma_expr(&member.obj, st, s);
    match &member.prop {
        MemberProp::Computed(inner) => lemma_expr(inner, after_expr(&member.obj, st), s),
        _ => {},
    }
}

proof fn lemma_callee(callee: &Callee, st: TraceView, s: Sources)
    requires
        s.wf(),
        s.covers(st),
        s.admits(count_callee(callee, worker_guard(s.runtime))),
    ensures
        s.steps(
            st,
            after_callee(callee, st),
            count_callee(callee, public_path_write(s.runtime)),
            count_callee(callee, literal_write(s.runtime, s.path)),
            count_callee(callee, s.p),
            count_callee(callee, binding_write(s.id)),
            count_callee(callee, relative_write(s.names(), s.suffix)),
        ),
    decreases callee, 0nat,
{
    match callee {
        Callee::Expr(inner) => lemma_expr(inner, st, s),
        _ => {},
    }
}

proof fn lemma_elem(elem: &Option<ExprOrSpread>, st: TraceView, s: Sources)
    requires
        s.wf(),
        s.covers(st),
        s.admits(count_elem(elem, worker_guard(s.runtime))),
    ensures
        s.steps(
            st,
            after_elem(elem, st),
            count_elem(elem, public_path_write(s.runtime)),
            count_elem(elem, literal_write(s.runtime, s.path)),
            count_elem(elem, s.p),
            count_elem(elem, binding_write(s.id)),
            count_elem(elem, relative_write(s.names(), s.suffix)),
        ),
    decreases elem, 0nat,
{
    match elem {
        Some(element) => lemma_expr(&element.expr, st, s),
        None => {},
    }
}

proof fn lemma_prop(prop: &Prop, st: TraceView, s: Sources)
    requires
        s.wf(),
        s.covers(st),
        s.admits(count_prop(prop, worker_guard(s.runtime))),
    ensures
        s.steps(
            st,
            after_prop(prop, st),
            count_prop(prop, public_path_write(s.runtime)),
            count_prop(prop, literal_write(s.runtime, s.path)),
            count_prop(prop, s.p),
            count_prop(prop, binding_write(s.id)),
            count_prop(prop, relative_write(s.names(), s.suffix)),
        ),
    decreases prop, 0nat,
{
    match prop {
        Prop::KeyValue(key_value) => match &key_value.key {
            PropName::Other(nodes) => {
                lemma_nodes(nodes, nodes@.len(), st, s);
                lemma_expr(&key_value.value, after_nodes(nodes, nodes@.len(), st), s);
            },
            _ => lemma_expr(&key_value.value, st, s),
        },
        Prop::Other(nodes) => lemma_nodes(nodes, nodes@.len(), st, s),
    }
}

proof fn lemma_param(param: &Param, st: TraceView, s: Sources)
    requires
        s.wf(),
        s.covers(st),
        s.admits(count_param(param, worker_guard(s.runtime))),
    ensures
        s.steps(
            st,
            after_param(param, st),
            count_param(param, public_path_write(s.runtime)),
            count_param(param, literal_write(s.runtime, s.path)),
            count_param(param, s.p),
            count_param(param, binding_write(s.id)),
            count_param(param, relative_write(s.names(), s.suffix)),
        ),
    decreases param, 0nat,
{
    let after = after_nodes(&param.decorators, param.decorators@.len(), st);
    lemma_nodes(&param.decorators, param.decorators@.len(), st, s);
    lemma_pat(&param.pat, after, s);
}

proof fn lemma_stmt(stmt: &Stmt, st: TraceView, s: Sources)
    requires
        s.wf(),
        s.covers(st),
        s.admits(count_stmt(stmt, worker_guard(s.runtime))),
    ensures
        s.steps(
            st,
            after_stmt(stmt, st),
            count_stmt(stmt, public_path_write(s.runtime)),
            count_stmt(stmt, literal_write(s.runtime, s.path)),
            count_stmt(stmt, s.p),
            count_stmt(stmt, binding_write(s.id)),
            count_stmt(stmt, relative_write(s.names(), s.suffix)),
        ),
    decreases stmt, 0nat,
{
    match stmt {
        Stmt::Return(Some(arg)) => lemma_expr(arg, st, s),
        Stmt::Return(None) => {},
        Stmt::Other(nodes) => lemma_nodes(nodes, nodes@.len(), st, s),
    }
}

proof fn lemma_function(function: &Function, st: TraceView, s: Sources)
    requires
        s.wf(),
        s.covers(st),
        s.admits(count_function(function, worker_guard(s.runtime))),
    ensures
        s.steps(
            st,
            after_function(function, st),
            count_function(function, public_path_write(s.runtime)),
            count_function(function, literal_write(s.runtime, s.path)),
            count_function(function, s.p),
            count_function(function, binding_write(s.id)),
            count_function(function, relative_write(s.names(), s.suffix)),
        ),
    decreases function, 0nat,
{
    let params = after_params(&function.params, function.params@.len(), st);
    let decorators = after_nodes(&function.decorators, function.decorators@.len(), params);
    lemma_params(&function.params, function.params@.len(), st, s);
    lemma_nodes(&function.decorators, function.decorators@.len(), params, s);
    match &function.body {
        Some(stmts) => lemma_stmts(stmts, stmts@.len(), decorators, s),
        None => {},
    }
}

proof fn lemma_arrow_body(arrow_body: &ArrowFunctionBody, st: TraceView, s: Sources)
    requires
        s.wf(),
        s.covers(st),
        s.admits(count_arrow_body(arrow_body, worker_guard(s.runtime))),
    ensures
        s.steps(
            st,
            after_arrow_body(arrow_body, st),
            count_arrow_body(arrow_body, public_path_write(s.runtime)),
            count_arrow_body(arrow_body, literal_write(s.runtime, s.path)),
            count_arrow_body(arrow_body, s.p),
            count_arrow_body(arrow_body, binding_write(s.id)),
            count_arrow_body(arrow_body, relative_write(s.names(), s.suffix)),
        ),
    decreases arrow_body, 0nat,
{
    match arrow_body {
        ArrowFunctionBody::Expr(inner) => lemma_expr(inner, st, s),
        ArrowFunctionBody::FunctionBody(stmts) => lemma_stmts(stmts, stmts@.len(), st, s),
    }
}

proof fn lemma_node(node: &Node, st: TraceView, s: Sources)
    requires
        s.wf(),
        s.covers(st),
        s.admits(count_node(node, worker_guard(s.runtime))),
    ensures
        s.steps(
            st,
            after_node(node, st),
            count_node(node, public_path_write(s.runtime)),
            count_node(node, literal_write(s.runtime, s.path)),
            count_node(node, s.p),
            count_node(node, binding_write(s.id)),
            count_node(node, relative_write(s.names(), s.suffix)),
        ),
    decreases node, 0nat,
{
    match node {
        Node::Expr(inner) => lemma_expr(inner, st, s),
        Node::FnDecl(decl) => lemma_function(&decl.function, st, s),
        Node::VarDeclarator(declarator) => lemma_declarator(declarator, st, s),
        Node::Write(target) => {
            lemma_target(target, st, s);
            lemma_written(
                target,
                after_target(target, st),
                None,
                PublicPathView::RuntimeComputed,
                s,
            );
        },
    }
}

proof fn lemma_nodes(v: &Vec<Node>, n: nat, st: TraceView, s: Sources)
    requires
        s.wf(),
        s.covers(st),
        s.admits(count_nodes(v, n, worker_guard(s.runtime))),
    ensures
        s.steps(
            st,
            after_nodes(v, n, st),
            count_nodes(v, n, public_path_write(s.runtime)),
            count_nodes(v, n, literal_write(s.runtime, s.path)),
            count_nodes(v, n, s.p),
            count_nodes(v, n, binding_write(s.id)),
            count_nodes(v, n, relative_write(s.names(), s.suffix)),
        ),
    decreases v, n,
{
    if n == 0 || n > v@.len() {
    } else {
        lemma_nodes(v, (n - 1) as nat, st, s);
        lemma_node(&v@[n - 1], after_nodes(v, (n - 1) as nat, st), s);
    }
}

proof fn lemma_exprs(v: &Vec<Expr>, n: nat, st: TraceView, s: Sources)
    requires
        s.wf(),
        s.covers(st),
        s.admits(count_exprs(v, n, worker_guard(s.runtime))),
    ensures
        s.steps(
            st,
            after_exprs(v, n, st),
            count_exprs(v, n, public_path_write(s.runtime)),
            count_exprs(v, n, literal_write(s.runtime, s.path)),
            count_exprs(v, n, s.p),
            count_exprs(v, n, binding_write(s.id)),
            count_exprs(v, n, relative_write(s.names(), s.suffix)),
        ),
    decreases v, n,
{
    if n == 0 || n > v@.len() {
    } else {
        lemma_exprs(v, (n - 1) as nat, st, s);
        lemma_expr(&v@[n - 1], after_exprs(v, (n - 1) as nat, st), s);
    }
}

proof fn lemma_args(v: &Vec<ExprOrSpread>, n: nat, st: TraceView, s: Sources)
    requires
        s.wf(),
        s.covers(st),
        s.admits(count_args(v, n, worker_guard(s.runtime))),
    ensures
        s.steps(
            st,
            after_args(v, n, st),
            count_args(v, n, public_path_write(s.runtime)),
            count_args(v, n, literal_write(s.runtime, s.path)),
            count_args(v, n, s.p),
            count_args(v, n, binding_write(s.id)),
            count_args(v, n, relative_write(s.names(), s.suffix)),
        ),
    decreases v, n,
{
    if n == 0 || n > v@.len() {
    } else {
        lemma_args(v, (n - 1) as nat, st, s);
        lemma_expr(&v@[n - 1].expr, after_args(v, (n - 1) as nat, st), s);
    }
}

proof fn lemma_elems(v: &Vec<Option<ExprOrSpread>>, n: nat, st: TraceView, s: Sources)
    requires
        s.wf(),
        s.covers(st),
        s.admits(count_elems(v, n, worker_guard(s.runtime))),
    ensures
        s.steps(
            st,
            after_elems(v, n, st),
            count_elems(v, n, public_path_write(s.runtime)),
            count_elems(v, n, literal_write(s.runtime, s.path)),
            count_elems(v, n, s.p),
            count_elems(v, n, binding_write(s.id)),
            count_elems(v, n, relative_write(s.names(), s.suffix)),
        ),
    decreases v, n,
{
    if n == 0 || n > v@.len() {
    } else {
        lemma_elems(v, (n - 1) as nat, st, s);
        lemma_elem(&v@[n - 1], after_elems(v, (n - 1) as nat, st), s);
    }
}

proof fn lemma_props(v: &Vec<Prop>, n: nat, st: TraceView, s: Sources)
    requires
        s.wf(),
        s.covers(st),
        s.admits(count_props(v, n, worker_guard(s.runtime))),
    ensures
        s.steps(
            st,
            after_props(v, n, st),
            count_props(v, n, public_path_write(s.runtime)),
            count_props(v, n, literal_write(s.runtime, s.path)),
            count_props(v, n, s.p),
            count_props(v, n, binding_write(s.id)),
            count_props(v, n, relative_write(s.names(), s.suffix)),
        ),
    decreases v, n,
{
    if n == 0 || n > v@.len() {
    } else {
        lemma_props(v, (n - 1) as nat, st, s);
        lemma_prop(&v@[n - 1], after_props(v, (n - 1) as nat, st), s);
    }
}

proof fn lemma_params(v: &Vec<Param>, n: nat, st: TraceView, s: Sources)
    requires
        s.wf(),
        s.covers(st),
        s.admits(count_params(v, n, worker_guard(s.runtime))),
    ensures
        s.steps(
            st,
            after_params(v, n, st),
            count_params(v, n, public_path_write(s.runtime)),
            count_params(v, n, literal_write(s.runtime, s.path)),
            count_params(v, n, s.p),
            count_params(v, n, binding_write(s.id)),
            count_params(v, n, relative_write(s.names(), s.suffix)),
        ),
    decreases v, n,
{
    if n == 0 || n > v@.len() {
    } else {
        lemma_params(v, (n - 1) as nat, st, s);
        lemma_param(&v@[n - 1], after_params(v, (n - 1) as nat, st), s);
    }
}

proof fn lemma_stmts(v: &Vec<Stmt>, n: nat, st: TraceView, s: Sources)
    requires
        s.wf(),
        s.covers(st),
        s.admits(count_stmts(v, n, worker_guard(s.runtime))),
    ensures
        s.steps(
            st,
            after_stmts(v, n, st),
            count_stmts(v, n, public_path_write(s.runtime)),
            count_stmts(v, n, literal_write(s.runtime, s.path)),
            count_stmts(v, n, s.p),
            count_stmts(v, n, binding_write(s.id)),
            count_stmts(v, n, relative_write(s.names(), s.suffix)),
        ),
    decreases v, n,
{
    if n == 0 || n > v@.len() {
    } else {
        lemma_stmts(v, (n - 1) as nat, st, s);
        lemma_stmt(&v@[n - 1], after_stmts(v, (n - 1) as nat, st), s);
    }
}

proof fn lemma_items(v: &Vec<ModuleItem>, n: nat, st: TraceView, s: Sources)
    requires
        s.wf(),
        s.covers(st),
        s.admits(count_items(v, n, worker_guard(s.runtime))),
    ensures
        s.steps(
            st,
            after_items(v, n, st),
            count_items(v, n, public_path_write(s.runtime)),
            count_items(v, n, literal_write(s.runtime, s.path)),
            count_items(v, n, s.p),
            count_items(v, n, binding_write(s.id)),
            count_items(v, n, relative_write(s.names(), s.suffix)),
        ),
    decreases n,
{
    if n == 0 || n > v@.len() {
    } else {
        let before = after_items(v, (n - 1) as nat, st);
        lemma_items(v, (n - 1) as nat, st, s);
        match &v@[n - 1] {
            ModuleItem::Import(_, nodes) => lemma_nodes(nodes, nodes@.len(), before, s),
            ModuleItem::ExportNamed(_, nodes) => lemma_nodes(nodes, nodes@.len(), before, s),
            ModuleItem::ExportAll(_, nodes) => lemma_nodes(nodes, nodes@.len(), before, s),
            ModuleItem::Other(nodes) => lemma_nodes(nodes, nodes@.len(), before, s),
        }
    }
}

/// Without a source of the values, the public path is not script-relative.
proof fn lemma_script_relative_source(module: &Module, s: Sources)
    requires
        s.wf(),
        s.admits(count_module(module, worker_guard(s.runtime))),
        module_public_path(module, s.runtime, s.unresolved_mark) is ScriptRelative,
    ensures
        count_module(module, s.p) > 0,
{
    let start = trace_start(s.runtime, s.unresolved_mark);
    lemma_items(&module.body, module.body@.len(), start, s);
}

// ---------------------------------------------------------------------------
// Laws
// ---------------------------------------------------------------------------

/// `x.replace(/\/[^\/]+$/, "/")`: what turns a URL into its directory.
pub open spec fn trims_to_directory() -> Property {
    |node: Node|
        match node {
            Node::Expr(Expr::Call(call)) => match called_member(&call) {
                Some(member) => names_prop(&member.prop, "replace"@) && regex_and_string(&call)
                    == Some((r"\/[^\/]+$"@, "/"@)),
                None => false,
            },
            _ => false,
        }
}

/// `import.meta.url`
pub open spec fn is_import_meta_url(member: &MemberExpr) -> bool {
    names_prop(&member.prop, "url"@) && *stripped(&member.obj) == Expr::MetaProp(
        MetaPropKind::ImportMeta,
    )
}

/// `x.src`, `import.meta.url` or `runtime.g.location`: what reads the URL of a
/// script.
pub open spec fn reads_script_url(runtime: Binding) -> Property {
    |node: Node|
        match node {
            Node::Expr(Expr::Member(member)) => names_prop(&member.prop, "src"@)
                || is_import_meta_url(&member) || is_global_member(&member, "location"@, runtime),
            _ => false,
        }
}

/// `x.currentScript`, `x.getElementsByTagName("script")`, `import.meta.url` or
/// `runtime.g.location`: what leads to the running script.
pub open spec fn leads_to_script(runtime: Binding) -> Property {
    |node: Node|
        match node {
            Node::Expr(Expr::Member(member)) => names_prop(&member.prop, "currentScript"@)
                || is_import_meta_url(&member) || is_global_member(&member, "location"@, runtime),
            Node::Expr(Expr::Call(call)) => match called_member(&call) {
                Some(member) => names_prop(&member.prop, "getElementsByTagName"@)
                    && only_string_argument(&call) == Some("script"@),
                None => false,
            },
            _ => false,
        }
}

/// `x.currentScript`, `x.getElementsByTagName("script")` or `import.meta.url`:
/// what leads to the running script outside a worker.
pub open spec fn leads_to_document_script() -> Property {
    |node: Node|
        match node {
            Node::Expr(Expr::Member(member)) => names_prop(&member.prop, "currentScript"@)
                || is_import_meta_url(&member),
            Node::Expr(Expr::Call(call)) => match called_member(&call) {
                Some(member) => names_prop(&member.prop, "getElementsByTagName"@)
                    && only_string_argument(&call) == Some("script"@),
                None => false,
            },
            _ => false,
        }
}

/// A script-relative public path rests on the replacement of a file name by
/// its directory: without one in the module there is no such claim.
pub proof fn law_script_relative_is_trimmed(
    module: &Module,
    runtime: Binding,
    unresolved_mark: Mark,
)
    requires
        module_public_path(module, runtime, unresolved_mark) is ScriptRelative,
    ensures
        count_module(module, trims_to_directory()) > 0,
{
    let s = Sources {
        p: trims_to_directory(),
        values: set![ScriptTraceValue::ScriptDirectory],
        location: true,
        runtime,
        unresolved_mark,
        path: Seq::empty(),
        id: (Seq::empty(), 0),
        suffix: Seq::empty(),
    };
    assert forall|expr: Expr, st: TraceView|
        s.covers(st) && #[trigger] introduces(expr, s.values, st) implies (s.p)(
        Node::Expr(expr),
    ) by {
        lemma_introduced(expr, s.values, st);
    }
    lemma_script_relative_source(module, s);
}

/// A script-relative public path rests on the URL of a script: without a
/// read of one in the module there is no such claim.
pub proof fn law_script_relative_reads_script_url(
    module: &Module,
    runtime: Binding,
    unresolved_mark: Mark,
)
    requires
        module_public_path(module, runtime, unresolved_mark) is ScriptRelative,
    ensures
        count_module(module, reads_script_url(runtime)) > 0,
{
    let s = Sources {
        p: reads_script_url(runtime),
        values: set![ScriptTraceValue::ScriptUrl, ScriptTraceValue::ScriptDirectory],
        location: true,
        runtime,
        unresolved_mark,
        path: Seq::empty(),
        id: (Seq::empty(), 0),
        suffix: Seq::empty(),
    };
    assert forall|expr: Expr, st: TraceView|
        s.covers(st) && #[trigger] introduces(expr, s.values, st) implies (s.p)(
        Node::Expr(expr),
    ) by {
        lemma_introduced(expr, s.values, st);
    }
    lemma_script_relative_source(module, s);
}

/// A script-relative public path rests on the running script: merely seeing a
/// `.src` property is not enough, it has to be that of the current script or
/// of one found by its tag.
pub proof fn law_script_relative_leads_to_script(
    module: &Module,
    runtime: Binding,
    unresolved_mark: Mark,
)
    requires
        module_public_path(module, runtime, unresolved_mark) is ScriptRelative,
    ensures
        count_module(module, leads_to_script(runtime)) > 0,
{
    let s = Sources {
        p: leads_to_script(runtime),
        values: set![
            ScriptTraceValue::ScriptCollection,
            ScriptTraceValue::ScriptElement,
            ScriptTraceValue::ScriptUrl,
            ScriptTraceValue::ScriptDirectory,
        ],
        location: true,
        runtime,
        unresolved_mark,
        path: Seq::empty(),
        id: (Seq::empty(), 0),
        suffix: Seq::empty(),
    };
    assert forall|expr: Expr, st: TraceView|
        s.covers(st) && #[trigger] introduces(expr, s.values, st) implies (s.p)(
        Node::Expr(expr),
    ) by {
        lemma_introduced(expr, s.values, st);
    }
    lemma_script_relative_source(module, s);
}

/// The location of the global object leads to the running script only in a
/// worker: without an `importScripts` guard a script-relative public path
/// rests on one of the other ways to the script.
pub proof fn law_location_needs_worker_guard(
    module: &Module,
    runtime: Binding,
    unresolved_mark: Mark,
)
    requires
        module_public_path(module, runtime, unresolved_mark) is ScriptRelative,
        count_module(module, worker_guard(runtime)) == 0,
    ensures
        count_module(module, leads_to_document_script()) > 0,
{
    let s = Sources {
        p: leads_to_document_script(),
        values: set![
            ScriptTraceValue::ScriptCollection,
            ScriptTraceValue::ScriptElement,
            ScriptTraceValue::ScriptUrl,
            ScriptTraceValue::ScriptDirectory,
        ],
        location: false,
        runtime,
        unresolved_mark,
        path: Seq::empty(),
        id: (Seq::empty(), 0),
        suffix: Seq::empty(),
    };
    assert forall|expr: Expr, st: TraceView|
        s.covers(st) && #[trigger] introduces(expr, s.values, st) implies (s.p)(
        Node::Expr(expr),
    ) by {
        lemma_introduced(expr, s.values, st);
    }
    lemma_script_relative_source(module, s);
}

/// The expression is the given identifier.
pub open spec fn identifier(id: Binding) -> Property {
    |node: Node|
        match node {
            Node::Expr(Expr::Ident(ident)) => ident.binding() == id,
            _ => false,
        }
}

/// What is known of a binding says nothing of an expression that does not
/// mention it: a binding of the same name in another scope does not vouch for
/// a base.
pub proof fn law_other_binding_does_not_vouch(
    expr: &Expr,
    st: TraceView,
    id: Binding,
    value: Option<ScriptTraceValue>,
)
    requires
        count_expr(expr, identifier(id)) == 0,
    ensures
        value_of(expr, bound(st, id, value)) == value_of(expr, st),
    decreases expr, 0nat,
{
    match expr {
        Expr::Paren(inner) => law_other_binding_does_not_vouch(inner, st, id, value),
        Expr::Ident(_) => {},
        Expr::Member(member) => {
            assert(count_expr(&member.obj, identifier(id)) <= count_member(member, identifier(id)));
            law_other_binding_does_not_vouch(&member.obj, st, id, value);
            assert(member_value(member, bound(st, id, value)) == member_value(member, st));
        },
        Expr::Call(call) => {
            match &call.callee {
                Callee::Expr(callee) => {
                    assert(count_expr(callee, identifier(id)) == count_callee(
                        &call.callee,
                        identifier(id),
                    ));
                    lemma_other_binding_call(callee, call, st, id, value);
                },
                _ => {},
            }
        },
        Expr::Bin(bin) => {
            law_other_binding_does_not_vouch(&bin.left, st, id, value);
            law_other_binding_does_not_vouch(&bin.right, st, id, value);
        },
        Expr::Assign(assign) => law_other_binding_does_not_vouch(&assign.right, st, id, value),
        Expr::Sequence(exprs) => {
            if exprs@.len() > 0 {
                lemma_count_last(exprs, exprs@.len(), identifier(id));
                law_other_binding_does_not_vouch(&exprs@[exprs@.len() - 1], st, id, value);
            }
        },
        Expr::Cond(cond) => {
            law_other_binding_does_not_vouch(&cond.cons, st, id, value);
            law_other_binding_does_not_vouch(&cond.alt, st, id, value);
        },
        _ => {},
    }
}

proof fn lemma_other_binding_call(
    callee: &Expr,
    call: &CallExpr,
    st: TraceView,
    id: Binding,
    value: Option<ScriptTraceValue>,
)
    requires
        count_expr(callee, identifier(id)) == 0,
    ensures
        call_value(callee, call, bound(st, id, value)) == call_value(callee, call, st),
    decreases callee, 1nat,
{
    match callee {
        Expr::Paren(inner) => lemma_other_binding_call(inner, call, st, id, value),
        Expr::Member(member) => {
            assert(count_expr(&member.obj, identifier(id)) <= count_member(member, identifier(id)));
            law_other_binding_does_not_vouch(&member.obj, st, id, value);
        },
        _ => {},
    }
}

/// A binding that is written as a part of a pattern, by `++` or `--`, or by a
/// loop has no known value afterwards.
pub proof fn law_written_binding_is_forgotten(node: &Node, st: TraceView)
    ensures
        match node {
            Node::Write(AssignTarget::Ident(ident)) => !after_node(node, st).values.contains_key(
                ident.binding(),
            ),
            _ => true,
        },
{
    match node {
        Node::Write(target) => {
            let written_state = written(
                target,
                after_target(target, st),
                None,
                PublicPathView::RuntimeComputed,
            );
            assert(after_node(node, st) == written_state);
        },
        _ => {},
    }
}

/// What an introduced value is, for a call: what the called member says.
proof fn lemma_introduced(expr: Expr, values: Set<ScriptTraceValue>, st: TraceView)
    requires
        introduces(expr, values, st),
    ensures
        match expr {
            Expr::Call(call) => match called_member(&call) {
                Some(member) => value_of(&expr, st) == (if names_prop(
                    &member.prop,
                    "getElementsByTagName"@,
                ) && value_of(&member.obj, st) == Some(ScriptTraceValue::Document)
                    && only_string_argument(&call) == Some("script"@) {
                    Some(ScriptTraceValue::ScriptCollection)
                } else if names_prop(&member.prop, "replace"@) && value_of(&member.obj, st) == Some(
                    ScriptTraceValue::ScriptUrl,
                ) {
                    match regex_and_string(&call) {
                        Some((pattern, replacement)) => replaced_url(pattern, replacement),
                        None => None,
                    }
                } else {
                    None
                }),
                None => false,
            },
            Expr::Member(member) => value_of(&expr, st) == member_value(&member, st),
            _ => false,
        },
{
    match expr {
        Expr::Call(call) => match &call.callee {
            Callee::Expr(callee) => {
                lemma_call_value(callee, &call, st);
            },
            _ => {},
        },
        _ => {},
    }
}

/// Each write of the runtime's public path counts, wherever it stands and
/// whatever kind it is, and nothing else does.
pub proof fn law_public_path_assignments_counted(
    module: &Module,
    runtime: Binding,
    unresolved_mark: Mark,
)
    ensures
        public_path_assignments(module, runtime, unresolved_mark).len() == count_module(
            module,
            public_path_write(runtime),
        ),
{
    let s = any_source(runtime, unresolved_mark, Seq::empty());
    lemma_items(&module.body, module.body@.len(), trace_start(runtime, unresolved_mark), s);
}

proof fn lemma_sound(module: &Module, runtime: Binding, unresolved_mark: Mark)
    ensures
        is_sound(
            after_items(
                &module.body,
                module.body@.len(),
                trace_start(runtime, unresolved_mark),
            ),
        ),
{
    let s = any_source(runtime, unresolved_mark, Seq::empty());
    lemma_items(&module.body, module.body@.len(), trace_start(runtime, unresolved_mark), s);
}

/// The suffix of a script-relative public path is not empty, relative, and
/// ends in `/`.
pub proof fn law_script_relative_suffix(module: &Module, runtime: Binding, unresolved_mark: Mark)
    ensures
        match module_public_path(module, runtime, unresolved_mark) {
            PublicPathView::ScriptRelative(suffix) => is_script_relative_suffix(suffix),
            _ => true,
        },
{
    lemma_sound(module, runtime, unresolved_mark);
}

/// No public path is found if and only if none is written.
pub proof fn law_public_path_not_found(module: &Module, runtime: Binding, unresolved_mark: Mark)
    ensures
        module_public_path(module, runtime, unresolved_mark) is NotFound <==> count_module(
            module,
            public_path_write(runtime),
        ) == 0,
{
    law_public_path_assignments_counted(module, runtime, unresolved_mark);
    lemma_sound(module, runtime, unresolved_mark);
}

/// A literal or script-relative public path is written exactly once; a second
/// write makes it runtime-computed.
pub proof fn law_public_path_assigned_once(
    module: &Module,
    runtime: Binding,
    unresolved_mark: Mark,
)
    ensures
        module_public_path(module, runtime, unresolved_mark) is Static || module_public_path(
            module,
            runtime,
            unresolved_mark,
        ) is ScriptRelative ==> count_module(module, public_path_write(runtime)) == 1,
        count_module(module, public_path_write(runtime)) > 1 ==> module_public_path(
            module,
            runtime,
            unresolved_mark,
        ) is RuntimeComputed,
{
    law_public_path_assignments_counted(module, runtime, unresolved_mark);
}

/// The public path is a literal if and only if it is written once in all, by
/// a plain assignment of that string literal.
pub proof fn law_static_public_path(
    module: &Module,
    runtime: Binding,
    unresolved_mark: Mark,
    path: Seq<char>,
)
    ensures
        module_public_path(module, runtime, unresolved_mark) == PublicPathView::Static(path)
            <==> count_module(module, public_path_write(runtime)) == 1 && count_module(
            module,
            literal_write(runtime, path),
        ) == 1,
{
    let s = any_source(runtime, unresolved_mark, path);
    let start = trace_start(runtime, unresolved_mark);
    lemma_items(&module.body, module.body@.len(), start, s);
    let assignments = public_path_assignments(module, runtime, unresolved_mark);
    if assignments.len() == 1 {
        assert(assignments.drop_last() =~= Seq::<PublicPathView>::empty());
        assert(count_static(assignments.drop_last(), path) == 0);
    }
}

/// A public path is script-relative where it is written once in all, as the
/// directory of the running script followed by a literal suffix, and nothing
/// rebinds `document`: by whichever way the script is found, and wherever in
/// the module the write stands.
pub proof fn law_script_relative_is_found(module: &Module, names: Names, suffix: Seq<char>)
    requires
        count_module(module, public_path_write(names.runtime)) == 1,
        count_module(module, relative_write(names, suffix)) > 0,
        count_module(module, binding_write(names.document)) == 0,
    ensures
        module_public_path(module, names.runtime, names.unresolved_mark)
            == PublicPathView::ScriptRelative(suffix),
{
    let any = any_source(names.runtime, names.unresolved_mark, Seq::empty());
    let s = Sources { id: names.document, suffix, ..any };
    let start = trace_start(names.runtime, names.unresolved_mark);
    assert(s.names() == names);
    assert forall|expr: Expr, st: TraceView|
        s.covers(st) && #[trigger] introduces(expr, s.values, st) implies (s.p)(
        Node::Expr(expr),
    ) by {}
    lemma_items(&module.body, module.body@.len(), start, s);
    let assignments = public_path_assignments(module, names.runtime, names.unresolved_mark);
    assert(count_relative(start.assignments, suffix) == 0);
    assert(assignments.drop_last() =~= Seq::<PublicPathView>::empty());
    assert(count_relative(assignments.drop_last(), suffix) == 0);
}

/// A binding that is not written keeps its value: what is known of it before
/// some nodes is known after them.
pub proof fn law_unwritten_binding_keeps_its_value(
    v: &Vec<Node>,
    n: nat,
    st: TraceView,
    id: Binding,
)
    requires
        count_nodes(v, n, binding_write(id)) == 0,
    ensures
        value_at(after_nodes(v, n, st), id) == value_at(st, id),
        st.assignments.is_prefix_of(after_nodes(v, n, st).assignments),
{
    let any = any_source(st.runtime, st.unresolved_mark, Seq::empty());
    let s = Sources { id, ..any };
    assert forall|expr: Expr, st: TraceView|
        s.covers(st) && #[trigger] introduces(expr, s.values, st) implies (s.p)(
        Node::Expr(expr),
    ) by {}
    lemma_nodes(v, n, st, s);
}

/// The same of a single node.
pub proof fn law_unwritten_binding_keeps_its_value_at(node: &Node, st: TraceView, id: Binding)
    requires
        count_node(node, binding_write(id)) == 0,
    ensures
        value_at(after_node(node, st), id) == value_at(st, id),
{
    let any = any_source(st.runtime, st.unresolved_mark, Seq::empty());
    let s = Sources { id, ..any };
    assert forall|expr: Expr, st: TraceView|
        s.covers(st) && #[trigger] introduces(expr, s.values, st) implies (s.p)(
        Node::Expr(expr),
    ) by {}
    lemma_node(node, st, s);
}

/// An expression changes neither the runtime nor what may be said of its
/// location.
pub proof fn law_walk_keeps_the_setting(expr: &Expr, st: TraceView)
    ensures
        after_expr(expr, st).runtime == st.runtime,
        after_expr(expr, st).unresolved_mark == st.unresolved_mark,
        after_expr(expr, st).allow_runtime_location == st.allow_runtime_location,
{
    lemma_expr(expr, st, any_source(st.runtime, st.unresolved_mark, Seq::empty()));
}

/// A variable that is assigned has the value that is assigned to it; any other
/// assignment than `=` leaves no known value.
pub proof fn law_assigned_variable(expr: &Expr, st: TraceView, id: Binding)
    requires
        expr matches Expr::Assign(assign) && is_variable(&assign.left, id),
    ensures
        expr->Assign_0.op == AssignOp::Assign ==> value_at(after_expr(expr, st), id) == value_of(
            &expr->Assign_0.right,
            st,
        ),
        expr->Assign_0.op != AssignOp::Assign ==> value_at(after_expr(expr, st), id) is None,
{
    match expr {
        Expr::Assign(assign) => {
            lemma_variable_target(&assign.left, st, id);
            assert(after_expr(expr, st) == after_assign(assign, st));
            lemma_variable_written(
                &assign.left,
                after_expr(&assign.right, st),
                id,
                assigned_value(assign, st),
                assigned_fact(assign, st),
            );
        },
        _ => {},
    }
}

/// A variable that is written by anything else than an assignment has no known
/// value afterwards.
pub proof fn law_written_variable(node: &Node, st: TraceView, id: Binding)
    requires
        node matches Node::Write(target) && is_variable(&target, id),
    ensures
        value_at(after_node(node, st), id) is None,
{
    match node {
        Node::Write(target) => {
            let at = after_target(target, st);
            lemma_variable_written(target, at, id, None, PublicPathView::RuntimeComputed);
            assert(after_node(node, st) == written(
                target,
                at,
                None,
                PublicPathView::RuntimeComputed,
            ));
        },
        _ => {},
    }
}

/// A variable that is declared with an initializer has the value of it.
pub proof fn law_declared_variable(node: &Node, st: TraceView, id: Binding)
    requires
        node matches Node::VarDeclarator(declarator) && (declarator.name matches Pat::Ident(ident)
            && denotes_binding(ident, id)) && declarator.init is Some,
    ensures
        ({
            let init = &node->VarDeclarator_0.init->0;
            value_at(after_node(node, st), id) == value_of(init, after_expr(init, st))
        }),
{
    match node {
        Node::VarDeclarator(declarator) => {
            assert(after_node(node, st) == after_declarator(declarator, st));
        },
        _ => {},
    }
}

proof fn lemma_variable_target(target: &AssignTarget, st: TraceView, id: Binding)
    requires
        is_variable(target, id),
    ensures
        after_target(target, st) == st,
    decreases target,
{
    match target {
        AssignTarget::Paren(inner) => lemma_variable_target(inner, st, id),
        _ => {},
    }
}

proof fn lemma_variable_written(
    target: &AssignTarget,
    st: TraceView,
    id: Binding,
    value: Option<ScriptTraceValue>,
    fact: PublicPathView,
)
    requires
        is_variable(target, id),
    ensures
        value_at(written(target, st, value, fact), id) == value,
    decreases target,
{
    match target {
        AssignTarget::Paren(inner) => lemma_variable_written(inner, st, id, value, fact),
        _ => {},
    }
}

/// Reading an identifier, a literal or a property changes nothing.
proof fn lemma_reading(expr: &Expr, st: TraceView)
    requires
        match stripped(expr) {
            Expr::Ident(_) => true,
            Expr::Lit(_) => true,
            _ => false,
        },
    ensures
        after_expr(expr, st) == st,
    decreases expr,
{
    match expr {
        Expr::Paren(inner) => lemma_reading(inner, st),
        _ => {},
    }
}

proof fn lemma_property_target(
    target: &AssignTarget,
    st: TraceView,
    value: Option<ScriptTraceValue>,
    fact: PublicPathView,
)
    requires
        is_property(target, st.runtime, "p"@),
    ensures
        after_target(target, st) == st,
        written(target, st, value, fact).assignments == st.assignments.push(fact),
    decreases target,
{
    law_public_path_targets(target, st.runtime);
    match target {
        AssignTarget::Paren(inner) => lemma_property_target(inner, st, value, fact),
        AssignTarget::Member(member) => {
            lemma_reading(&member.obj, st);
            assert(after_target(target, st) == after_member(member, st));
        },
        _ => {},
    }
}

/// `runtime.p = x + "<suffix>"` makes the public path script-relative where `x`
/// is known to be the directory of the running script.
pub proof fn law_public_path_from_a_variable(
    expr: &Expr,
    st: TraceView,
    id: Binding,
    suffix: Seq<char>,
)
    requires
        assigns_variable_and_suffix(expr, st.runtime, id, suffix),
        is_relative_directory(suffix),
        value_at(st, id) == Some(ScriptTraceValue::ScriptDirectory),
    ensures
        after_expr(expr, st).assignments == st.assignments.push(
            PublicPathView::ScriptRelative(suffix),
        ),
{
    match expr {
        Expr::Assign(assign) => {
            let fact = assigned_fact(assign, st);
            law_suffixes(suffix);
            law_public_path_targets(&assign.left, st.runtime);
            match stripped(&assign.right) {
                Expr::Bin(bin) => {
                    law_bound_names(&bin.left, st, id);
                    lemma_sum_reads(&assign.right, st);
                },
                _ => {},
            }
            assert(fact == PublicPathView::ScriptRelative(suffix));
            lemma_property_target(&assign.left, st, assigned_value(assign, st), fact);
            assert(after_expr(expr, st) == after_assign(assign, st));
        },
        _ => {},
    }
}

/// `expr` is `runtime.p = x + "<suffix>"`.
pub open spec fn assigns_variable_and_suffix(
    expr: &Expr,
    runtime: Binding,
    id: Binding,
    suffix: Seq<char>,
) -> bool {
    match expr {
        Expr::Assign(assign) => assign.op == AssignOp::Assign && is_property(
            &assign.left,
            runtime,
            "p"@,
        ) && match stripped(&assign.right) {
            Expr::Bin(bin) => bin.op == BinaryOp::Add && is_binding(&bin.left, id)
                && match stripped(&bin.right) {
                Expr::Lit(Lit::Str(Some(value))) => value@ == suffix,
                _ => false,
            },
            _ => false,
        },
        _ => false,
    }
}

proof fn lemma_sum_reads(expr: &Expr, st: TraceView)
    requires
        stripped(expr) matches Expr::Bin(bin) && bin.op == BinaryOp::Add && (match stripped(
            &bin.left,
        ) {
            Expr::Ident(_) => true,
            _ => false,
        }) && (match stripped(&bin.right) {
            Expr::Lit(_) => true,
            _ => false,
        }),
    ensures
        after_expr(expr, st) == st,
    decreases expr,
{
    match expr {
        Expr::Paren(inner) => lemma_sum_reads(inner, st),
        Expr::Bin(bin) => {
            lemma_reading(&bin.left, st);
            assert(after_expr(&bin.left, st) == st);
            assert(allowing(st, st.allow_runtime_location) == st);
            lemma_reading(&bin.right, st);
            assert(after_expr(expr, st) == after_bin(bin, st));
        },
        _ => {},
    }
}

/// The value of a variable reaches the public path: after `x = <directory>`,
/// `runtime.p = x + "<suffix>"` is script-relative, whatever stands in
/// between, if nothing there writes `x`.
pub proof fn law_directory_reaches_the_public_path(
    v: &Vec<Node>,
    i: int,
    j: int,
    st: TraceView,
    id: Binding,
    suffix: Seq<char>,
)
    requires
        0 <= i < j < v@.len(),
        v@[i] matches Node::Expr(expr) && (expr matches Expr::Assign(assign) && assign.op
            == AssignOp::Assign && is_variable(&assign.left, id) && value_of(
            &assign.right,
            after_nodes(v, i as nat, st),
        ) == Some(ScriptTraceValue::ScriptDirectory)),
        forall|k: int| i < k < j ==> count_node(&#[trigger] v@[k], binding_write(id)) == 0,
        v@[j] matches Node::Expr(expr) && assigns_variable_and_suffix(
            &expr,
            st.runtime,
            id,
            suffix,
        ),
        is_relative_directory(suffix),
    ensures
        after_nodes(v, (j + 1) as nat, st).assignments == after_nodes(
            v,
            j as nat,
            st,
        ).assignments.push(PublicPathView::ScriptRelative(suffix)),
{
    let before = after_nodes(v, i as nat, st);
    match &v@[i] {
        Node::Expr(expr) => {
            law_assigned_variable(expr, before, id);
            assert(after_node(&v@[i], before) == after_expr(expr, before));
        },
        _ => {},
    }
    assert(after_nodes(v, (i + 1) as nat, st) == after_node(&v@[i], before));
    lemma_kept(v, i + 1, j, st, id);
    let at = after_nodes(v, j as nat, st);
    lemma_same_runtime(v, j as nat, st);
    match &v@[j] {
        Node::Expr(expr) => {
            law_public_path_from_a_variable(expr, at, id, suffix);
            assert(after_node(&v@[j], at) == after_expr(expr, at));
        },
        _ => {},
    }
}

proof fn lemma_same_runtime(v: &Vec<Node>, n: nat, st: TraceView)
    ensures
        after_nodes(v, n, st).runtime == st.runtime,
{
    let s = any_source(st.runtime, st.unresolved_mark, Seq::empty());
    lemma_nodes(v, n, st, s);
}

proof fn lemma_kept(v: &Vec<Node>, i: int, j: int, st: TraceView, id: Binding)
    requires
        0 <= i <= j <= v@.len(),
        forall|k: int| i <= k < j ==> count_node(&#[trigger] v@[k], binding_write(id)) == 0,
    ensures
        value_at(after_nodes(v, j as nat, st), id) == value_at(after_nodes(v, i as nat, st), id),
    decreases j - i,
{
    if i < j {
        lemma_kept(v, i, j - 1, st, id);
        let before = after_nodes(v, (j - 1) as nat, st);
        assert(count_node(&v@[j - 1], binding_write(id)) == 0);
        law_unwritten_binding_keeps_its_value_at(&v@[j - 1], before, id);
        assert(after_nodes(v, j as nat, st) == after_node(&v@[j - 1], before));
    }
}

/// Behind `runtime.g.importScripts &&` the location of the global object is the
/// URL of the running script, and only there.
pub proof fn law_location_behind_the_worker_guard(
    expr: &Expr,
    assignment: &Expr,
    st: TraceView,
    id: Binding,
)
    requires
        expr matches Expr::Bin(bin) && bin.op == BinaryOp::LogicalAnd && reads_global(
            &bin.left,
            "importScripts"@,
            st.runtime,
        ) && *bin.right == *assignment,
        assignment matches Expr::Assign(assign) && assign.op == AssignOp::Assign && is_variable(
            &assign.left,
            id,
        ),
    ensures
        value_at(after_expr(expr, st), id) == value_of(
            &assignment->Assign_0.right,
            TraceView { allow_runtime_location: true, ..st },
        ),
        reads_global(&assignment->Assign_0.right, "location"@, st.runtime) ==> value_at(
            after_expr(expr, st),
            id,
        ) == Some(ScriptTraceValue::ScriptUrl),
        after_expr(expr, st).allow_runtime_location == st.allow_runtime_location,
{
    match expr {
        Expr::Bin(bin) => {
            let inside = allowing(st, true);
            lemma_global_reads(&bin.left, "importScripts"@, st.runtime, st);
            law_assigned_variable(&bin.right, inside, id);
            assert(after_expr(expr, st) == after_bin(bin, st));
            assert(is_runtime_global(&bin.left, "importScripts"@, st.runtime));
            law_script_urls(
                &assignment->Assign_0.right,
                &assignment->Assign_0.right,
                inside,
            );
        },
        _ => {},
    }
}

proof fn lemma_global_reads(expr: &Expr, name: Seq<char>, runtime: Binding, st: TraceView)
    requires
        reads_global(expr, name, runtime),
    ensures
        after_expr(expr, st) == st,
    decreases expr,
{
    match expr {
        Expr::Paren(inner) => lemma_global_reads(inner, name, runtime, st),
        Expr::Member(member) => {
            lemma_member_reads(&member.obj, st);
            assert(after_expr(expr, st) == after_member(member, st));
        },
        _ => {},
    }
}

proof fn lemma_member_reads(expr: &Expr, st: TraceView)
    requires
        stripped(expr) matches Expr::Member(member) && member.prop is Ident && (match stripped(
            &member.obj,
        ) {
            Expr::Ident(_) => true,
            _ => false,
        }),
    ensures
        after_expr(expr, st) == st,
    decreases expr,
{
    match expr {
        Expr::Paren(inner) => lemma_member_reads(inner, st),
        Expr::Member(member) => {
            lemma_reading(&member.obj, st);
            assert(after_expr(expr, st) == after_member(member, st));
        },
        _ => {},
    }
}

} // verus!
