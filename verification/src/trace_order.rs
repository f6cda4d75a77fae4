//! The order in which the public path is traced.
//!
//! What is known after a part of a module is what is known after the parts
//! directly below it, one after the other: nothing is skipped, and nothing
//! that one of them says is forgotten. Only a write adds to that, and only the
//! worker guard has a say in how the part behind it is read.

use vstd::prelude::*;

use crate::ast::{
    ArrowFunctionBody, AssignExpr, AssignOp, AssignTarget, BinExpr, BinaryOp, Binding, Callee, Expr,
    ExprOrSpread, Mark, MemberExpr, MemberProp, Module, ModuleItem, Node, Param, Pat, Prop,
    PropName, Stmt, VarDeclarator,
};
use crate::facts::PublicPathView;
use crate::origins::{is_variable, law_public_path_targets, law_walk_keeps_the_setting, value_at};
use crate::parts::{
    arg_parts, children, elem_parts, expr_parts, member_parts, node_parts, param_parts, prop_parts,
    stmt_parts, Part,
};
use crate::recognition::{denotes_binding, is_property};
use crate::script_path::{
    after_args, after_arrow_body, after_assign, after_bin, after_callee, after_declarator,
    after_elem, after_elems, after_expr, after_exprs, after_function, after_item, after_items,
    after_member, after_node, after_nodes, after_param, after_params, after_pat, after_prop,
    after_props, after_stmt, after_stmts, after_target, allowing, assigned_fact, assigned_value,
    public_path_assignments, public_path_of, trace_start, written, ScriptTraceValue, TraceView,
};
use crate::tracing::{law_global_properties, reads_global};

verus! {

/// What is known after a part.
pub open spec fn traced(part: Part, st: TraceView) -> TraceView {
    match part {
        Part::Expr(expr) => after_expr(expr, st),
        Part::Elem(elem) => after_elem(elem, st),
        Part::Target(target) => after_target(target, st),
        Part::Prop(prop) => after_prop(prop, st),
        Part::Param(param) => after_param(param, st),
        Part::Pat(pat) => after_pat(pat, st),
        Part::Stmt(stmt) => after_stmt(stmt, st),
        Part::Function(function) => after_function(function, st),
        Part::Node(node) => after_node(node, st),
        Part::Item(item) => after_item(item, st),
    }
}

/// What is known after some parts, one after the other.
pub open spec fn traced_in_turn(parts: Seq<Part>, st: TraceView) -> TraceView
    decreases parts.len(),
{
    if parts.len() == 0 {
        st
    } else {
        traced(parts.last(), traced_in_turn(parts.drop_last(), st))
    }
}

/// The part writes something, guards something, or is a pattern that is
/// written to.
pub open spec fn writes_or_guards(part: Part) -> bool {
    match part {
        Part::Expr(Expr::Assign(_)) => true,
        Part::Expr(Expr::Bin(_)) => true,
        Part::Target(AssignTarget::Other(_)) => true,
        Part::Node(Node::VarDeclarator(_)) => true,
        Part::Node(Node::Write(_)) => true,
        _ => false,
    }
}

/// The operand on the right is evaluated in a worker.
pub open spec fn is_worker_guard(bin: &BinExpr, runtime: Binding) -> bool {
    bin.op == BinaryOp::LogicalAnd && reads_global(&bin.left, "importScripts"@, runtime)
}

/// At most what is known of the variable differs.
pub open spec fn same_but_for(a: TraceView, b: TraceView, id: Binding) -> bool {
    &&& a.runtime == b.runtime
    &&& a.unresolved_mark == b.unresolved_mark
    &&& a.allow_runtime_location == b.allow_runtime_location
    &&& a.assignments == b.assignments
    &&& forall|other: Binding| other != id ==> #[trigger] value_at(a, other) == value_at(b, other)
}

/// `target` is a pattern of the nodes, in any parentheses.
pub open spec fn is_pattern(target: &AssignTarget, nodes: Seq<Node>) -> bool
    decreases target,
{
    match target {
        AssignTarget::Paren(inner) => is_pattern(inner, nodes),
        AssignTarget::Other(inner) => inner@ == nodes,
        _ => false,
    }
}

// ---------------------------------------------------------------------------
// Parts in turn
// ---------------------------------------------------------------------------

proof fn lemma_one(part: Part, st: TraceView)
    ensures
        traced_in_turn(seq![part], st) == traced(part, st),
{
    assert(seq![part].drop_last() =~= Seq::empty());
    assert(traced_in_turn(Seq::empty(), st) == st);
}

proof fn lemma_both(a: Seq<Part>, b: Seq<Part>, st: TraceView)
    ensures
        traced_in_turn(a + b, st) == traced_in_turn(b, traced_in_turn(a, st)),
    decreases b.len(),
{
    if b.len() == 0 {
        assert(a + b =~= a);
    } else {
        lemma_both(a, b.drop_last(), st);
        assert((a + b).drop_last() =~= a + b.drop_last());
        assert((a + b).last() == b.last());
    }
}

proof fn lemma_two(a: Part, b: Part, st: TraceView)
    ensures
        traced_in_turn(seq![a, b], st) == traced(b, traced(a, st)),
{
    assert(seq![a, b].drop_last() =~= seq![a]);
    lemma_one(a, st);
}

proof fn lemma_three(a: Part, b: Part, c: Part, st: TraceView)
    ensures
        traced_in_turn(seq![a, b, c], st) == traced(c, traced(b, traced(a, st))),
{
    assert(seq![a, b, c].drop_last() =~= seq![a, b]);
    lemma_two(a, b, st);
}

proof fn lemma_nodes(v: &Vec<Node>, n: nat, st: TraceView)
    requires
        n <= v@.len(),
    ensures
        traced_in_turn(node_parts(v).take(n as int), st) == after_nodes(v, n, st),
        n == v@.len() ==> traced_in_turn(node_parts(v), st) == after_nodes(v, n, st),
    decreases n,
{
    let parts = node_parts(v).take(n as int);
    if n > 0 {
        lemma_nodes(v, (n - 1) as nat, st);
        assert(parts.drop_last() =~= node_parts(v).take(n - 1));
    }
    assert(n == v@.len() ==> parts =~= node_parts(v));
}

proof fn lemma_exprs(v: &Vec<Expr>, n: nat, st: TraceView)
    requires
        n <= v@.len(),
    ensures
        traced_in_turn(expr_parts(v).take(n as int), st) == after_exprs(v, n, st),
        n == v@.len() ==> traced_in_turn(expr_parts(v), st) == after_exprs(v, n, st),
    decreases n,
{
    let parts = expr_parts(v).take(n as int);
    if n > 0 {
        lemma_exprs(v, (n - 1) as nat, st);
        assert(parts.drop_last() =~= expr_parts(v).take(n - 1));
    }
    assert(n == v@.len() ==> parts =~= expr_parts(v));
}

proof fn lemma_args(v: &Vec<ExprOrSpread>, n: nat, st: TraceView)
    requires
        n <= v@.len(),
    ensures
        traced_in_turn(arg_parts(v).take(n as int), st) == after_args(v, n, st),
        n == v@.len() ==> traced_in_turn(arg_parts(v), st) == after_args(v, n, st),
    decreases n,
{
    let parts = arg_parts(v).take(n as int);
    if n > 0 {
        lemma_args(v, (n - 1) as nat, st);
        assert(parts.drop_last() =~= arg_parts(v).take(n - 1));
    }
    assert(n == v@.len() ==> parts =~= arg_parts(v));
}

proof fn lemma_elems(v: &Vec<Option<ExprOrSpread>>, n: nat, st: TraceView)
    requires
        n <= v@.len(),
    ensures
        traced_in_turn(elem_parts(v).take(n as int), st) == after_elems(v, n, st),
        n == v@.len() ==> traced_in_turn(elem_parts(v), st) == after_elems(v, n, st),
    decreases n,
{
    let parts = elem_parts(v).take(n as int);
    if n > 0 {
        lemma_elems(v, (n - 1) as nat, st);
        assert(parts.drop_last() =~= elem_parts(v).take(n - 1));
    }
    assert(n == v@.len() ==> parts =~= elem_parts(v));
}

proof fn lemma_props(v: &Vec<Prop>, n: nat, st: TraceView)
    requires
        n <= v@.len(),
    ensures
        traced_in_turn(prop_parts(v).take(n as int), st) == after_props(v, n, st),
        n == v@.len() ==> traced_in_turn(prop_parts(v), st) == after_props(v, n, st),
    decreases n,
{
    let parts = prop_parts(v).take(n as int);
    if n > 0 {
        lemma_props(v, (n - 1) as nat, st);
        assert(parts.drop_last() =~= prop_parts(v).take(n - 1));
    }
    assert(n == v@.len() ==> parts =~= prop_parts(v));
}

proof fn lemma_params(v: &Vec<Param>, n: nat, st: TraceView)
    requires
        n <= v@.len(),
    ensures
        traced_in_turn(param_parts(v).take(n as int), st) == after_params(v, n, st),
        n == v@.len() ==> traced_in_turn(param_parts(v), st) == after_params(v, n, st),
    decreases n,
{
    let parts = param_parts(v).take(n as int);
    if n > 0 {
        lemma_params(v, (n - 1) as nat, st);
        assert(parts.drop_last() =~= param_parts(v).take(n - 1));
    }
    assert(n == v@.len() ==> parts =~= param_parts(v));
}

proof fn lemma_stmts(v: &Vec<Stmt>, n: nat, st: TraceView)
    requires
        n <= v@.len(),
    ensures
        traced_in_turn(stmt_parts(v).take(n as int), st) == after_stmts(v, n, st),
        n == v@.len() ==> traced_in_turn(stmt_parts(v), st) == after_stmts(v, n, st),
    decreases n,
{
    let parts = stmt_parts(v).take(n as int);
    if n > 0 {
        lemma_stmts(v, (n - 1) as nat, st);
        assert(parts.drop_last() =~= stmt_parts(v).take(n - 1));
    }
    assert(n == v@.len() ==> parts =~= stmt_parts(v));
}

proof fn lemma_member(member: &MemberExpr, st: TraceView)
    ensures
        traced_in_turn(member_parts(member), st) == after_member(member, st),
{
    match &member.prop {
        MemberProp::Computed(key) => lemma_two(Part::Expr(&member.obj), Part::Expr(key), st),
        _ => lemma_one(Part::Expr(&member.obj), st),
    }
}

proof fn lemma_traced_expr(expr: &Expr, st: TraceView)
    requires
        !writes_or_guards(Part::Expr(expr)),
    ensures
        after_expr(expr, st) == traced_in_turn(children(Part::Expr(expr)), st),
{
    match expr {
        Expr::Paren(inner) => lemma_one(Part::Expr(inner), st),
        Expr::Tpl(tpl) => lemma_exprs(&tpl.exprs, tpl.exprs@.len(), st),
        Expr::Member(member) => lemma_member(member, st),
        Expr::Call(call) => {
            let after = after_callee(&call.callee, st);
            lemma_args(&call.args, call.args@.len(), after);
            match &call.callee {
                Callee::Expr(callee) => {
                    lemma_one(Part::Expr(callee), st);
                    lemma_both(seq![Part::Expr(callee)], arg_parts(&call.args), st);
                },
                _ => {},
            }
        },
        Expr::Array(elems) => lemma_elems(elems, elems@.len(), st),
        Expr::Object(props) => lemma_props(props, props@.len(), st),
        Expr::Fn(function) => lemma_one(Part::Function(function), st),
        Expr::Arrow(arrow) => {
            let params = param_parts(&arrow.params);
            let after = after_params(&arrow.params, arrow.params@.len(), st);
            lemma_params(&arrow.params, arrow.params@.len(), st);
            assert(after_expr(expr, st) == after_arrow_body(&arrow.body, after));
            match &arrow.body {
                ArrowFunctionBody::Expr(inner) => {
                    lemma_one(Part::Expr(inner), after);
                    lemma_both(params, seq![Part::Expr(inner)], st);
                },
                ArrowFunctionBody::FunctionBody(stmts) => {
                    lemma_stmts(stmts, stmts@.len(), after);
                    lemma_both(params, stmt_parts(stmts), st);
                },
            }
        },
        Expr::Sequence(exprs) => lemma_exprs(exprs, exprs@.len(), st),
        Expr::Cond(cond) => {
            lemma_three(
                Part::Expr(&cond.test),
                Part::Expr(&cond.cons),
                Part::Expr(&cond.alt),
                st,
            );
        },
        Expr::Other(nodes) => lemma_nodes(nodes, nodes@.len(), st),
        _ => {},
    }
}

// ---------------------------------------------------------------------------
// Laws
// ---------------------------------------------------------------------------

/// What is known after a part is what is known after the parts directly below
/// it, one after the other, whatever the part is: a function or a call, a
/// statement or a list. This holds of every part that neither writes nor
/// guards anything itself.
pub proof fn law_parts_are_traced_in_turn(part: Part, st: TraceView)
    requires
        !writes_or_guards(part),
    ensures
        traced(part, st) == traced_in_turn(children(part), st),
{
    match part {
        Part::Expr(expr) => lemma_traced_expr(expr, st),
        Part::Elem(elem) => match elem {
            Some(element) => lemma_one(Part::Expr(&element.expr), st),
            None => {},
        },
        Part::Target(target) => match target {
            AssignTarget::Member(member) => lemma_member(member, st),
            AssignTarget::Paren(inner) => lemma_one(Part::Target(inner), st),
            _ => {},
        },
        Part::Prop(prop) => match prop {
            Prop::KeyValue(key_value) => match &key_value.key {
                PropName::Other(nodes) => {
                    let value = seq![Part::Expr(&key_value.value)];
                    lemma_nodes(nodes, nodes@.len(), st);
                    lemma_one(value[0], after_nodes(nodes, nodes@.len(), st));
                    lemma_both(node_parts(nodes), value, st);
                },
                _ => lemma_one(Part::Expr(&key_value.value), st),
            },
            Prop::Other(nodes) => lemma_nodes(nodes, nodes@.len(), st),
        },
        Part::Param(param) => {
            let decorators = &param.decorators;
            lemma_nodes(decorators, decorators@.len(), st);
            lemma_one(Part::Pat(&param.pat), after_nodes(decorators, decorators@.len(), st));
            lemma_both(node_parts(decorators), seq![Part::Pat(&param.pat)], st);
        },
        Part::Pat(pat) => match pat {
            Pat::Ident(_) => {},
            Pat::Other(nodes) => lemma_nodes(nodes, nodes@.len(), st),
        },
        Part::Stmt(stmt) => match stmt {
            Stmt::Return(Some(arg)) => lemma_one(Part::Expr(arg), st),
            Stmt::Return(None) => {},
            Stmt::Other(nodes) => lemma_nodes(nodes, nodes@.len(), st),
        },
        Part::Function(function) => {
            let params = param_parts(&function.params);
            let decorators = node_parts(&function.decorators);
            let after_first = after_params(&function.params, function.params@.len(), st);
            let after = after_nodes(
                &function.decorators,
                function.decorators@.len(),
                after_first,
            );
            lemma_params(&function.params, function.params@.len(), st);
            lemma_nodes(&function.decorators, function.decorators@.len(), after_first);
            lemma_both(params, decorators, st);
            match &function.body {
                Some(stmts) => {
                    lemma_stmts(stmts, stmts@.len(), after);
                    lemma_both(params + decorators, stmt_parts(stmts), st);
                },
                None => {
                    assert(params + decorators + Seq::<Part>::empty() =~= params + decorators);
                },
            }
        },
        Part::Node(node) => match node {
            Node::Expr(inner) => lemma_one(Part::Expr(inner), st),
            Node::FnDecl(decl) => lemma_one(Part::Function(&decl.function), st),
            _ => {},
        },
        Part::Item(item) => match item {
            ModuleItem::Import(_, nodes) => lemma_nodes(nodes, nodes@.len(), st),
            ModuleItem::ExportNamed(_, nodes) => lemma_nodes(nodes, nodes@.len(), st),
            ModuleItem::ExportAll(_, nodes) => lemma_nodes(nodes, nodes@.len(), st),
            ModuleItem::Other(nodes) => lemma_nodes(nodes, nodes@.len(), st),
        },
    }
}

/// The items of a module are traced one after the other, from knowing nothing.
pub proof fn law_modules_are_traced_in_turn(
    module: &Module,
    runtime: Binding,
    unresolved_mark: Mark,
    start: TraceView,
)
    requires
        start.runtime == runtime,
        start.unresolved_mark == unresolved_mark,
        start.assignments.len() == 0,
        !start.allow_runtime_location,
        forall|id: Binding| #[trigger] value_at(start, id) is None,
    ensures
        public_path_assignments(module, runtime, unresolved_mark) == traced_in_turn(
            Seq::new(module.body@.len(), |i: int| Part::Item(&module.body@[i])),
            start,
        ).assignments,
{
    assert forall|id: Binding| !start.values.contains_key(id) by {
        assert(value_at(start, id) is None);
    }
    assert(start.values =~= Map::empty());
    assert(start.assignments =~= Seq::empty());
    assert(start == trace_start(runtime, unresolved_mark));
    lemma_items(&module.body, module.body@.len(), start);
    let parts = Seq::new(module.body@.len(), |i: int| Part::Item(&module.body@[i]));
    assert(parts.take(module.body@.len() as int) =~= parts);
}

proof fn lemma_items(v: &Vec<ModuleItem>, n: nat, st: TraceView)
    requires
        n <= v@.len(),
    ensures
        traced_in_turn(
            Seq::new(v@.len(), |i: int| Part::Item(&v@[i])).take(n as int),
            st,
        ) == after_items(v, n, st),
    decreases n,
{
    let parts = Seq::new(v@.len(), |i: int| Part::Item(&v@[i]));
    if n > 0 {
        lemma_items(v, (n - 1) as nat, st);
        assert(parts.take(n as int).drop_last() =~= parts.take(n - 1));
    }
}

/// The operands of a binary expression are traced one after the other, and
/// only `runtime.g.importScripts &&` says something about the operand behind
/// it: there the location of the global object is the script's own URL.
pub proof fn law_operands_are_traced_in_turn(bin: &BinExpr, expr: &Expr, st: TraceView)
    requires
        expr matches Expr::Bin(inner) && *inner == *bin,
    ensures
        ({
            let left = after_expr(&bin.left, st);
            let guarded = TraceView { allow_runtime_location: true, ..left };
            if is_worker_guard(bin, st.runtime) {
                after_expr(expr, st) == (TraceView {
                    allow_runtime_location: st.allow_runtime_location,
                    ..after_expr(&bin.right, guarded)
                })
            } else {
                after_expr(expr, st) == after_expr(&bin.right, left)
            }
        }),
{
    let left = after_expr(&bin.left, st);
    law_walk_keeps_the_setting(&bin.left, st);
    law_walk_keeps_the_setting(&bin.right, left);
    law_global_properties(&bin.left, "importScripts"@, st.runtime);
    assert(after_expr(expr, st) == after_bin(bin, st));
    assert(allowing(left, left.allow_runtime_location) == left);
}

/// An assignment traces the object and the key of its target, then the
/// right-hand side, and only then takes effect: on a variable, on the public
/// path of the runtime, or on the targets of a pattern one after the other.
/// Nothing else changes.
pub proof fn law_assignments_are_traced_in_turn(
    assign: &AssignExpr,
    expr: &Expr,
    st: TraceView,
    id: Binding,
    nodes: &Vec<Node>,
)
    requires
        expr matches Expr::Assign(inner) && *inner == *assign,
    ensures
        ({
            let target = traced(Part::Target(&assign.left), st);
            let right = after_expr(&assign.right, target);
            let after = after_expr(expr, st);
            &&& is_variable(&assign.left, id) ==> same_but_for(after, right, id)
            &&& is_pattern(&assign.left, nodes@) ==> after == traced_in_turn(
                node_parts(nodes),
                right,
            )
            &&& is_property(&assign.left, st.runtime, "p"@) ==> after == (TraceView {
                assignments: right.assignments.push(
                    if assign.op == AssignOp::Assign {
                        public_path_of(&assign.right, target)
                    } else {
                        PublicPathView::RuntimeComputed
                    },
                ),
                ..right
            })
            &&& is_other_property(&assign.left, st.runtime) ==> after == right
        }),
{
    let target = after_target(&assign.left, st);
    let right = after_expr(&assign.right, target);
    law_public_path_targets(&assign.left, st.runtime);
    lemma_target_keeps_the_setting(&assign.left, st);
    law_walk_keeps_the_setting(&assign.right, target);
    lemma_written(
        &assign.left,
        right,
        assigned_value(assign, target),
        assigned_fact(assign, target),
        id,
        nodes,
    );
    assert(after_expr(expr, st) == after_assign(assign, st));
}

/// The target is a property other than `object.p`.
pub open spec fn is_other_property(target: &AssignTarget, object: Binding) -> bool
    decreases target,
{
    match target {
        AssignTarget::Paren(inner) => is_other_property(inner, object),
        AssignTarget::Member(_) => !is_property(target, object, "p"@),
        _ => false,
    }
}

proof fn lemma_target_keeps_the_setting(target: &AssignTarget, st: TraceView)
    ensures
        after_target(target, st).runtime == st.runtime,
    decreases target,
{
    match target {
        AssignTarget::Paren(inner) => lemma_target_keeps_the_setting(inner, st),
        AssignTarget::Member(member) => {
            law_walk_keeps_the_setting(&member.obj, st);
            match &member.prop {
                MemberProp::Computed(key) => {
                    law_walk_keeps_the_setting(key, after_expr(&member.obj, st));
                },
                _ => {},
            }
            assert(after_target(target, st) == after_member(member, st));
        },
        _ => {},
    }
}

proof fn lemma_written(
    target: &AssignTarget,
    st: TraceView,
    value: Option<ScriptTraceValue>,
    fact: PublicPathView,
    id: Binding,
    nodes: &Vec<Node>,
)
    ensures
        is_variable(target, id) ==> same_but_for(written(target, st, value, fact), st, id),
        is_variable(target, id) ==> value_at(written(target, st, value, fact), id) == value,
        is_pattern(target, nodes@) ==> written(target, st, value, fact) == traced_in_turn(
            node_parts(nodes),
            st,
        ),
        is_property(target, st.runtime, "p"@) ==> written(target, st, value, fact) == (TraceView {
            assignments: st.assignments.push(fact),
            ..st
        }),
        is_other_property(target, st.runtime) ==> written(target, st, value, fact) == st,
    decreases target,
{
    law_public_path_targets(target, st.runtime);
    match target {
        AssignTarget::Paren(inner) => lemma_written(inner, st, value, fact, id, nodes),
        AssignTarget::Other(inner) => {
            lemma_nodes(inner, inner@.len(), st);
            if inner@ == nodes@ {
                assert(node_parts(inner) =~= node_parts(nodes));
            }
        },
        _ => {},
    }
}

/// A write that is no assignment traces the object and the key of its target,
/// and then leaves a variable without a known value, the public path of the
/// runtime as computed at run time, or writes the targets of a pattern one
/// after the other. Nothing else changes.
pub proof fn law_writes_are_traced_in_turn(
    target: &AssignTarget,
    node: &Node,
    st: TraceView,
    id: Binding,
    nodes: &Vec<Node>,
)
    requires
        node matches Node::Write(inner) && inner == *target,
    ensures
        ({
            let read = traced(Part::Target(target), st);
            let after = after_node(node, st);
            &&& is_variable(target, id) ==> same_but_for(after, read, id) && value_at(
                after,
                id,
            ) is None
            &&& is_pattern(target, nodes@) ==> after == traced_in_turn(node_parts(nodes), read)
            &&& is_property(target, st.runtime, "p"@) ==> after == (TraceView {
                assignments: read.assignments.push(PublicPathView::RuntimeComputed),
                ..read
            })
            &&& is_other_property(target, st.runtime) ==> after == read
        }),
{
    lemma_target_keeps_the_setting(target, st);
    lemma_written(
        target,
        after_target(target, st),
        None,
        PublicPathView::RuntimeComputed,
        id,
        nodes,
    );
}

/// A declarator traces its initializer and then its pattern. Only a variable
/// with an initializer changes anything more: what is known of it.
pub proof fn law_declarators_are_traced_in_turn(
    declarator: &VarDeclarator,
    node: &Node,
    st: TraceView,
    id: Binding,
)
    requires
        node matches Node::VarDeclarator(inner) && *inner == *declarator,
    ensures
        ({
            let name = seq![Part::Pat(&declarator.name)];
            match &declarator.init {
                Some(init) => {
                    let initialized = after_expr(init, st);
                    if declarator.name matches Pat::Ident(ident) && denotes_binding(ident, id) {
                        same_but_for(after_node(node, st), initialized, id)
                    } else {
                        declarator.name is Other ==> after_node(node, st) == traced_in_turn(
                            name,
                            initialized,
                        )
                    }
                },
                None => after_node(node, st) == traced_in_turn(name, st),
            }
        }),
{
    let name = Part::Pat(&declarator.name);
    assert(after_node(node, st) == after_declarator(declarator, st));
    match &declarator.init {
        Some(init) => lemma_one(name, after_expr(init, st)),
        None => lemma_one(name, st),
    }
}

} // verus!
