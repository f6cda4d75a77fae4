//! Where things stand in a module.
//!
//! A module is a tree of parts. The walk finds every part that matters,
//! wherever it stands, exactly once and in source order: the sites of a part
//! are its own one, followed by those of the parts directly below it.

use vstd::prelude::*;

use crate::ast::{
    ArrowFunctionBody, AssignTarget, Callee, Expr, ExprOrSpread, Function, MemberExpr, MemberProp,
    Module, ModuleItem, Node, Param, Pat, Prop, PropName, Stmt,
};
use crate::walk::{
    args_sites, arrow_body_sites, callee_sites, elem_sites, elems_sites, expr_sites, exprs_sites,
    function_sites, item_sites, items_sites, member_sites, module_sites, node_sites, nodes_sites,
    param_sites, params_sites, pat_sites, prop_sites, props_sites, stmt_sites, stmts_sites,
    target_sites, Site,
};

verus! {

/// A part of a module.
pub enum Part<'a> {
    Expr(&'a Expr),
    Elem(&'a Option<ExprOrSpread>),
    Target(&'a AssignTarget),
    Prop(&'a Prop),
    Param(&'a Param),
    Pat(&'a Pat),
    Stmt(&'a Stmt),
    Function(&'a Function),
    Node(&'a Node),
    Item(&'a ModuleItem),
}

// ---------------------------------------------------------------------------
// What stands directly below a part
// ---------------------------------------------------------------------------

/// The nodes, in order.
pub open spec fn node_parts<'a>(v: &'a Vec<Node>) -> Seq<Part<'a>> {
    Seq::new(v@.len(), |i: int| Part::Node(&v@[i]))
}

/// The expressions, in order.
pub open spec fn expr_parts<'a>(v: &'a Vec<Expr>) -> Seq<Part<'a>> {
    Seq::new(v@.len(), |i: int| Part::Expr(&v@[i]))
}

/// The arguments, in order.
pub open spec fn arg_parts<'a>(v: &'a Vec<ExprOrSpread>) -> Seq<Part<'a>> {
    Seq::new(v@.len(), |i: int| Part::Expr(&v@[i].expr))
}

/// The elements of an array literal, in order.
pub open spec fn elem_parts<'a>(v: &'a Vec<Option<ExprOrSpread>>) -> Seq<Part<'a>> {
    Seq::new(v@.len(), |i: int| Part::Elem(&v@[i]))
}

/// The members of an object literal, in order.
pub open spec fn prop_parts<'a>(v: &'a Vec<Prop>) -> Seq<Part<'a>> {
    Seq::new(v@.len(), |i: int| Part::Prop(&v@[i]))
}

/// The parameters, in order.
pub open spec fn param_parts<'a>(v: &'a Vec<Param>) -> Seq<Part<'a>> {
    Seq::new(v@.len(), |i: int| Part::Param(&v@[i]))
}

/// The statements, in order.
pub open spec fn stmt_parts<'a>(v: &'a Vec<Stmt>) -> Seq<Part<'a>> {
    Seq::new(v@.len(), |i: int| Part::Stmt(&v@[i]))
}

/// The object of a member expression, and the key in brackets.
pub open spec fn member_parts<'a>(member: &'a MemberExpr) -> Seq<Part<'a>> {
    match &member.prop {
        MemberProp::Computed(key) => seq![Part::Expr(&member.obj), Part::Expr(key)],
        _ => seq![Part::Expr(&member.obj)],
    }
}

/// The parts directly below a part, in source order.
pub open spec fn children<'a>(part: Part<'a>) -> Seq<Part<'a>> {
    match part {
        Part::Expr(expr) => match expr {
            Expr::Paren(inner) => seq![Part::Expr(inner)],
            Expr::Ident(_) => Seq::empty(),
            Expr::Lit(_) => Seq::empty(),
            Expr::Tpl(tpl) => expr_parts(&tpl.exprs),
            Expr::Bin(bin) => seq![Part::Expr(&bin.left), Part::Expr(&bin.right)],
            Expr::Assign(assign) => seq![Part::Target(&assign.left), Part::Expr(&assign.right)],
            Expr::Member(member) => member_parts(member),
            Expr::Call(call) => match &call.callee {
                Callee::Expr(callee) => seq![Part::Expr(callee)] + arg_parts(&call.args),
                _ => arg_parts(&call.args),
            },
            Expr::Array(elems) => elem_parts(elems),
            Expr::Object(props) => prop_parts(props),
            Expr::Fn(function) => seq![Part::Function(function)],
            Expr::Arrow(arrow) => param_parts(&arrow.params) + match &arrow.body {
                ArrowFunctionBody::Expr(inner) => seq![Part::Expr(inner)],
                ArrowFunctionBody::FunctionBody(stmts) => stmt_parts(stmts),
            },
            Expr::Sequence(exprs) => expr_parts(exprs),
            Expr::Cond(cond) => seq![
                Part::Expr(&cond.test),
                Part::Expr(&cond.cons),
                Part::Expr(&cond.alt),
            ],
            Expr::MetaProp(_) => Seq::empty(),
            Expr::Other(nodes) => node_parts(nodes),
        },
        Part::Elem(elem) => match elem {
            Some(element) => seq![Part::Expr(&element.expr)],
            None => Seq::empty(),
        },
        Part::Target(target) => match target {
            AssignTarget::Ident(_) => Seq::empty(),
            AssignTarget::Member(member) => member_parts(member),
            AssignTarget::Paren(inner) => seq![Part::Target(inner)],
            AssignTarget::Other(nodes) => node_parts(nodes),
        },
        Part::Prop(prop) => match prop {
            Prop::KeyValue(key_value) => match &key_value.key {
                PropName::Other(nodes) => node_parts(nodes) + seq![Part::Expr(&key_value.value)],
                _ => seq![Part::Expr(&key_value.value)],
            },
            Prop::Other(nodes) => node_parts(nodes),
        },
        Part::Param(param) => node_parts(&param.decorators) + seq![Part::Pat(&param.pat)],
        Part::Pat(pat) => match pat {
            Pat::Ident(_) => Seq::empty(),
            Pat::Other(nodes) => node_parts(nodes),
        },
        Part::Stmt(stmt) => match stmt {
            Stmt::Return(Some(arg)) => seq![Part::Expr(arg)],
            Stmt::Return(None) => Seq::empty(),
            Stmt::Other(nodes) => node_parts(nodes),
        },
        Part::Function(function) => param_parts(&function.params) + node_parts(
            &function.decorators,
        ) + match &function.body {
            Some(stmts) => stmt_parts(stmts),
            None => Seq::empty(),
        },
        Part::Node(node) => match node {
            Node::Expr(inner) => seq![Part::Expr(inner)],
            Node::FnDecl(decl) => seq![Part::Function(&decl.function)],
            Node::VarDeclarator(declarator) => match &declarator.init {
                Some(init) => seq![Part::Pat(&declarator.name), Part::Expr(init)],
                None => seq![Part::Pat(&declarator.name)],
            },
            Node::Write(target) => seq![Part::Target(target)],
        },
        Part::Item(item) => match item {
            ModuleItem::Import(_, nodes) => node_parts(nodes),
            ModuleItem::ExportNamed(_, nodes) => node_parts(nodes),
            ModuleItem::ExportAll(_, nodes) => node_parts(nodes),
            ModuleItem::Other(nodes) => node_parts(nodes),
        },
    }
}

/// The site that a part itself is.
pub open spec fn own_sites<'a>(part: Part<'a>) -> Seq<Site<'a>> {
    match part {
        Part::Expr(Expr::Assign(assign)) => seq![Site::Assign(assign)],
        Part::Expr(Expr::Call(call)) => seq![Site::Call(call)],
        Part::Expr(Expr::Fn(function)) => seq![Site::FnExpr(function)],
        Part::Expr(Expr::Arrow(arrow)) => seq![Site::Arrow(arrow)],
        Part::Node(Node::FnDecl(decl)) => seq![Site::FnDecl(decl)],
        Part::Node(Node::VarDeclarator(declarator)) => seq![Site::VarDeclarator(declarator)],
        Part::Node(Node::Write(target)) => seq![Site::Write(target)],
        _ => Seq::empty(),
    }
}

// ---------------------------------------------------------------------------
// Induction
// ---------------------------------------------------------------------------

/// The property holds of the part if it holds of all parts directly below it.
pub open spec fn carries<'a>(p: spec_fn(Part<'a>) -> bool, part: Part<'a>) -> bool {
    (forall|i: int| 0 <= i < children(part).len() ==> p(#[trigger] children(part)[i])) ==> p(part)
}

/// A property that each part inherits from the parts directly below it holds
/// of all parts.
pub open spec fn is_inductive<'a>(p: spec_fn(Part<'a>) -> bool) -> bool {
    forall|part: Part<'a>| #[trigger] carries(p, part)
}

proof fn induct_expr<'a>(p: spec_fn(Part<'a>) -> bool, expr: &'a Expr)
    requires
        is_inductive(p),
    ensures
        p(Part::Expr(expr)),
    decreases expr,
{
    let part = Part::Expr(expr);
    assert forall|i: int| 0 <= i < children(part).len() implies p(
        #[trigger] children(part)[i],
    ) by {
        match expr {
            Expr::Paren(inner) => induct_expr(p, inner),
            Expr::Tpl(tpl) => induct_expr(p, &tpl.exprs@[i]),
            Expr::Bin(bin) => {
                induct_expr(p, &bin.left);
                induct_expr(p, &bin.right);
            },
            Expr::Assign(assign) => {
                induct_target(p, &assign.left);
                induct_expr(p, &assign.right);
            },
            Expr::Member(member) => induct_member(p, member),
            Expr::Call(call) => match &call.callee {
                Callee::Expr(callee) => {
                    if i == 0 {
                        induct_expr(p, callee);
                    } else {
                        induct_expr(p, &call.args@[i - 1].expr);
                    }
                },
                _ => induct_expr(p, &call.args@[i].expr),
            },
            Expr::Array(elems) => induct_elem(p, &elems@[i]),
            Expr::Object(props) => induct_prop(p, &props@[i]),
            Expr::Fn(function) => induct_function(p, function),
            Expr::Arrow(arrow) => {
                let n = arrow.params@.len();
                if i < n {
                    induct_param(p, &arrow.params@[i]);
                } else {
                    match &arrow.body {
                        ArrowFunctionBody::Expr(inner) => induct_expr(p, inner),
                        ArrowFunctionBody::FunctionBody(stmts) => induct_stmt(p, &stmts@[i - n]),
                    }
                }
            },
            Expr::Sequence(exprs) => induct_expr(p, &exprs@[i]),
            Expr::Cond(cond) => {
                induct_expr(p, &cond.test);
                induct_expr(p, &cond.cons);
                induct_expr(p, &cond.alt);
            },
            Expr::Other(nodes) => induct_node(p, &nodes@[i]),
            _ => {},
        }
    }
    assert(carries(p, part));
}

proof fn induct_member<'a>(p: spec_fn(Part<'a>) -> bool, member: &'a MemberExpr)
    requires
        is_inductive(p),
    ensures
        forall|i: int|
            0 <= i < member_parts(member).len() ==> p(#[trigger] member_parts(member)[i]),
    decreases member,
{
    induct_expr(p, &member.obj);
    match &member.prop {
        MemberProp::Computed(key) => induct_expr(p, key),
        _ => {},
    }
}

proof fn induct_elem<'a>(p: spec_fn(Part<'a>) -> bool, elem: &'a Option<ExprOrSpread>)
    requires
        is_inductive(p),
    ensures
        p(Part::Elem(elem)),
    decreases elem,
{
    match elem {
        Some(element) => induct_expr(p, &element.expr),
        None => {},
    }
    assert(carries(p, Part::Elem(elem)));
}

proof fn induct_target<'a>(p: spec_fn(Part<'a>) -> bool, target: &'a AssignTarget)
    requires
        is_inductive(p),
    ensures
        p(Part::Target(target)),
    decreases target,
{
    let part = Part::Target(target);
    assert forall|i: int| 0 <= i < children(part).len() implies p(
        #[trigger] children(part)[i],
    ) by {
        match target {
            AssignTarget::Ident(_) => {},
            AssignTarget::Member(member) => induct_member(p, member),
            AssignTarget::Paren(inner) => induct_target(p, inner),
            AssignTarget::Other(nodes) => induct_node(p, &nodes@[i]),
        }
    }
    assert(carries(p, part));
}

proof fn induct_prop<'a>(p: spec_fn(Part<'a>) -> bool, prop: &'a Prop)
    requires
        is_inductive(p),
    ensures
        p(Part::Prop(prop)),
    decreases prop,
{
    let part = Part::Prop(prop);
    assert forall|i: int| 0 <= i < children(part).len() implies p(
        #[trigger] children(part)[i],
    ) by {
        match prop {
            Prop::KeyValue(key_value) => match &key_value.key {
                PropName::Other(nodes) => {
                    if i < nodes@.len() {
                        induct_node(p, &nodes@[i]);
                    } else {
                        induct_expr(p, &key_value.value);
                    }
                },
                _ => induct_expr(p, &key_value.value),
            },
            Prop::Other(nodes) => induct_node(p, &nodes@[i]),
        }
    }
    assert(carries(p, part));
}

proof fn induct_param<'a>(p: spec_fn(Part<'a>) -> bool, param: &'a Param)
    requires
        is_inductive(p),
    ensures
        p(Part::Param(param)),
    decreases param,
{
    let part = Part::Param(param);
    assert forall|i: int| 0 <= i < children(part).len() implies p(
        #[trigger] children(part)[i],
    ) by {
        if i < param.decorators@.len() {
            induct_node(p, &param.decorators@[i]);
        } else {
            induct_pat(p, &param.pat);
        }
    }
    assert(carries(p, part));
}

proof fn induct_pat<'a>(p: spec_fn(Part<'a>) -> bool, pat: &'a Pat)
    requires
        is_inductive(p),
    ensures
        p(Part::Pat(pat)),
    decreases pat,
{
    let part = Part::Pat(pat);
    assert forall|i: int| 0 <= i < children(part).len() implies p(
        #[trigger] children(part)[i],
    ) by {
        match pat {
            Pat::Ident(_) => {},
            Pat::Other(nodes) => induct_node(p, &nodes@[i]),
        }
    }
    assert(carries(p, part));
}

proof fn induct_stmt<'a>(p: spec_fn(Part<'a>) -> bool, stmt: &'a Stmt)
    requires
        is_inductive(p),
    ensures
        p(Part::Stmt(stmt)),
    decreases stmt,
{
    let part = Part::Stmt(stmt);
    assert forall|i: int| 0 <= i < children(part).len() implies p(
        #[trigger] children(part)[i],
    ) by {
        match stmt {
            Stmt::Return(Some(arg)) => induct_expr(p, arg),
            Stmt::Return(None) => {},
            Stmt::Other(nodes) => induct_node(p, &nodes@[i]),
        }
    }
    assert(carries(p, part));
}

proof fn induct_function<'a>(p: spec_fn(Part<'a>) -> bool, function: &'a Function)
    requires
        is_inductive(p),
    ensures
        p(Part::Function(function)),
    decreases function,
{
    let part = Part::Function(function);
    let n = function.params@.len();
    let m = n + function.decorators@.len();
    assert forall|i: int| 0 <= i < children(part).len() implies p(
        #[trigger] children(part)[i],
    ) by {
        if i < n {
            induct_param(p, &function.params@[i]);
        } else if i < m {
            induct_node(p, &function.decorators@[i - n]);
        } else {
            match &function.body {
                Some(stmts) => induct_stmt(p, &stmts@[i - m]),
                None => {},
            }
        }
    }
    assert(carries(p, part));
}

proof fn induct_node<'a>(p: spec_fn(Part<'a>) -> bool, node: &'a Node)
    requires
        is_inductive(p),
    ensures
        p(Part::Node(node)),
    decreases node,
{
    match node {
        Node::Expr(inner) => induct_expr(p, inner),
        Node::FnDecl(decl) => induct_function(p, &decl.function),
        Node::VarDeclarator(declarator) => {
            induct_pat(p, &declarator.name);
            match &declarator.init {
                Some(init) => induct_expr(p, init),
                None => {},
            }
        },
        Node::Write(target) => induct_target(p, target),
    }
    assert(carries(p, Part::Node(node)));
}

/// Structural induction: what each part inherits from the parts directly
/// below it holds of every part.
pub proof fn lemma_induction<'a>(p: spec_fn(Part<'a>) -> bool, part: Part<'a>)
    requires
        is_inductive(p),
    ensures
        p(part),
{
    match part {
        Part::Expr(expr) => induct_expr(p, expr),
        Part::Elem(elem) => induct_elem(p, elem),
        Part::Target(target) => induct_target(p, target),
        Part::Prop(prop) => induct_prop(p, prop),
        Part::Param(param) => induct_param(p, param),
        Part::Pat(pat) => induct_pat(p, pat),
        Part::Stmt(stmt) => induct_stmt(p, stmt),
        Part::Function(function) => induct_function(p, function),
        Part::Node(node) => induct_node(p, node),
        Part::Item(item) => {
            assert forall|i: int| 0 <= i < children(part).len() implies p(
                #[trigger] children(part)[i],
            ) by {
                match item {
                    ModuleItem::Import(_, nodes) => induct_node(p, &nodes@[i]),
                    ModuleItem::ExportNamed(_, nodes) => induct_node(p, &nodes@[i]),
                    ModuleItem::ExportAll(_, nodes) => induct_node(p, &nodes@[i]),
                    ModuleItem::Other(nodes) => induct_node(p, &nodes@[i]),
                }
            }
            assert(carries(p, part));
        },
    }
}

// ---------------------------------------------------------------------------
// The sites of parts
// ---------------------------------------------------------------------------

/// The sites of a part, as the walk finds them.
pub open spec fn part_sites<'a>(part: Part<'a>) -> Seq<Site<'a>> {
    match part {
        Part::Expr(expr) => expr_sites(expr),
        Part::Elem(elem) => elem_sites(elem),
        Part::Target(target) => target_sites(target),
        Part::Prop(prop) => prop_sites(prop),
        Part::Param(param) => param_sites(param),
        Part::Pat(pat) => pat_sites(pat),
        Part::Stmt(stmt) => stmt_sites(stmt),
        Part::Function(function) => function_sites(function),
        Part::Node(node) => node_sites(node),
        Part::Item(item) => item_sites(item),
    }
}

/// The sites of some parts, one part after the other.
pub open spec fn all_sites<'a>(parts: Seq<Part<'a>>) -> Seq<Site<'a>>
    decreases parts.len(),
{
    if parts.len() == 0 {
        Seq::empty()
    } else {
        all_sites(parts.drop_last()) + part_sites(parts.last())
    }
}

proof fn lemma_all_sites_of_both<'a>(a: Seq<Part<'a>>, b: Seq<Part<'a>>)
    ensures
        all_sites(a + b) == all_sites(a) + all_sites(b),
    decreases b.len(),
{
    if b.len() == 0 {
        assert(a + b =~= a);
        assert(all_sites(a) + all_sites(b) =~= all_sites(a));
    } else {
        assert((a + b).drop_last() =~= a + b.drop_last());
        lemma_all_sites_of_both(a, b.drop_last());
        assert(all_sites(a + b) =~= all_sites(a) + all_sites(b));
    }
}

proof fn lemma_one_part<'a>(a: Part<'a>)
    ensures
        all_sites(seq![a]) == part_sites(a),
{
    let none = seq![a].drop_last();
    assert(none =~= Seq::<Part>::empty());
    assert(all_sites(none) =~= Seq::<Site>::empty());
    assert(all_sites(seq![a]) == all_sites(none) + part_sites(seq![a].last()));
    assert(all_sites(seq![a]) =~= part_sites(a));
}

proof fn lemma_two_parts<'a>(a: Part<'a>, b: Part<'a>)
    ensures
        all_sites(seq![a, b]) == part_sites(a) + part_sites(b),
{
    lemma_one_part(a);
    assert(seq![a, b].drop_last() =~= seq![a]);
}

proof fn lemma_three_parts<'a>(a: Part<'a>, b: Part<'a>, c: Part<'a>)
    ensures
        all_sites(seq![a, b, c]) == part_sites(a) + part_sites(b) + part_sites(c),
{
    lemma_two_parts(a, b);
    assert(seq![a, b, c].drop_last() =~= seq![a, b]);
}

proof fn lemma_node_parts<'a>(v: &'a Vec<Node>, n: nat)
    requires
        n <= v@.len(),
    ensures
        all_sites(node_parts(v).take(n as int)) == nodes_sites(v, n),
        n == v@.len() ==> all_sites(node_parts(v)) == nodes_sites(v, n),
    decreases n,
{
    let parts = node_parts(v).take(n as int);
    if n > 0 {
        lemma_node_parts(v, (n - 1) as nat);
        assert(parts.drop_last() =~= node_parts(v).take(n - 1));
    }
    assert(n == v@.len() ==> parts =~= node_parts(v));
}

proof fn lemma_expr_parts<'a>(v: &'a Vec<Expr>, n: nat)
    requires
        n <= v@.len(),
    ensures
        all_sites(expr_parts(v).take(n as int)) == exprs_sites(v, n),
        n == v@.len() ==> all_sites(expr_parts(v)) == exprs_sites(v, n),
    decreases n,
{
    let parts = expr_parts(v).take(n as int);
    if n > 0 {
        lemma_expr_parts(v, (n - 1) as nat);
        assert(parts.drop_last() =~= expr_parts(v).take(n - 1));
    }
    assert(n == v@.len() ==> parts =~= expr_parts(v));
}

proof fn lemma_arg_parts<'a>(v: &'a Vec<ExprOrSpread>, n: nat)
    requires
        n <= v@.len(),
    ensures
        all_sites(arg_parts(v).take(n as int)) == args_sites(v, n),
        n == v@.len() ==> all_sites(arg_parts(v)) == args_sites(v, n),
    decreases n,
{
    let parts = arg_parts(v).take(n as int);
    if n > 0 {
        lemma_arg_parts(v, (n - 1) as nat);
        assert(parts.drop_last() =~= arg_parts(v).take(n - 1));
    }
    assert(n == v@.len() ==> parts =~= arg_parts(v));
}

proof fn lemma_elem_parts<'a>(v: &'a Vec<Option<ExprOrSpread>>, n: nat)
    requires
        n <= v@.len(),
    ensures
        all_sites(elem_parts(v).take(n as int)) == elems_sites(v, n),
        n == v@.len() ==> all_sites(elem_parts(v)) == elems_sites(v, n),
    decreases n,
{
    let parts = elem_parts(v).take(n as int);
    if n > 0 {
        lemma_elem_parts(v, (n - 1) as nat);
        assert(parts.drop_last() =~= elem_parts(v).take(n - 1));
    }
    assert(n == v@.len() ==> parts =~= elem_parts(v));
}

proof fn lemma_prop_parts<'a>(v: &'a Vec<Prop>, n: nat)
    requires
        n <= v@.len(),
    ensures
        all_sites(prop_parts(v).take(n as int)) == props_sites(v, n),
        n == v@.len() ==> all_sites(prop_parts(v)) == props_sites(v, n),
    decreases n,
{
    let parts = prop_parts(v).take(n as int);
    if n > 0 {
        lemma_prop_parts(v, (n - 1) as nat);
        assert(parts.drop_last() =~= prop_parts(v).take(n - 1));
    }
    assert(n == v@.len() ==> parts =~= prop_parts(v));
}

proof fn lemma_param_parts<'a>(v: &'a Vec<Param>, n: nat)
    requires
        n <= v@.len(),
    ensures
        all_sites(param_parts(v).take(n as int)) == params_sites(v, n),
        n == v@.len() ==> all_sites(param_parts(v)) == params_sites(v, n),
    decreases n,
{
    let parts = param_parts(v).take(n as int);
    if n > 0 {
        lemma_param_parts(v, (n - 1) as nat);
        assert(parts.drop_last() =~= param_parts(v).take(n - 1));
    }
    assert(n == v@.len() ==> parts =~= param_parts(v));
}

proof fn lemma_stmt_parts<'a>(v: &'a Vec<Stmt>, n: nat)
    requires
        n <= v@.len(),
    ensures
        all_sites(stmt_parts(v).take(n as int)) == stmts_sites(v, n),
        n == v@.len() ==> all_sites(stmt_parts(v)) == stmts_sites(v, n),
    decreases n,
{
    let parts = stmt_parts(v).take(n as int);
    if n > 0 {
        lemma_stmt_parts(v, (n - 1) as nat);
        assert(parts.drop_last() =~= stmt_parts(v).take(n - 1));
    }
    assert(n == v@.len() ==> parts =~= stmt_parts(v));
}

proof fn lemma_member_parts<'a>(member: &'a MemberExpr)
    ensures
        all_sites(member_parts(member)) == member_sites(member),
{
    match &member.prop {
        MemberProp::Computed(key) => lemma_two_parts(Part::Expr(&member.obj), Part::Expr(key)),
        _ => {
            lemma_one_part(Part::Expr(&member.obj));
            assert(member_sites(member) =~= expr_sites(&member.obj));
        },
    }
}

/// What the law says of an expression.
proof fn lemma_sites_of_expr<'a>(expr: &'a Expr)
    ensures
        expr_sites(expr) == own_sites(Part::Expr(expr)) + all_sites(children(Part::Expr(expr))),
{
    match expr {
        Expr::Paren(inner) => lemma_one_part(Part::Expr(inner)),
        Expr::Tpl(tpl) => lemma_expr_parts(&tpl.exprs, tpl.exprs@.len()),
        Expr::Bin(bin) => lemma_two_parts(Part::Expr(&bin.left), Part::Expr(&bin.right)),
        Expr::Assign(assign) => {
            lemma_two_parts(Part::Target(&assign.left), Part::Expr(&assign.right));
        },
        Expr::Member(member) => lemma_member_parts(member),
        Expr::Call(call) => {
            lemma_arg_parts(&call.args, call.args@.len());
            match &call.callee {
                Callee::Expr(callee) => {
                    lemma_one_part(Part::Expr(callee));
                    lemma_all_sites_of_both(seq![Part::Expr(callee)], arg_parts(&call.args));
                    assert(callee_sites(&call.callee) == expr_sites(callee));
                },
                _ => {
                    assert(callee_sites(&call.callee) =~= Seq::<Site>::empty());
                },
            }
        },
        Expr::Array(elems) => lemma_elem_parts(elems, elems@.len()),
        Expr::Object(props) => lemma_prop_parts(props, props@.len()),
        Expr::Fn(function) => lemma_one_part(Part::Function(function)),
        Expr::Arrow(arrow) => {
            lemma_param_parts(&arrow.params, arrow.params@.len());
            let body = match &arrow.body {
                ArrowFunctionBody::Expr(inner) => seq![Part::Expr(inner)],
                ArrowFunctionBody::FunctionBody(stmts) => stmt_parts(stmts),
            };
            match &arrow.body {
                ArrowFunctionBody::Expr(inner) => lemma_one_part(Part::Expr(inner)),
                ArrowFunctionBody::FunctionBody(stmts) => lemma_stmt_parts(stmts, stmts@.len()),
            }
            assert(arrow_body_sites(&arrow.body) == all_sites(body));
            lemma_all_sites_of_both(param_parts(&arrow.params), body);
        },
        Expr::Sequence(exprs) => lemma_expr_parts(exprs, exprs@.len()),
        Expr::Cond(cond) => {
            lemma_three_parts(
                Part::Expr(&cond.test),
                Part::Expr(&cond.cons),
                Part::Expr(&cond.alt),
            );
        },
        Expr::Other(nodes) => lemma_node_parts(nodes, nodes@.len()),
        _ => {},
    }
    assert(expr_sites(expr) =~= own_sites(Part::Expr(expr)) + all_sites(
        children(Part::Expr(expr)),
    ));
}

/// The sites of a part are its own one, followed by those of each part
/// directly below it, in source order: the walk leaves no part out, enters
/// none twice, and keeps their order.
pub proof fn law_sites_of_a_part<'a>(part: Part<'a>)
    ensures
        part_sites(part) == own_sites(part) + all_sites(children(part)),
{
    match part {
        Part::Expr(expr) => lemma_sites_of_expr(expr),
        Part::Elem(elem) => match elem {
            Some(element) => lemma_one_part(Part::Expr(&element.expr)),
            None => {},
        },
        Part::Target(target) => match target {
            AssignTarget::Ident(_) => {},
            AssignTarget::Member(member) => lemma_member_parts(member),
            AssignTarget::Paren(inner) => lemma_one_part(Part::Target(inner)),
            AssignTarget::Other(nodes) => lemma_node_parts(nodes, nodes@.len()),
        },
        Part::Prop(prop) => match prop {
            Prop::KeyValue(key_value) => {
                let value = Part::Expr(&key_value.value);
                lemma_one_part(value);
                match &key_value.key {
                    PropName::Other(nodes) => {
                        lemma_node_parts(nodes, nodes@.len());
                        lemma_all_sites_of_both(node_parts(nodes), seq![value]);
                    },
                    _ => {},
                }
            },
            Prop::Other(nodes) => lemma_node_parts(nodes, nodes@.len()),
        },
        Part::Param(param) => {
            lemma_node_parts(&param.decorators, param.decorators@.len());
            lemma_one_part(Part::Pat(&param.pat));
            lemma_all_sites_of_both(
                node_parts(&param.decorators),
                seq![Part::Pat(&param.pat)],
            );
        },
        Part::Pat(pat) => match pat {
            Pat::Ident(_) => {},
            Pat::Other(nodes) => lemma_node_parts(nodes, nodes@.len()),
        },
        Part::Stmt(stmt) => match stmt {
            Stmt::Return(Some(arg)) => lemma_one_part(Part::Expr(arg)),
            Stmt::Return(None) => {},
            Stmt::Other(nodes) => lemma_node_parts(nodes, nodes@.len()),
        },
        Part::Function(function) => {
            let params = param_parts(&function.params);
            let decorators = node_parts(&function.decorators);
            let body = match &function.body {
                Some(stmts) => stmt_parts(stmts),
                None => Seq::empty(),
            };
            lemma_param_parts(&function.params, function.params@.len());
            lemma_node_parts(&function.decorators, function.decorators@.len());
            match &function.body {
                Some(stmts) => lemma_stmt_parts(stmts, stmts@.len()),
                None => {},
            }
            lemma_all_sites_of_both(params, decorators);
            lemma_all_sites_of_both(params + decorators, body);
        },
        Part::Node(node) => match node {
            Node::Expr(inner) => lemma_one_part(Part::Expr(inner)),
            Node::FnDecl(decl) => lemma_one_part(Part::Function(&decl.function)),
            Node::VarDeclarator(declarator) => match &declarator.init {
                Some(init) => lemma_two_parts(Part::Pat(&declarator.name), Part::Expr(init)),
                None => lemma_one_part(Part::Pat(&declarator.name)),
            },
            Node::Write(target) => lemma_one_part(Part::Target(target)),
        },
        Part::Item(item) => match item {
            ModuleItem::Import(_, nodes) => lemma_node_parts(nodes, nodes@.len()),
            ModuleItem::ExportNamed(_, nodes) => lemma_node_parts(nodes, nodes@.len()),
            ModuleItem::ExportAll(_, nodes) => lemma_node_parts(nodes, nodes@.len()),
            ModuleItem::Other(nodes) => lemma_node_parts(nodes, nodes@.len()),
        },
    }
    assert(part_sites(part) =~= own_sites(part) + all_sites(children(part)));
}

// ---------------------------------------------------------------------------
// Wherever a part stands
// ---------------------------------------------------------------------------

/// The second list stands in the first one, as it is.
pub open spec fn holds<'a>(whole: Seq<Site<'a>>, inner: Seq<Site<'a>>) -> bool {
    exists|before: Seq<Site<'a>>, after: Seq<Site<'a>>|
        whole == #[trigger] (before + inner + after)
}

/// Each part of the path stands directly below the one before it.
pub open spec fn leads_down<'a>(path: Seq<Part<'a>>) -> bool {
    &&& path.len() > 0
    &&& forall|i: int|
        0 <= i < path.len() - 1 ==> #[trigger] children(path[i]).contains(path[i + 1])
}

/// The path leads from an item of the module to the part.
pub open spec fn leads_to<'a>(module: &'a Module, path: Seq<Part<'a>>, part: Part<'a>) -> bool {
    &&& leads_down(path)
    &&& path.last() == part
    &&& exists|k: int|
        0 <= k < module.body@.len() && path[0] == Part::Item(&#[trigger] module.body@[k])
}

proof fn lemma_holds_itself<'a>(a: Seq<Site<'a>>)
    ensures
        holds(a, a),
{
    let none = Seq::<Site<'a>>::empty();
    assert(a =~= none + a + none);
}

proof fn lemma_holds_inner<'a>(a: Seq<Site<'a>>, b: Seq<Site<'a>>, c: Seq<Site<'a>>)
    requires
        holds(a, b),
        holds(b, c),
    ensures
        holds(a, c),
{
    let (x, y) = choose|x: Seq<Site<'a>>, y: Seq<Site<'a>>| a == #[trigger] (x + b + y);
    let (u, v) = choose|u: Seq<Site<'a>>, v: Seq<Site<'a>>| b == #[trigger] (u + c + v);
    assert(a =~= (x + u) + c + (v + y));
}

proof fn lemma_all_sites_around<'a>(parts: Seq<Part<'a>>, i: int)
    requires
        0 <= i < parts.len(),
    ensures
        all_sites(parts) == all_sites(parts.take(i)) + part_sites(parts[i]) + all_sites(
            parts.skip(i + 1),
        ),
{
    lemma_one_part(parts[i]);
    lemma_all_sites_of_both(parts.take(i), seq![parts[i]]);
    lemma_all_sites_of_both(parts.take(i) + seq![parts[i]], parts.skip(i + 1));
    assert(parts =~= parts.take(i) + seq![parts[i]] + parts.skip(i + 1));
}

proof fn lemma_child_is_held<'a>(part: Part<'a>, i: int)
    requires
        0 <= i < children(part).len(),
    ensures
        holds(part_sites(part), part_sites(children(part)[i])),
{
    let below = children(part);
    law_sites_of_a_part(part);
    lemma_all_sites_around(below, i);
    let before = own_sites(part) + all_sites(below.take(i));
    assert(part_sites(part) =~= before + part_sites(below[i]) + all_sites(below.skip(i + 1)));
}

proof fn lemma_path_is_held<'a>(path: Seq<Part<'a>>)
    requires
        leads_down(path),
    ensures
        holds(part_sites(path[0]), part_sites(path.last())),
    decreases path.len(),
{
    if path.len() == 1 {
        lemma_holds_itself(part_sites(path[0]));
    } else {
        let rest = path.drop_last();
        let n = rest.len() - 1;
        assert forall|i: int| 0 <= i < rest.len() - 1 implies #[trigger] children(
            rest[i],
        ).contains(rest[i + 1]) by {
            assert(children(path[i]).contains(path[i + 1]));
        }
        lemma_path_is_held(rest);
        assert(children(path[n]).contains(path[n + 1]));
        let k = choose|k: int|
            0 <= k < children(path[n]).len() && children(path[n])[k] == path[n + 1];
        lemma_child_is_held(path[n], k);
        lemma_holds_inner(part_sites(path[0]), part_sites(path[n]), part_sites(path[n + 1]));
    }
}

proof fn lemma_item_is_held<'a>(v: &'a Vec<ModuleItem>, k: int, n: nat)
    requires
        0 <= k < n <= v@.len(),
    ensures
        holds(items_sites(v, n), item_sites(&v@[k])),
    decreases n,
{
    let before = items_sites(v, (n - 1) as nat);
    let last = item_sites(&v@[n - 1]);
    let none = Seq::<Site<'a>>::empty();
    if k == n - 1 {
        assert(items_sites(v, n) =~= before + last + none);
    } else {
        lemma_item_is_held(v, k, (n - 1) as nat);
        assert(items_sites(v, n) =~= none + before + last);
        lemma_holds_inner(items_sites(v, n), before, item_sites(&v@[k]));
    }
}

/// The walk misses nothing: wherever a part stands in a module, under whatever
/// kind of parts, its sites are among the sites of the module, as they are.
pub proof fn law_every_part_is_walked<'a>(
    module: &'a Module,
    path: Seq<Part<'a>>,
    part: Part<'a>,
)
    requires
        leads_to(module, path, part),
    ensures
        holds(module_sites(module), part_sites(part)),
        forall|k: int|
            0 <= k < own_sites(part).len() ==> module_sites(module).contains(
                #[trigger] own_sites(part)[k],
            ),
{
    let k = choose|k: int|
        0 <= k < module.body@.len() && path[0] == Part::Item(&#[trigger] module.body@[k]);
    lemma_item_is_held(&module.body, k, module.body@.len());
    lemma_path_is_held(path);
    let all = module_sites(module);
    lemma_holds_inner(all, part_sites(path[0]), part_sites(part));
    law_sites_of_a_part(part);
    let (x, y) = choose|x: Seq<Site<'a>>, y: Seq<Site<'a>>|
        all == #[trigger] (x + part_sites(part) + y);
    assert forall|k: int| 0 <= k < own_sites(part).len() implies all.contains(
        #[trigger] own_sites(part)[k],
    ) by {
        assert(all[x.len() + k] == own_sites(part)[k]);
    }
}

/// The sites keep the source order: of two parts directly below the same part,
/// all sites of the first one come before those of the second one.
pub proof fn law_sites_keep_the_source_order<'a>(part: Part<'a>, i: int, j: int)
    requires
        0 <= i < j < children(part).len(),
    ensures
        exists|x: Seq<Site<'a>>, y: Seq<Site<'a>>, z: Seq<Site<'a>>|
            part_sites(part) == #[trigger] (x + part_sites(children(part)[i]) + y + part_sites(
                children(part)[j],
            ) + z),
{
    let below = children(part);
    law_sites_of_a_part(part);
    lemma_all_sites_around(below, j);
    let first = below.take(j);
    lemma_all_sites_around(first, i);
    let x = own_sites(part) + all_sites(first.take(i));
    let y = all_sites(first.skip(i + 1));
    let z = all_sites(below.skip(j + 1));
    assert(part_sites(part) =~= x + part_sites(below[i]) + y + part_sites(below[j]) + z);
}

/// Some path from the part leads to a part that is the site.
spec fn is_found_below<'a>(part: Part<'a>, site: Site<'a>) -> bool {
    exists|path: Seq<Part<'a>>| #[trigger]
        leads_down(path) && path[0] == part && own_sites(path.last()) == seq![site]
}

/// Each site of the part stands below it.
spec fn sites_are_found<'a>(part: Part<'a>) -> bool {
    forall|k: int|
        0 <= k < part_sites(part).len() ==> is_found_below(part, #[trigger] part_sites(part)[k])
}

proof fn lemma_sites_are_found<'a>(part: Part<'a>)
    ensures
        sites_are_found(part),
{
    let p = |part: Part<'a>| sites_are_found(part);
    assert forall|part: Part<'a>| #[trigger] carries(p, part) by {
        if forall|i: int| 0 <= i < children(part).len() ==> p(#[trigger] children(part)[i]) {
            assert forall|k: int| 0 <= k < part_sites(part).len() implies is_found_below(
                part,
                #[trigger] part_sites(part)[k],
            ) by {
                lemma_site_is_found(part, k);
            }
        }
    }
    lemma_induction(p, part);
}

proof fn lemma_which_part<'a>(parts: Seq<Part<'a>>, k: int) -> (r: (int, int))
    requires
        0 <= k < all_sites(parts).len(),
    ensures
        0 <= r.0 < parts.len(),
        0 <= r.1 < part_sites(parts[r.0]).len(),
        part_sites(parts[r.0])[r.1] == all_sites(parts)[k],
    decreases parts.len(),
{
    let before = all_sites(parts.drop_last());
    if k < before.len() {
        lemma_which_part(parts.drop_last(), k)
    } else {
        (parts.len() - 1, k - before.len())
    }
}

proof fn lemma_site_is_found<'a>(part: Part<'a>, k: int)
    requires
        0 <= k < part_sites(part).len(),
        forall|i: int|
            0 <= i < children(part).len() ==> sites_are_found(#[trigger] children(part)[i]),
    ensures
        is_found_below(part, part_sites(part)[k]),
{
    let site = part_sites(part)[k];
    law_sites_of_a_part(part);
    let own = own_sites(part);
    if k < own.len() {
        let path = seq![part];
        assert(own =~= seq![site]);
        assert(leads_down(path));
    } else {
        let (i, m) = lemma_which_part(children(part), k - own.len());
        let child = children(part)[i];
        assert(sites_are_found(child));
        assert(is_found_below(child, part_sites(child)[m]));
        let rest = choose|rest: Seq<Part<'a>>| #[trigger]
            leads_down(rest) && rest[0] == child && own_sites(rest.last()) == seq![site];
        let path = seq![part] + rest;
        assert forall|n: int| 0 <= n < path.len() - 1 implies #[trigger] children(
            path[n],
        ).contains(path[n + 1]) by {
            if n == 0 {
                assert(children(part)[i] == path[1]);
            } else {
                assert(children(rest[n - 1]).contains(rest[n - 1 + 1]));
            }
        }
        assert(leads_down(path));
        assert(path.last() == rest.last());
    }
}

proof fn lemma_which_item<'a>(v: &'a Vec<ModuleItem>, n: nat, k: int) -> (r: (int, int))
    requires
        n <= v@.len(),
        0 <= k < items_sites(v, n).len(),
    ensures
        0 <= r.0 < n,
        0 <= r.1 < item_sites(&v@[r.0]).len(),
        item_sites(&v@[r.0])[r.1] == items_sites(v, n)[k],
    decreases n,
{
    let before = items_sites(v, (n - 1) as nat);
    if k < before.len() {
        lemma_which_item(v, (n - 1) as nat, k)
    } else {
        (n - 1, k - before.len())
    }
}

/// The walk invents nothing: each site of a module is a part that stands in
/// it.
pub proof fn law_every_site_stands_in_the_module<'a>(module: &'a Module, k: int)
    requires
        0 <= k < module_sites(module).len(),
    ensures
        exists|path: Seq<Part<'a>>, part: Part<'a>| #[trigger]
            leads_to(module, path, part) && own_sites(part) == seq![module_sites(module)[k]],
{
    let site = module_sites(module)[k];
    let (i, m) = lemma_which_item(&module.body, module.body@.len(), k);
    let item = Part::Item(&module.body@[i]);
    lemma_sites_are_found(item);
    assert(is_found_below(item, part_sites(item)[m]));
    let path = choose|path: Seq<Part<'a>>| #[trigger]
        leads_down(path) && path[0] == item && own_sites(path.last()) == seq![site];
    assert(leads_to(module, path, path.last()));
}

} // verus!
