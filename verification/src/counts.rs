//! How often something stands in a module.
//!
//! The walk finds each call, assignment, function, declaration and write
//! exactly as often as it stands in the module, whichever of them are counted.

use vstd::prelude::*;

use crate::ast::{
    ArrowFunctionBody, AssignTarget, Callee, Expr, ExprOrSpread, MemberExpr, MemberProp, Module,
    ModuleItem, Node, Param, Pat, Prop, PropName, Stmt,
};
use crate::origins::{
    count_args, count_arrow_body, count_callee, count_elem, count_elems, count_expr, count_exprs,
    count_function, count_item, count_items, count_member, count_module, count_node, count_nodes,
    count_param, count_params, count_pat, count_prop, count_props, count_stmt, count_stmts,
    count_target, Property,
};
use crate::parts::{
    all_sites, arg_parts, carries, children, elem_parts, expr_parts, law_sites_of_a_part,
    lemma_induction, member_parts, node_parts, own_sites, param_parts, part_sites, prop_parts,
    stmt_parts, Part,
};
use crate::walk::{item_sites, items_sites, module_sites, Site};

verus! {

/// How many nodes with the property there are in a part.
pub open spec fn count_part(part: Part, p: Property) -> nat {
    match part {
        Part::Expr(expr) => count_expr(expr, p),
        Part::Elem(elem) => count_elem(elem, p),
        Part::Target(target) => count_target(target, p),
        Part::Prop(prop) => count_prop(prop, p),
        Part::Param(param) => count_param(param, p),
        Part::Pat(pat) => count_pat(pat, p),
        Part::Stmt(stmt) => count_stmt(stmt, p),
        Part::Function(function) => count_function(function, p),
        Part::Node(node) => count_node(node, p),
        Part::Item(item) => count_item(item, p),
    }
}

/// Whether the part itself is a node with the property, as a number.
pub open spec fn own_count(part: Part, p: Property) -> nat {
    match part {
        Part::Expr(expr) => if p(Node::Expr(*expr)) {
            1
        } else {
            0
        },
        Part::Node(Node::Expr(_)) => 0,
        Part::Node(node) => if p(*node) {
            1
        } else {
            0
        },
        _ => 0,
    }
}

/// How many nodes with the property there are in some parts.
spec fn total(parts: Seq<Part>, p: Property) -> nat
    decreases parts.len(),
{
    if parts.len() == 0 {
        0
    } else {
        total(parts.drop_last(), p) + count_part(parts.last(), p)
    }
}

proof fn lemma_total_of_both<'a>(a: Seq<Part<'a>>, b: Seq<Part<'a>>, p: Property)
    ensures
        total(a + b, p) == total(a, p) + total(b, p),
    decreases b.len(),
{
    if b.len() == 0 {
        assert(a + b =~= a);
        assert(total(a, p) + total(b, p) == total(a, p));
    } else {
        assert((a + b).drop_last() =~= a + b.drop_last());
        lemma_total_of_both(a, b.drop_last(), p);
        assert(total(a + b, p) == total(a, p) + total(b, p));
    }
}

proof fn lemma_one_part<'a>(a: Part<'a>, p: Property)
    ensures
        total(seq![a], p) == count_part(a, p),
{
    let none = seq![a].drop_last();
    assert(none =~= Seq::<Part>::empty());
    assert(total(none, p) == 0);
    assert(total(seq![a], p) == total(none, p) + count_part(seq![a].last(), p));
    assert(total(seq![a], p) == count_part(a, p));
}

proof fn lemma_two_parts<'a>(a: Part<'a>, b: Part<'a>, p: Property)
    ensures
        total(seq![a, b], p) == count_part(a, p) + count_part(b, p),
{
    lemma_one_part(a, p);
    assert(seq![a, b].drop_last() =~= seq![a]);
}

proof fn lemma_three_parts<'a>(a: Part<'a>, b: Part<'a>, c: Part<'a>, p: Property)
    ensures
        total(seq![a, b, c], p) == count_part(a, p) + count_part(b, p) + count_part(c, p),
{
    lemma_two_parts(a, b, p);
    assert(seq![a, b, c].drop_last() =~= seq![a, b]);
}

proof fn lemma_node_parts<'a>(v: &'a Vec<Node>, n: nat, p: Property)
    requires
        n <= v@.len(),
    ensures
        total(node_parts(v).take(n as int), p) == count_nodes(v, n, p),
        n == v@.len() ==> total(node_parts(v), p) == count_nodes(v, n, p),
    decreases n,
{
    let parts = node_parts(v).take(n as int);
    if n > 0 {
        lemma_node_parts(v, (n - 1) as nat, p);
        assert(parts.drop_last() =~= node_parts(v).take(n - 1));
    }
    assert(n == v@.len() ==> parts =~= node_parts(v));
}

proof fn lemma_expr_parts<'a>(v: &'a Vec<Expr>, n: nat, p: Property)
    requires
        n <= v@.len(),
    ensures
        total(expr_parts(v).take(n as int), p) == count_exprs(v, n, p),
        n == v@.len() ==> total(expr_parts(v), p) == count_exprs(v, n, p),
    decreases n,
{
    let parts = expr_parts(v).take(n as int);
    if n > 0 {
        lemma_expr_parts(v, (n - 1) as nat, p);
        assert(parts.drop_last() =~= expr_parts(v).take(n - 1));
    }
    assert(n == v@.len() ==> parts =~= expr_parts(v));
}

proof fn lemma_arg_parts<'a>(v: &'a Vec<ExprOrSpread>, n: nat, p: Property)
    requires
        n <= v@.len(),
    ensures
        total(arg_parts(v).take(n as int), p) == count_args(v, n, p),
        n == v@.len() ==> total(arg_parts(v), p) == count_args(v, n, p),
    decreases n,
{
    let parts = arg_parts(v).take(n as int);
    if n > 0 {
        lemma_arg_parts(v, (n - 1) as nat, p);
        assert(parts.drop_last() =~= arg_parts(v).take(n - 1));
    }
    assert(n == v@.len() ==> parts =~= arg_parts(v));
}

proof fn lemma_elem_parts<'a>(v: &'a Vec<Option<ExprOrSpread>>, n: nat, p: Property)
    requires
        n <= v@.len(),
    ensures
        total(elem_parts(v).take(n as int), p) == count_elems(v, n, p),
        n == v@.len() ==> total(elem_parts(v), p) == count_elems(v, n, p),
    decreases n,
{
    let parts = elem_parts(v).take(n as int);
    if n > 0 {
        lemma_elem_parts(v, (n - 1) as nat, p);
        assert(parts.drop_last() =~= elem_parts(v).take(n - 1));
    }
    assert(n == v@.len() ==> parts =~= elem_parts(v));
}

proof fn lemma_prop_parts<'a>(v: &'a Vec<Prop>, n: nat, p: Property)
    requires
        n <= v@.len(),
    ensures
        total(prop_parts(v).take(n as int), p) == count_props(v, n, p),
        n == v@.len() ==> total(prop_parts(v), p) == count_props(v, n, p),
    decreases n,
{
    let parts = prop_parts(v).take(n as int);
    if n > 0 {
        lemma_prop_parts(v, (n - 1) as nat, p);
        assert(parts.drop_last() =~= prop_parts(v).take(n - 1));
    }
    assert(n == v@.len() ==> parts =~= prop_parts(v));
}

proof fn lemma_param_parts<'a>(v: &'a Vec<Param>, n: nat, p: Property)
    requires
        n <= v@.len(),
    ensures
        total(param_parts(v).take(n as int), p) == count_params(v, n, p),
        n == v@.len() ==> total(param_parts(v), p) == count_params(v, n, p),
    decreases n,
{
    let parts = param_parts(v).take(n as int);
    if n > 0 {
        lemma_param_parts(v, (n - 1) as nat, p);
        assert(parts.drop_last() =~= param_parts(v).take(n - 1));
    }
    assert(n == v@.len() ==> parts =~= param_parts(v));
}

proof fn lemma_stmt_parts<'a>(v: &'a Vec<Stmt>, n: nat, p: Property)
    requires
        n <= v@.len(),
    ensures
        total(stmt_parts(v).take(n as int), p) == count_stmts(v, n, p),
        n == v@.len() ==> total(stmt_parts(v), p) == count_stmts(v, n, p),
    decreases n,
{
    let parts = stmt_parts(v).take(n as int);
    if n > 0 {
        lemma_stmt_parts(v, (n - 1) as nat, p);
        assert(parts.drop_last() =~= stmt_parts(v).take(n - 1));
    }
    assert(n == v@.len() ==> parts =~= stmt_parts(v));
}

proof fn lemma_member_parts<'a>(member: &'a MemberExpr, p: Property)
    ensures
        total(member_parts(member), p) == count_member(member, p),
{
    match &member.prop {
        MemberProp::Computed(key) => lemma_two_parts(Part::Expr(&member.obj), Part::Expr(key), p),
        _ => {
            lemma_one_part(Part::Expr(&member.obj), p);
            assert(count_member(member, p) == count_expr(&member.obj, p));
        },
    }
}

proof fn lemma_count_of_expr<'a>(expr: &'a Expr, p: Property)
    ensures
        count_expr(expr, p) == own_count(Part::Expr(expr), p) + total(
            children(Part::Expr(expr)),
            p,
        ),
{
    match expr {
        Expr::Paren(inner) => lemma_one_part(Part::Expr(inner), p),
        Expr::Tpl(tpl) => lemma_expr_parts(&tpl.exprs, tpl.exprs@.len(), p),
        Expr::Bin(bin) => lemma_two_parts(Part::Expr(&bin.left), Part::Expr(&bin.right), p),
        Expr::Assign(assign) => {
            lemma_two_parts(Part::Target(&assign.left), Part::Expr(&assign.right), p);
        },
        Expr::Member(member) => lemma_member_parts(member, p),
        Expr::Call(call) => {
            lemma_arg_parts(&call.args, call.args@.len(), p);
            match &call.callee {
                Callee::Expr(callee) => {
                    lemma_one_part(Part::Expr(callee), p);
                    lemma_total_of_both(seq![Part::Expr(callee)], arg_parts(&call.args), p);
                    assert(count_callee(&call.callee, p) == count_expr(callee, p));
                },
                _ => {
                    assert(count_callee(&call.callee, p) == 0);
                },
            }
        },
        Expr::Array(elems) => lemma_elem_parts(elems, elems@.len(), p),
        Expr::Object(props) => lemma_prop_parts(props, props@.len(), p),
        Expr::Fn(function) => lemma_one_part(Part::Function(function), p),
        Expr::Arrow(arrow) => {
            lemma_param_parts(&arrow.params, arrow.params@.len(), p);
            let body = match &arrow.body {
                ArrowFunctionBody::Expr(inner) => seq![Part::Expr(inner)],
                ArrowFunctionBody::FunctionBody(stmts) => stmt_parts(stmts),
            };
            match &arrow.body {
                ArrowFunctionBody::Expr(inner) => lemma_one_part(Part::Expr(inner), p),
                ArrowFunctionBody::FunctionBody(stmts) => lemma_stmt_parts(stmts, stmts@.len(), p),
            }
            assert(count_arrow_body(&arrow.body, p) == total(body, p));
            lemma_total_of_both(param_parts(&arrow.params), body, p);
        },
        Expr::Sequence(exprs) => lemma_expr_parts(exprs, exprs@.len(), p),
        Expr::Cond(cond) => {
            lemma_three_parts(
                Part::Expr(&cond.test),
                Part::Expr(&cond.cons),
                Part::Expr(&cond.alt),
                p,
            );
        },
        Expr::Other(nodes) => lemma_node_parts(nodes, nodes@.len(), p),
        _ => {},
    }
    assert(count_expr(expr, p) == own_count(Part::Expr(expr), p) + total(
        children(Part::Expr(expr)),
        p,
    ));
}

proof fn lemma_count_of_part<'a>(part: Part<'a>, p: Property)
    ensures
        count_part(part, p) == own_count(part, p) + total(children(part), p),
{
    match part {
        Part::Expr(expr) => lemma_count_of_expr(expr, p),
        Part::Elem(elem) => match elem {
            Some(element) => lemma_one_part(Part::Expr(&element.expr), p),
            None => {},
        },
        Part::Target(target) => match target {
            AssignTarget::Ident(_) => {},
            AssignTarget::Member(member) => lemma_member_parts(member, p),
            AssignTarget::Paren(inner) => lemma_one_part(Part::Target(inner), p),
            AssignTarget::Other(nodes) => lemma_node_parts(nodes, nodes@.len(), p),
        },
        Part::Prop(prop) => match prop {
            Prop::KeyValue(key_value) => {
                let value = Part::Expr(&key_value.value);
                lemma_one_part(value, p);
                match &key_value.key {
                    PropName::Other(nodes) => {
                        lemma_node_parts(nodes, nodes@.len(), p);
                        lemma_total_of_both(node_parts(nodes), seq![value], p);
                    },
                    _ => {},
                }
            },
            Prop::Other(nodes) => lemma_node_parts(nodes, nodes@.len(), p),
        },
        Part::Param(param) => {
            lemma_node_parts(&param.decorators, param.decorators@.len(), p);
            lemma_one_part(Part::Pat(&param.pat), p);
            lemma_total_of_both(
                node_parts(&param.decorators),
                seq![Part::Pat(&param.pat)],
                p,
            );
        },
        Part::Pat(pat) => match pat {
            Pat::Ident(_) => {},
            Pat::Other(nodes) => lemma_node_parts(nodes, nodes@.len(), p),
        },
        Part::Stmt(stmt) => match stmt {
            Stmt::Return(Some(arg)) => lemma_one_part(Part::Expr(arg), p),
            Stmt::Return(None) => {},
            Stmt::Other(nodes) => lemma_node_parts(nodes, nodes@.len(), p),
        },
        Part::Function(function) => {
            let params = param_parts(&function.params);
            let decorators = node_parts(&function.decorators);
            let body = match &function.body {
                Some(stmts) => stmt_parts(stmts),
                None => Seq::empty(),
            };
            lemma_param_parts(&function.params, function.params@.len(), p);
            lemma_node_parts(&function.decorators, function.decorators@.len(), p);
            match &function.body {
                Some(stmts) => lemma_stmt_parts(stmts, stmts@.len(), p),
                None => {},
            }
            lemma_total_of_both(params, decorators, p);
            lemma_total_of_both(params + decorators, body, p);
        },
        Part::Node(node) => match node {
            Node::Expr(inner) => lemma_one_part(Part::Expr(inner), p),
            Node::FnDecl(decl) => lemma_one_part(Part::Function(&decl.function), p),
            Node::VarDeclarator(declarator) => match &declarator.init {
                Some(init) => lemma_two_parts(Part::Pat(&declarator.name), Part::Expr(init), p),
                None => lemma_one_part(Part::Pat(&declarator.name), p),
            },
            Node::Write(target) => lemma_one_part(Part::Target(target), p),
        },
        Part::Item(item) => match item {
            ModuleItem::Import(_, nodes) => lemma_node_parts(nodes, nodes@.len(), p),
            ModuleItem::ExportNamed(_, nodes) => lemma_node_parts(nodes, nodes@.len(), p),
            ModuleItem::ExportAll(_, nodes) => lemma_node_parts(nodes, nodes@.len(), p),
            ModuleItem::Other(nodes) => lemma_node_parts(nodes, nodes@.len(), p),
        },
    }
    assert(count_part(part, p) == own_count(part, p) + total(children(part), p));
}

// ---------------------------------------------------------------------------
// Sites
// ---------------------------------------------------------------------------

/// The node that a site is.
pub open spec fn site_node(site: Site) -> Node {
    match site {
        Site::FnDecl(decl) => Node::FnDecl(*decl),
        Site::FnExpr(function) => Node::Expr(Expr::Fn(*function)),
        Site::Arrow(arrow) => Node::Expr(Expr::Arrow(*arrow)),
        Site::VarDeclarator(declarator) => Node::VarDeclarator(*declarator),
        Site::Assign(assign) => Node::Expr(Expr::Assign(*assign)),
        Site::Write(target) => Node::Write(*target),
        Site::Call(call) => Node::Expr(Expr::Call(*call)),
    }
}

/// How many of the sites have the property.
pub open spec fn sites_where(sites: Seq<Site>, p: Property) -> nat
    decreases sites.len(),
{
    if sites.len() == 0 {
        0
    } else {
        sites_where(sites.drop_last(), p) + (if p(site_node(sites.last())) {
            1nat
        } else {
            0nat
        })
    }
}

/// The property is one of calls, assignments, functions, arrow functions,
/// declarations and writes.
pub open spec fn is_about_sites(p: Property) -> bool {
    forall|node: Node| #[trigger]
        p(node) ==> match node {
            Node::Expr(Expr::Call(_)) => true,
            Node::Expr(Expr::Assign(_)) => true,
            Node::Expr(Expr::Fn(_)) => true,
            Node::Expr(Expr::Arrow(_)) => true,
            Node::Expr(_) => false,
            _ => true,
        }
}

/// The sites of two lists are counted one list after the other.
pub proof fn lemma_sites_where_of_both(a: Seq<Site>, b: Seq<Site>, p: Property)
    ensures
        sites_where(a + b, p) == sites_where(a, p) + sites_where(b, p),
    decreases b.len(),
{
    if b.len() == 0 {
        assert(a + b =~= a);
    } else {
        assert((a + b).drop_last() =~= a + b.drop_last());
        lemma_sites_where_of_both(a, b.drop_last(), p);
    }
}

proof fn lemma_own_count(part: Part, p: Property)
    requires
        is_about_sites(p),
    ensures
        sites_where(own_sites(part), p) == own_count(part, p),
{
    let own = own_sites(part);
    if own.len() > 0 {
        assert(own.drop_last() =~= Seq::<Site>::empty());
        assert(sites_where(own.drop_last(), p) == 0);
        assert(own.last() == own[0]);
        assert(p(site_node(own[0])) ==> own_count(part, p) == 1);
    }
    match part {
        Part::Expr(expr) => {
            assert(p(Node::Expr(*expr)) ==> own.len() > 0);
        },
        _ => {},
    }
}

spec fn is_counted(part: Part, p: Property) -> bool {
    sites_where(part_sites(part), p) == count_part(part, p)
}

proof fn lemma_parts_are_counted(parts: Seq<Part>, p: Property)
    requires
        forall|i: int| 0 <= i < parts.len() ==> is_counted(#[trigger] parts[i], p),
    ensures
        sites_where(all_sites(parts), p) == total(parts, p),
    decreases parts.len(),
{
    if parts.len() > 0 {
        assert(is_counted(parts[parts.len() - 1], p));
        lemma_parts_are_counted(parts.drop_last(), p);
        lemma_sites_where_of_both(
            all_sites(parts.drop_last()),
            part_sites(parts.last()),
            p,
        );
    }
}

/// The walk finds what stands in a part exactly as often as it stands there.
pub proof fn law_part_sites_are_counted<'a>(part: Part<'a>, p: Property)
    requires
        is_about_sites(p),
    ensures
        sites_where(part_sites(part), p) == count_part(part, p),
{
    let holds = |part: Part<'a>| is_counted(part, p);
    assert forall|part: Part<'a>| #[trigger] carries(holds, part) by {
        let below = children(part);
        if forall|i: int| 0 <= i < below.len() ==> holds(#[trigger] below[i]) {
            assert forall|i: int| 0 <= i < below.len() implies is_counted(
                #[trigger] below[i],
                p,
            ) by {
                assert(holds(below[i]));
            }
            lemma_parts_are_counted(below, p);
            law_sites_of_a_part(part);
            lemma_sites_where_of_both(own_sites(part), all_sites(below), p);
            lemma_own_count(part, p);
            lemma_count_of_part(part, p);
        }
    }
    lemma_induction(holds, part);
}

/// The walk finds each call, assignment, function, arrow function, function
/// declaration, declarator and write of a module exactly once: as many of the
/// sites have a property as there are such nodes in the module.
pub proof fn law_sites_are_counted(module: &Module, p: Property)
    requires
        is_about_sites(p),
    ensures
        sites_where(module_sites(module), p) == count_module(module, p),
{
    lemma_items_are_counted(&module.body, module.body@.len(), p);
}

proof fn lemma_items_are_counted(v: &Vec<ModuleItem>, n: nat, p: Property)
    requires
        is_about_sites(p),
        n <= v@.len(),
    ensures
        sites_where(items_sites(v, n), p) == count_items(v, n, p),
    decreases n,
{
    if n > 0 {
        lemma_items_are_counted(v, (n - 1) as nat, p);
        law_part_sites_are_counted(Part::Item(&v@[n - 1]), p);
        lemma_sites_where_of_both(
            items_sites(v, (n - 1) as nat),
            item_sites(&v@[n - 1]),
            p,
        );
    }
}

} // verus!
