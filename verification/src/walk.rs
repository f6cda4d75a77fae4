//! The walk over a module: every site that the enumeration looks at, in the
//! order in which a depth-first walk enters it.

use vstd::prelude::*;

use crate::ast::{
    ArrowExpr, ArrowFunctionBody, AssignExpr, AssignTarget, CallExpr, Callee, Expr, ExprOrSpread,
    FnDecl, Function, MemberExpr, MemberProp, Module, ModuleItem, Node, Param, Pat, Prop, PropName,
    Stmt, VarDeclarator,
};

verus! {

/// A place in a module that the enumeration looks at.
pub enum Site<'a> {
    FnDecl(&'a FnDecl),
    FnExpr(&'a Function),
    Arrow(&'a ArrowExpr),
    VarDeclarator(&'a VarDeclarator),
    Assign(&'a AssignExpr),
    /// A write that is no assignment with a value of its own.
    Write(&'a AssignTarget),
    Call(&'a CallExpr),
}

/// The sites of an expression.
pub open spec fn expr_sites<'a>(expr: &'a Expr) -> Seq<Site<'a>>
    decreases expr, 0nat,
{
    match expr {
        Expr::Paren(inner) => expr_sites(inner),
        Expr::Ident(_) => Seq::empty(),
        Expr::Lit(_) => Seq::empty(),
        Expr::Tpl(tpl) => exprs_sites(&tpl.exprs, tpl.exprs@.len()),
        Expr::Bin(bin) => expr_sites(&bin.left) + expr_sites(&bin.right),
        Expr::Assign(assign) => seq![Site::Assign(assign)] + target_sites(&assign.left)
            + expr_sites(&assign.right),
        Expr::Member(member) => member_sites(member),
        Expr::Call(call) => seq![Site::Call(call)] + callee_sites(&call.callee) + args_sites(
            &call.args,
            call.args@.len(),
        ),
        Expr::Array(elems) => elems_sites(elems, elems@.len()),
        Expr::Object(props) => props_sites(props, props@.len()),
        Expr::Fn(function) => seq![Site::FnExpr(function)] + function_sites(function),
        Expr::Arrow(arrow) => seq![Site::Arrow(arrow)] + params_sites(
            &arrow.params,
            arrow.params@.len(),
        ) + arrow_body_sites(&arrow.body),
        Expr::Sequence(exprs) => exprs_sites(exprs, exprs@.len()),
        Expr::Cond(cond) => expr_sites(&cond.test) + expr_sites(&cond.cons) + expr_sites(&cond.alt),
        Expr::MetaProp(_) => Seq::empty(),
        Expr::Other(nodes) => nodes_sites(nodes, nodes@.len()),
    }
}

/// The sites of an assignment target.
pub open spec fn target_sites<'a>(target: &'a AssignTarget) -> Seq<Site<'a>>
    decreases target, 0nat,
{
    match target {
        AssignTarget::Ident(_) => Seq::empty(),
        AssignTarget::Member(member) => member_sites(member),
        AssignTarget::Paren(inner) => target_sites(inner),
        AssignTarget::Other(nodes) => nodes_sites(nodes, nodes@.len()),
    }
}

/// The sites of a member expression.
pub open spec fn member_sites<'a>(member: &'a MemberExpr) -> Seq<Site<'a>>
    decreases member, 0nat,
{
    expr_sites(&member.obj) + match &member.prop {
        MemberProp::Computed(inner) => expr_sites(inner),
        _ => Seq::empty(),
    }
}

/// The sites of a callee.
pub open spec fn callee_sites<'a>(callee: &'a Callee) -> Seq<Site<'a>>
    decreases callee, 0nat,
{
    match callee {
        Callee::Expr(inner) => expr_sites(inner),
        _ => Seq::empty(),
    }
}

/// The sites of an array element.
pub open spec fn elem_sites<'a>(elem: &'a Option<ExprOrSpread>) -> Seq<Site<'a>>
    decreases elem, 0nat,
{
    match elem {
        Some(element) => expr_sites(&element.expr),
        None => Seq::empty(),
    }
}

/// The sites of a member of an object literal.
pub open spec fn prop_sites<'a>(prop: &'a Prop) -> Seq<Site<'a>>
    decreases prop, 0nat,
{
    match prop {
        Prop::KeyValue(key_value) => (match &key_value.key {
            PropName::Other(nodes) => nodes_sites(nodes, nodes@.len()),
            _ => Seq::empty(),
        }) + expr_sites(&key_value.value),
        Prop::Other(nodes) => nodes_sites(nodes, nodes@.len()),
    }
}

/// The sites of a pattern.
pub open spec fn pat_sites<'a>(pat: &'a Pat) -> Seq<Site<'a>>
    decreases pat, 0nat,
{
    match pat {
        Pat::Ident(_) => Seq::empty(),
        Pat::Other(nodes) => nodes_sites(nodes, nodes@.len()),
    }
}

/// The sites of a parameter.
pub open spec fn param_sites<'a>(param: &'a Param) -> Seq<Site<'a>>
    decreases param, 0nat,
{
    nodes_sites(&param.decorators, param.decorators@.len()) + pat_sites(&param.pat)
}

/// The sites of a statement.
pub open spec fn stmt_sites<'a>(stmt: &'a Stmt) -> Seq<Site<'a>>
    decreases stmt, 0nat,
{
    match stmt {
        Stmt::Return(Some(arg)) => expr_sites(arg),
        Stmt::Return(None) => Seq::empty(),
        Stmt::Other(nodes) => nodes_sites(nodes, nodes@.len()),
    }
}

/// The sites of a function's parameters and body.
pub open spec fn function_sites<'a>(function: &'a Function) -> Seq<Site<'a>>
    decreases function, 0nat,
{
    params_sites(&function.params, function.params@.len()) + nodes_sites(
        &function.decorators,
        function.decorators@.len(),
    ) + match &function.body {
        Some(stmts) => stmts_sites(stmts, stmts@.len()),
        None => Seq::empty(),
    }
}

/// The sites of the body of an arrow function.
pub open spec fn arrow_body_sites<'a>(arrow_body: &'a ArrowFunctionBody) -> Seq<Site<'a>>
    decreases arrow_body, 0nat,
{
    match arrow_body {
        ArrowFunctionBody::Expr(inner) => expr_sites(inner),
        ArrowFunctionBody::FunctionBody(stmts) => stmts_sites(stmts, stmts@.len()),
    }
}

/// The sites of a node.
pub open spec fn node_sites<'a>(node: &'a Node) -> Seq<Site<'a>>
    decreases node, 0nat,
{
    match node {
        Node::Expr(inner) => expr_sites(inner),
        Node::FnDecl(decl) => seq![Site::FnDecl(decl)] + function_sites(&decl.function),
        Node::VarDeclarator(declarator) => seq![Site::VarDeclarator(declarator)] + pat_sites(
            &declarator.name,
        ) + match &declarator.init {
            Some(init) => expr_sites(init),
            None => Seq::empty(),
        },
        Node::Write(target) => seq![Site::Write(target)] + target_sites(target),
    }
}

/// The sites of the first `n` of some nodes.
pub open spec fn nodes_sites<'a>(v: &'a Vec<Node>, n: nat) -> Seq<Site<'a>>
    decreases v, n,
{
    if n == 0 || n > v@.len() {
        Seq::empty()
    } else {
        nodes_sites(v, (n - 1) as nat) + node_sites(&v@[n - 1])
    }
}

/// The sites of the first `n` of some expressions.
pub open spec fn exprs_sites<'a>(v: &'a Vec<Expr>, n: nat) -> Seq<Site<'a>>
    decreases v, n,
{
    if n == 0 || n > v@.len() {
        Seq::empty()
    } else {
        exprs_sites(v, (n - 1) as nat) + expr_sites(&v@[n - 1])
    }
}

/// The sites of the first `n` of some arguments.
pub open spec fn args_sites<'a>(v: &'a Vec<ExprOrSpread>, n: nat) -> Seq<Site<'a>>
    decreases v, n,
{
    if n == 0 || n > v@.len() {
        Seq::empty()
    } else {
        args_sites(v, (n - 1) as nat) + expr_sites(&v@[n - 1].expr)
    }
}

/// The sites of the first `n` of some array elements.
pub open spec fn elems_sites<'a>(v: &'a Vec<Option<ExprOrSpread>>, n: nat) -> Seq<Site<'a>>
    decreases v, n,
{
    if n == 0 || n > v@.len() {
        Seq::empty()
    } else {
        elems_sites(v, (n - 1) as nat) + elem_sites(&v@[n - 1])
    }
}

/// The sites of the first `n` of some members of an object literal.
pub open spec fn props_sites<'a>(v: &'a Vec<Prop>, n: nat) -> Seq<Site<'a>>
    decreases v, n,
{
    if n == 0 || n > v@.len() {
        Seq::empty()
    } else {
        props_sites(v, (n - 1) as nat) + prop_sites(&v@[n - 1])
    }
}

/// The sites of the first `n` of some parameters.
pub open spec fn params_sites<'a>(v: &'a Vec<Param>, n: nat) -> Seq<Site<'a>>
    decreases v, n,
{
    if n == 0 || n > v@.len() {
        Seq::empty()
    } else {
        params_sites(v, (n - 1) as nat) + param_sites(&v@[n - 1])
    }
}

/// The sites of the first `n` of some statements.
pub open spec fn stmts_sites<'a>(v: &'a Vec<Stmt>, n: nat) -> Seq<Site<'a>>
    decreases v, n,
{
    if n == 0 || n > v@.len() {
        Seq::empty()
    } else {
        stmts_sites(v, (n - 1) as nat) + stmt_sites(&v@[n - 1])
    }
}

/// The sites of a module item.
pub open spec fn item_sites<'a>(item: &'a ModuleItem) -> Seq<Site<'a>> {
    match item {
        ModuleItem::Import(_, nodes) => nodes_sites(nodes, nodes@.len()),
        ModuleItem::ExportNamed(_, nodes) => nodes_sites(nodes, nodes@.len()),
        ModuleItem::ExportAll(_, nodes) => nodes_sites(nodes, nodes@.len()),
        ModuleItem::Other(nodes) => nodes_sites(nodes, nodes@.len()),
    }
}

/// The sites of the first `n` items of a module.
pub open spec fn items_sites<'a>(v: &'a Vec<ModuleItem>, n: nat) -> Seq<Site<'a>>
    decreases n,
{
    if n == 0 || n > v@.len() {
        Seq::empty()
    } else {
        items_sites(v, (n - 1) as nat) + item_sites(&v@[n - 1])
    }
}

/// The sites of a module.
pub open spec fn module_sites<'a>(module: &'a Module) -> Seq<Site<'a>> {
    items_sites(&module.body, module.body@.len())
}

fn walk_expr<'a>(expr: &'a Expr, out: &mut Vec<Site<'a>>)
    ensures
        final(out)@ == old(out)@ + expr_sites(expr),
    decreases expr, 0nat,
{
    match expr {
        Expr::Paren(inner) => walk_expr(inner, out),
        Expr::Ident(_) => {},
        Expr::Lit(_) => {},
        Expr::Tpl(tpl) => walk_exprs(&tpl.exprs, out),
        Expr::Bin(bin) => {
            walk_expr(&bin.left, out);
            walk_expr(&bin.right, out);
        },
        Expr::Assign(assign) => {
            out.push(Site::Assign(assign));
            walk_target(&assign.left, out);
            walk_expr(&assign.right, out);
        },
        Expr::Member(member) => walk_member(member, out),
        Expr::Call(call) => {
            out.push(Site::Call(call));
            walk_callee(&call.callee, out);
            walk_args(&call.args, out);
        },
        Expr::Array(elems) => walk_elems(elems, out),
        Expr::Object(props) => walk_props(props, out),
        Expr::Fn(function) => {
            out.push(Site::FnExpr(function));
            walk_function(function, out);
        },
        Expr::Arrow(arrow) => {
            out.push(Site::Arrow(arrow));
            walk_params(&arrow.params, out);
            walk_arrow_body(&arrow.body, out);
        },
        Expr::Sequence(exprs) => walk_exprs(exprs, out),
        Expr::Cond(cond) => {
            walk_expr(&cond.test, out);
            walk_expr(&cond.cons, out);
            walk_expr(&cond.alt, out);
        },
        Expr::MetaProp(_) => {},
        Expr::Other(nodes) => walk_nodes(nodes, out),
    }
}

fn walk_target<'a>(target: &'a AssignTarget, out: &mut Vec<Site<'a>>)
    ensures
        final(out)@ == old(out)@ + target_sites(target),
    decreases target, 0nat,
{
    match target {
        AssignTarget::Ident(_) => {},
        AssignTarget::Member(member) => walk_member(member, out),
        AssignTarget::Paren(inner) => walk_target(inner, out),
        AssignTarget::Other(nodes) => walk_nodes(nodes, out),
    }
}

fn walk_member<'a>(member: &'a MemberExpr, out: &mut Vec<Site<'a>>)
    ensures
        final(out)@ == old(out)@ + member_sites(member),
    decreases member, 0nat,
{
    walk_expr(&member.obj, out);
    match &member.prop {
        MemberProp::Computed(inner) => walk_expr(inner, out),
        _ => {},
    }
}

fn walk_callee<'a>(callee: &'a Callee, out: &mut Vec<Site<'a>>)
    ensures
        final(out)@ == old(out)@ + callee_sites(callee),
    decreases callee, 0nat,
{
    match callee {
        Callee::Expr(inner) => walk_expr(inner, out),
        _ => {},
    }
}

fn walk_elem<'a>(elem: &'a Option<ExprOrSpread>, out: &mut Vec<Site<'a>>)
    ensures
        final(out)@ == old(out)@ + elem_sites(elem),
    decreases elem, 0nat,
{
    match elem {
        Some(element) => walk_expr(&element.expr, out),
        None => {},
    }
}

fn walk_prop<'a>(prop: &'a Prop, out: &mut Vec<Site<'a>>)
    ensures
        final(out)@ == old(out)@ + prop_sites(prop),
    decreases prop, 0nat,
{
    match prop {
        Prop::KeyValue(key_value) => {
            match &key_value.key {
                PropName::Other(nodes) => walk_nodes(nodes, out),
                _ => {},
            }
            walk_expr(&key_value.value, out);
        },
        Prop::Other(nodes) => walk_nodes(nodes, out),
    }
}

fn walk_pat<'a>(pat: &'a Pat, out: &mut Vec<Site<'a>>)
    ensures
        final(out)@ == old(out)@ + pat_sites(pat),
    decreases pat, 0nat,
{
    match pat {
        Pat::Ident(_) => {},
        Pat::Other(nodes) => walk_nodes(nodes, out),
    }
}

fn walk_param<'a>(param: &'a Param, out: &mut Vec<Site<'a>>)
    ensures
        final(out)@ == old(out)@ + param_sites(param),
    decreases param, 0nat,
{
    walk_nodes(&param.decorators, out);
    walk_pat(&param.pat, out);
}

fn walk_stmt<'a>(stmt: &'a Stmt, out: &mut Vec<Site<'a>>)
    ensures
        final(out)@ == old(out)@ + stmt_sites(stmt),
    decreases stmt, 0nat,
{
    match stmt {
        Stmt::Return(Some(arg)) => walk_expr(arg, out),
        Stmt::Return(None) => {},
        Stmt::Other(nodes) => walk_nodes(nodes, out),
    }
}

fn walk_function<'a>(function: &'a Function, out: &mut Vec<Site<'a>>)
    ensures
        final(out)@ == old(out)@ + function_sites(function),
    decreases function, 0nat,
{
    walk_params(&function.params, out);
    walk_nodes(&function.decorators, out);
    match &function.body {
        Some(stmts) => walk_stmts(stmts, out),
        None => {},
    }
}

fn walk_arrow_body<'a>(arrow_body: &'a ArrowFunctionBody, out: &mut Vec<Site<'a>>)
    ensures
        final(out)@ == old(out)@ + arrow_body_sites(arrow_body),
    decreases arrow_body, 0nat,
{
    match arrow_body {
        ArrowFunctionBody::Expr(inner) => walk_expr(inner, out),
        ArrowFunctionBody::FunctionBody(stmts) => walk_stmts(stmts, out),
    }
}

fn walk_node<'a>(node: &'a Node, out: &mut Vec<Site<'a>>)
    ensures
        final(out)@ == old(out)@ + node_sites(node),
    decreases node, 0nat,
{
    match node {
        Node::Expr(inner) => walk_expr(inner, out),
        Node::FnDecl(decl) => {
            out.push(Site::FnDecl(decl));
            walk_function(&decl.function, out);
        },
        Node::VarDeclarator(declarator) => {
            out.push(Site::VarDeclarator(declarator));
            walk_pat(&declarator.name, out);
            match &declarator.init {
                Some(init) => walk_expr(init, out),
                None => {},
            }
        },
        Node::Write(target) => {
            out.push(Site::Write(target));
            walk_target(target, out);
        },
    }
}

fn walk_nodes<'a>(v: &'a Vec<Node>, out: &mut Vec<Site<'a>>)
    ensures
        final(out)@ == old(out)@ + nodes_sites(v, v@.len()),
    decreases v, 1nat,
{
    let mut i: usize = 0;
    while i < v.len()
        invariant
            i <= v@.len(),
            out@ == old(out)@ + nodes_sites(v, i as nat),
        decreases v@.len() - i,
    {
        walk_node(&v[i], out);
        i = i + 1;
    }
}

fn walk_exprs<'a>(v: &'a Vec<Expr>, out: &mut Vec<Site<'a>>)
    ensures
        final(out)@ == old(out)@ + exprs_sites(v, v@.len()),
    decreases v, 1nat,
{
    let mut i: usize = 0;
    while i < v.len()
        invariant
            i <= v@.len(),
            out@ == old(out)@ + exprs_sites(v, i as nat),
        decreases v@.len() - i,
    {
        walk_expr(&v[i], out);
        i = i + 1;
    }
}

fn walk_args<'a>(v: &'a Vec<ExprOrSpread>, out: &mut Vec<Site<'a>>)
    ensures
        final(out)@ == old(out)@ + args_sites(v, v@.len()),
    decreases v, 1nat,
{
    let mut i: usize = 0;
    while i < v.len()
        invariant
            i <= v@.len(),
            out@ == old(out)@ + args_sites(v, i as nat),
        decreases v@.len() - i,
    {
        walk_expr(&v[i].expr, out);
        i = i + 1;
    }
}

fn walk_elems<'a>(v: &'a Vec<Option<ExprOrSpread>>, out: &mut Vec<Site<'a>>)
    ensures
        final(out)@ == old(out)@ + elems_sites(v, v@.len()),
    decreases v, 1nat,
{
    let mut i: usize = 0;
    while i < v.len()
        invariant
            i <= v@.len(),
            out@ == old(out)@ + elems_sites(v, i as nat),
        decreases v@.len() - i,
    {
        walk_elem(&v[i], out);
        i = i + 1;
    }
}

fn walk_props<'a>(v: &'a Vec<Prop>, out: &mut Vec<Site<'a>>)
    ensures
        final(out)@ == old(out)@ + props_sites(v, v@.len()),
    decreases v, 1nat,
{
    let mut i: usize = 0;
    while i < v.len()
        invariant
            i <= v@.len(),
            out@ == old(out)@ + props_sites(v, i as nat),
        decreases v@.len() - i,
    {
        walk_prop(&v[i], out);
        i = i + 1;
    }
}

fn walk_params<'a>(v: &'a Vec<Param>, out: &mut Vec<Site<'a>>)
    ensures
        final(out)@ == old(out)@ + params_sites(v, v@.len()),
    decreases v, 1nat,
{
    let mut i: usize = 0;
    while i < v.len()
        invariant
            i <= v@.len(),
            out@ == old(out)@ + params_sites(v, i as nat),
        decreases v@.len() - i,
    {
        walk_param(&v[i], out);
        i = i + 1;
    }
}

fn walk_stmts<'a>(v: &'a Vec<Stmt>, out: &mut Vec<Site<'a>>)
    ensures
        final(out)@ == old(out)@ + stmts_sites(v, v@.len()),
    decreases v, 1nat,
{
    let mut i: usize = 0;
    while i < v.len()
        invariant
            i <= v@.len(),
            out@ == old(out)@ + stmts_sites(v, i as nat),
        decreases v@.len() - i,
    {
        walk_stmt(&v[i], out);
        i = i + 1;
    }
}

/// Add the sites of a module item, in the order of the walk.
pub fn walk_item<'a>(item: &'a ModuleItem, out: &mut Vec<Site<'a>>)
    ensures
        final(out)@ == old(out)@ + item_sites(item),
{
    match item {
        ModuleItem::Import(_, nodes) => walk_nodes(nodes, out),
        ModuleItem::ExportNamed(_, nodes) => walk_nodes(nodes, out),
        ModuleItem::ExportAll(_, nodes) => walk_nodes(nodes, out),
        ModuleItem::Other(nodes) => walk_nodes(nodes, out),
    }
}

/// The sites of a module, in the order of the walk.
pub fn walk_module<'a>(module: &'a Module) -> (sites: Vec<Site<'a>>)
    ensures
        sites@ == module_sites(module),
{
    let mut out: Vec<Site<'a>> = Vec::new();
    let mut i: usize = 0;
    while i < module.body.len()
        invariant
            i <= module.body@.len(),
            out@ == items_sites(&module.body, i as nat),
        decreases module.body@.len() - i,
    {
        walk_item(&module.body[i], &mut out);
        i = i + 1;
    }
    out
}

} // verus!
