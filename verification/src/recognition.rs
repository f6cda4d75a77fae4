//! What a module is recognized by.
//!
//! The laws say, in terms of the syntax tree alone, which parts of a module
//! bind functions, write properties, name files and refer to other modules,
//! and that none of them is overlooked wherever it stands.

use vstd::prelude::*;

use crate::ast::{
    stripped, ArrowFunctionBody, AssignOp, AssignTarget, BinaryOp, Binding, CallExpr, Expr, Ident,
    Lit, MemberExpr, MemberProp, Module, ModuleItem, Node, Param, Pat, Stmt, VarDeclarator,
};
use crate::counts::{law_sites_are_counted, site_node, sites_where};
use crate::facts::{ImportView, RelativeImportKind};
use crate::imports::{
    dynamic_reference, dynamic_references, is_relative, item_references, items_references,
    module_references, relative_references, static_reference,
};
use crate::laws::law_imports_are_the_relative_references;
use crate::origins::{count_module, Property};
use crate::parts::{
    law_every_part_is_walked, law_every_site_stands_in_the_module, leads_to, own_sites, Part,
};
use crate::reading::is_binding;
use crate::runtime_properties::is_runtime_property;
use crate::surface::{
    anchored, assigns, function_bound_at, has_runtime_property, is_function_name, named_property,
    property_written_at, script_src_at, script_srcs, values_written, written_property,
    ScriptSrcView,
};
use crate::template::{filename_fn_shape, joined, proven_template, template_of, SegmentView};
use crate::walk::{item_sites, items_sites, module_sites, Site};
use crate::webpack::{
    has_runtime, has_two_runtime_properties, is_runtime_candidate, is_webpack5_runtime,
    BundleFormat,
};

verus! {

// ---------------------------------------------------------------------------
// Functions
// ---------------------------------------------------------------------------

/// The identifier denotes the binding.
pub open spec fn denotes_binding(ident: Ident, binding: Binding) -> bool {
    ident.sym@ == binding.0 && ident.ctxt == binding.1
}

/// The expression is a function or an arrow function.
pub open spec fn is_function(expr: &Expr) -> bool {
    match stripped(expr) {
        Expr::Fn(_) => true,
        Expr::Arrow(_) => true,
        _ => false,
    }
}

/// The node binds a function: it declares one, or is a declarator with one for
/// its initializer.
pub open spec fn binds_function(node: Node, binding: Binding) -> bool {
    match node {
        Node::FnDecl(decl) => denotes_binding(decl.ident, binding),
        Node::VarDeclarator(VarDeclarator { name: Pat::Ident(ident), init: Some(init) }) =>
            denotes_binding(ident, binding) && is_function(&init),
        _ => false,
    }
}

/// A binding is one of a function if and only if some declaration or declarator
/// binds it to one.
pub proof fn law_function_names(sites: Seq<Site>, binding: Binding)
    ensures
        is_function_name(sites, binding) <==> exists|i: int|
            0 <= i < sites.len() && binds_function(site_node(#[trigger] sites[i]), binding),
{
    assert forall|site: Site| #[trigger]
        function_bound_at(site) == Some(binding) <==> binds_function(
        site_node(site),
        binding,
    ) by {}
    if is_function_name(sites, binding) {
        let i = choose|i: int|
            0 <= i < sites.len() && function_bound_at(#[trigger] sites[i]) == Some(binding);
        assert(binds_function(site_node(sites[i]), binding));
    }
    if exists|i: int|
        0 <= i < sites.len() && binds_function(site_node(#[trigger] sites[i]), binding) {
        let i = choose|i: int|
            0 <= i < sites.len() && binds_function(site_node(#[trigger] sites[i]), binding);
        assert(function_bound_at(sites[i]) == Some(binding));
    }
}

/// A function that is bound anywhere in a module counts.
pub proof fn law_functions_of_a_module<'a>(
    module: &'a Module,
    path: Seq<Part<'a>>,
    node: &'a Node,
    binding: Binding,
)
    requires
        leads_to(module, path, Part::Node(node)),
        binds_function(*node, binding),
    ensures
        is_function_name(module_sites(module), binding),
{
    let sites = module_sites(module);
    law_every_part_is_walked(module, path, Part::Node(node));
    let site = own_sites(Part::Node(node))[0];
    let i = choose|i: int| 0 <= i < sites.len() && sites[i] == site;
    assert(site_node(sites[i]) == *node);
    law_function_names(sites, binding);
}

/// The only parameter is a plain identifier, and denotes the binding.
pub open spec fn takes(params: &Vec<Param>, binding: Binding) -> bool {
    &&& params@.len() == 1
    &&& params@[0].pat matches Pat::Ident(ident) && denotes_binding(ident, binding)
}

/// The statements are a single `return` of the expression.
pub open spec fn gives_back(stmts: &Vec<Stmt>, expr: &Expr) -> bool {
    &&& stmts@.len() == 1
    &&& stmts@[0] matches Stmt::Return(Some(arg)) && stripped(&arg) == expr
}

/// A filename function has one parameter and returns one expression: as an
/// arrow function with an expression or a single `return` for its body, or as
/// a function with a single `return`. Nothing else is one.
pub proof fn law_filename_functions(expr: &Expr, param: Binding, body: &Expr)
    ensures
        filename_fn_shape(expr) == Some((param, body)) <==> match stripped(expr) {
            Expr::Arrow(arrow) => takes(&arrow.params, param) && match &arrow.body {
                ArrowFunctionBody::Expr(inner) => stripped(inner) == body,
                ArrowFunctionBody::FunctionBody(stmts) => gives_back(stmts, body),
            },
            Expr::Fn(function) => takes(&function.params, param) && match &function.body {
                Some(stmts) => gives_back(stmts, body),
                None => false,
            },
            _ => false,
        },
{
}

// ---------------------------------------------------------------------------
// Property writes
// ---------------------------------------------------------------------------

/// The target is `object.name`, in any parentheses.
pub open spec fn is_property(target: &AssignTarget, object: Binding, name: Seq<char>) -> bool
    decreases target,
{
    match target {
        AssignTarget::Paren(inner) => is_property(inner, object, name),
        AssignTarget::Member(MemberExpr { obj, prop: MemberProp::Ident(sym) }) => sym@ == name
            && is_binding(obj, object),
        _ => false,
    }
}

/// The target is `object.name`, without parentheses.
pub open spec fn is_bare_property(target: &AssignTarget, object: Binding, name: Seq<char>) -> bool {
    match target {
        AssignTarget::Member(MemberExpr { obj, prop: MemberProp::Ident(sym) }) => sym@ == name
            && match &**obj {
            Expr::Ident(ident) => denotes_binding(*ident, object),
            _ => false,
        },
        _ => false,
    }
}

/// The site writes `object.name`.
pub open spec fn writes_property(site: Site, object: Binding, name: Seq<char>) -> bool {
    match site {
        Site::Assign(assign) => is_property(&assign.left, object, name),
        Site::Write(target) => is_property(target, object, name),
        _ => false,
    }
}

/// The value that a site which writes `object.name` leaves there: that of a
/// plain `object.name = value`, and else nothing that is known.
pub open spec fn value_left<'a>(site: Site<'a>, object: Binding, name: Seq<char>) -> Option<
    &'a Expr,
> {
    match site {
        Site::Assign(assign) => if assign.op == AssignOp::Assign && is_bare_property(
            &assign.left,
            object,
            name,
        ) {
            Some(&assign.right)
        } else {
            None
        },
        _ => None,
    }
}

proof fn lemma_written_property(target: &AssignTarget, object: Binding, name: Seq<char>)
    ensures
        written_property(target) == Some((object, name)) <==> is_property(target, object, name),
        named_property(target) == Some((object, name)) <==> is_bare_property(target, object, name),
        is_bare_property(target, object, name) ==> is_property(target, object, name),
    decreases target,
{
    match target {
        AssignTarget::Paren(inner) => lemma_written_property(inner, object, name),
        _ => {},
    }
}

/// What a site writes is what stands in it.
pub proof fn lemma_property_written_at(site: Site, object: Binding, name: Seq<char>)
    ensures
        match property_written_at(site) {
            Some(write) => write.object == object && write.name == name ==> writes_property(
                site,
                object,
                name,
            ) && write.value == value_left(site, object, name),
            None => !writes_property(site, object, name),
        },
        writes_property(site, object, name) ==> (property_written_at(site) matches Some(write)
            && write.object == object && write.name == name),
        assigns(site, object, name) <==> (site matches Site::Assign(assign) && is_bare_property(
            &assign.left,
            object,
            name,
        )),
{
    match site {
        Site::Assign(assign) => {
            lemma_written_property(&assign.left, object, name);
            match named_property(&assign.left) {
                Some((o, n)) => lemma_written_property(&assign.left, o, n),
                None => {},
            }
        },
        Site::Write(target) => lemma_written_property(target, object, name),
        _ => {},
    }
}

/// The values that some sites write and then others are those of both, in
/// turn.
pub proof fn law_values_written_in_turn<'a>(
    a: Seq<Site<'a>>,
    b: Seq<Site<'a>>,
    object: Binding,
    name: Seq<char>,
)
    ensures
        values_written(a + b, object, name) == values_written(a, object, name) + values_written(
            b,
            object,
            name,
        ),
    decreases b.len(),
{
    if b.len() == 0 {
        assert(a + b =~= a);
        assert(values_written(a, object, name) + values_written(b, object, name)
            =~= values_written(a, object, name));
    } else {
        assert((a + b).drop_last() =~= a + b.drop_last());
        law_values_written_in_turn(a, b.drop_last(), object, name);
        assert(values_written(a + b, object, name) =~= values_written(a, object, name)
            + values_written(b, object, name));
    }
}

/// Every write of a property counts, by whatever means, and nothing else does.
/// The value is known of a plain assignment only.
pub proof fn law_value_written_by_a_site<'a>(site: Site<'a>, object: Binding, name: Seq<char>)
    ensures
        values_written(seq![site], object, name) == (if writes_property(site, object, name) {
            seq![value_left(site, object, name)]
        } else {
            Seq::empty()
        }),
{
    let sites = seq![site];
    assert(sites.drop_last() =~= Seq::<Site<'a>>::empty());
    assert(values_written(sites.drop_last(), object, name) =~= Seq::<Option<&'a Expr>>::empty());
    assert(sites.last() == site);
    lemma_property_written_at(site, object, name);
    assert(values_written(sites, object, name) =~= (if writes_property(site, object, name) {
        seq![value_left(site, object, name)]
    } else {
        Seq::empty()
    }));
}

/// Where nothing writes a property, no value is written to it.
pub proof fn lemma_no_writes<'a>(sites: Seq<Site<'a>>, object: Binding, name: Seq<char>)
    requires
        forall|i: int|
            0 <= i < sites.len() ==> !writes_property(#[trigger] sites[i], object, name),
    ensures
        values_written(sites, object, name) == Seq::<Option<&'a Expr>>::empty(),
    decreases sites.len(),
{
    if sites.len() > 0 {
        lemma_no_writes(sites.drop_last(), object, name);
        lemma_property_written_at(sites.last(), object, name);
    }
}

/// A property that is written once has that one value.
pub proof fn law_value_written_once<'a>(
    sites: Seq<Site<'a>>,
    i: int,
    object: Binding,
    name: Seq<char>,
)
    requires
        0 <= i < sites.len(),
        writes_property(sites[i], object, name),
        forall|j: int|
            0 <= j < sites.len() && j != i ==> !writes_property(#[trigger] sites[j], object, name),
    ensures
        values_written(sites, object, name) == seq![value_left(sites[i], object, name)],
{
    let before = sites.take(i);
    let after = sites.skip(i + 1);
    assert(sites =~= before + seq![sites[i]] + after);
    assert forall|j: int| 0 <= j < before.len() implies !writes_property(
        #[trigger] before[j],
        object,
        name,
    ) by {
        assert(before[j] == sites[j]);
    }
    assert forall|j: int| 0 <= j < after.len() implies !writes_property(
        #[trigger] after[j],
        object,
        name,
    ) by {
        assert(after[j] == sites[i + 1 + j]);
    }
    lemma_no_writes(before, object, name);
    lemma_no_writes(after, object, name);
    law_values_written_in_turn(before, seq![sites[i]], object, name);
    law_values_written_in_turn(before + seq![sites[i]], after, object, name);
    law_value_written_by_a_site(sites[i], object, name);
    assert(values_written(sites, object, name) =~= seq![value_left(sites[i], object, name)]);
}

/// A site assigns the property `name` of `object` as it stands.
pub open spec fn is_assigned(sites: Seq<Site>, object: Binding, name: Seq<char>) -> bool {
    exists|i: int|
        0 <= i < sites.len() && match #[trigger] sites[i] {
            Site::Assign(assign) => is_bare_property(&assign.left, object, name),
            _ => false,
        }
}

/// An object has a runtime property if and only if it is assigned somewhere.
pub proof fn lemma_runtime_property(sites: Seq<Site>, object: Binding, name: Seq<char>)
    ensures
        has_runtime_property(sites, object, name)
            <==> is_runtime_property(name) && name != "u"@ && name
            != "miniCssF"@ && is_assigned(sites, object, name),
{
    if has_runtime_property(sites, object, name) {
        let i = choose|i: int| 0 <= i < sites.len() && assigns(#[trigger] sites[i], object, name);
        lemma_property_written_at(sites[i], object, name);
    }
    if is_assigned(sites, object, name) {
        let i = choose|i: int|
            0 <= i < sites.len() && match #[trigger] sites[i] {
                Site::Assign(assign) => is_bare_property(&assign.left, object, name),
                _ => false,
            };
        lemma_property_written_at(sites[i], object, name);
        assert(assigns(sites[i], object, name));
    }
}

/// The runtime object of webpack 5 is found: a function binding whose `.u` is
/// assigned a function, once and by nothing else, and which has two other
/// runtime properties, is the runtime object, if no other object has a `.u`.
pub proof fn law_webpack5_runtime_is_found(
    module: &Module,
    runtime: Binding,
    i: int,
    a: Seq<char>,
    b: Seq<char>,
)
    requires
        0 <= i < module_sites(module).len(),
        exists|k: int|
            0 <= k < module_sites(module).len() && binds_function(
                site_node(#[trigger] module_sites(module)[k]),
                runtime,
            ),
        value_left(module_sites(module)[i], runtime, "u"@) matches Some(value) && is_function(
            value,
        ),
        forall|j: int, other: Binding|
            0 <= j < module_sites(module).len() && j != i ==> !#[trigger] writes_property(
                module_sites(module)[j],
                other,
                "u"@,
            ),
        a != b,
        a != "u"@,
        b != "u"@,
        a != "miniCssF"@,
        b != "miniCssF"@,
        is_runtime_property(a),
        is_runtime_property(b),
        is_assigned(module_sites(module), runtime, a),
        is_assigned(module_sites(module), runtime, b),
    ensures
        is_webpack5_runtime(module_sites(module), runtime),
        has_runtime(module, BundleFormat::Webpack5),
        values_written(module_sites(module), runtime, "u"@) == seq![
            value_left(module_sites(module)[i], runtime, "u"@),
        ],
{
    let sites = module_sites(module);
    match sites[i] {
        Site::Assign(assign) => lemma_written_property(&assign.left, runtime, "u"@),
        _ => {},
    }
    law_value_written_once(sites, i, runtime, "u"@);
    law_function_names(sites, runtime);
    lemma_runtime_property(sites, runtime, a);
    lemma_runtime_property(sites, runtime, b);
    assert(has_two_runtime_properties(sites, runtime));
    assert(is_runtime_candidate(sites, runtime));
    assert forall|other: Binding| #[trigger] is_runtime_candidate(sites, other) implies other
        == runtime by {
        if other != runtime {
            assert(!writes_property(sites[i], other, "u"@)) by {
                lemma_property_written_at(sites[i], other, "u"@);
                lemma_property_written_at(sites[i], runtime, "u"@);
            }
            lemma_no_writes(sites, other, "u"@);
        }
    }
    assert(is_webpack5_runtime(sites, runtime));
}

// ---------------------------------------------------------------------------
// Script source functions
// ---------------------------------------------------------------------------

/// A concatenation begins with `X.p` if and only if its leftmost operand does,
/// and the rest is a template if and only if every other operand is one.
pub proof fn law_concatenations_with_a_public_path(expr: &Expr, param: Binding)
    ensures
        match expr {
            Expr::Paren(inner) => anchored(expr, param) == anchored(inner, param),
            Expr::Bin(bin) => if bin.op == BinaryOp::Add {
                match anchored(&bin.left, param) {
                    Some((anchor, front)) => anchored(expr, param) == Some(
                        (anchor, joined(front, template_of(&bin.right, param))),
                    ),
                    None => anchored(expr, param) is None,
                }
            } else {
                anchored(expr, param) is None
            },
            Expr::Member(MemberExpr { obj, prop: MemberProp::Ident(sym) }) => match &**obj {
                Expr::Ident(object) => if sym@ == "p"@ {
                    anchored(expr, param) == Some(
                        ((object.sym@, object.ctxt), Some(Seq::<SegmentView>::empty())),
                    )
                } else {
                    anchored(expr, param) is None
                },
                _ => anchored(expr, param) is None,
            },
            _ => anchored(expr, param) is None,
        },
{
}

/// The parameter and the returned expression of the function at a site, and
/// whether a call returns the value of that expression.
pub open spec fn function_of<'a>(site: Site<'a>, param: Binding, body: &Expr) -> bool {
    match site {
        Site::FnDecl(decl) => takes(&decl.function.params, param) && match &decl.function.body {
            Some(stmts) => gives_back(stmts, body),
            None => false,
        },
        Site::FnExpr(function) => takes(&function.params, param) && match &function.body {
            Some(stmts) => gives_back(stmts, body),
            None => false,
        },
        Site::Arrow(arrow) => takes(&arrow.params, param) && match &arrow.body {
            ArrowFunctionBody::Expr(inner) => stripped(inner) == body,
            ArrowFunctionBody::FunctionBody(stmts) => gives_back(stmts, body),
        },
        _ => false,
    }
}

/// The function at the site is neither async nor a generator.
pub open spec fn is_plain_site(site: Site) -> bool {
    match site {
        Site::FnDecl(decl) => !decl.function.is_async && !decl.function.is_generator,
        Site::FnExpr(function) => !function.is_async && !function.is_generator,
        Site::Arrow(arrow) => !arrow.is_async && !arrow.is_generator,
        _ => false,
    }
}

/// A function of one parameter that returns a concatenation beginning with
/// `X.p` is a script source function, wherever it appears and of whatever
/// kind.
pub proof fn law_script_source_functions(
    sites: Seq<Site>,
    i: int,
    param: Binding,
    body: &Expr,
    anchor: Binding,
    template: Option<Seq<SegmentView>>,
)
    requires
        0 <= i < sites.len(),
        function_of(sites[i], param, body),
        body is Bin,
        anchored(body, param) == Some((anchor, template)),
    ensures
        script_srcs(sites).contains(
            (anchor, proven_template(template, body, param, is_plain_site(sites[i]))),
        ),
{
    let src = (anchor, proven_template(template, body, param, is_plain_site(sites[i])));
    assert(script_src_at(sites[i]) == Some(src));
    lemma_script_srcs(sites, src);
}

/// The script source functions of some sites are those of each of them.
pub proof fn lemma_script_srcs(sites: Seq<Site>, src: ScriptSrcView)
    ensures
        script_srcs(sites).contains(src) <==> exists|i: int|
            0 <= i < sites.len() && script_src_at(#[trigger] sites[i]) == Some(src),
    decreases sites.len(),
{
    if sites.len() > 0 {
        let rest = sites.drop_last();
        lemma_script_srcs(rest, src);
        let before = script_srcs(rest);
        let all = script_srcs(sites);
        if before.contains(src) {
            let k = choose|k: int| 0 <= k < before.len() && before[k] == src;
            assert(all[k] == src);
        }
        if script_src_at(sites.last()) == Some(src) {
            assert(all[all.len() - 1] == src);
        }
        if all.contains(src) {
            let k = choose|k: int| 0 <= k < all.len() && all[k] == src;
            if k < before.len() {
                assert(before[k] == src);
                let i = choose|i: int|
                    0 <= i < rest.len() && script_src_at(#[trigger] rest[i]) == Some(src);
                assert(script_src_at(sites[i]) == Some(src));
            } else {
                assert(script_src_at(sites[sites.len() - 1]) == Some(src));
            }
        }
        if exists|i: int| 0 <= i < sites.len() && script_src_at(#[trigger] sites[i]) == Some(src) {
            let i = choose|i: int|
                0 <= i < sites.len() && script_src_at(#[trigger] sites[i]) == Some(src);
            if i < rest.len() {
                assert(script_src_at(rest[i]) == Some(src));
            }
        }
    }
}

// ---------------------------------------------------------------------------
// References to other modules
// ---------------------------------------------------------------------------

/// A specifier is relative if and only if it begins with `./` or `../`.
pub proof fn law_relative_specifiers(specifier: Seq<char>)
    ensures
        is_relative(specifier) <==> {
            ||| specifier.len() >= 2 && specifier[0] == '.' && specifier[1] == '/'
            ||| specifier.len() >= 3 && specifier[0] == '.' && specifier[1] == '.' && specifier[2]
                == '/'
        },
{
    reveal_strlit("./");
    reveal_strlit("../");
    let here = "./"@;
    let up = "../"@;
    if specifier.len() >= 2 && specifier[0] == '.' && specifier[1] == '/' {
        assert(specifier.subrange(0, 2) =~= here);
    }
    if specifier.len() >= 3 && specifier[0] == '.' && specifier[1] == '.' && specifier[2] == '/' {
        assert(specifier.subrange(0, 3) =~= up);
    }
    if here.is_prefix_of(specifier) {
        assert(here[0] == specifier[0] && here[1] == specifier[1]);
    }
    if up.is_prefix_of(specifier) {
        assert(up[0] == specifier[0] && up[1] == specifier[1] && up[2] == specifier[2]);
    }
}

/// The call is `import("...")` with the literal specifier.
pub open spec fn imports_module(call: CallExpr, specifier: Seq<char>) -> bool {
    &&& call.callee is Import
    &&& call.args@.len() == 1
    &&& !call.args@[0].spread
    &&& stripped(&call.args@[0].expr) matches Expr::Lit(Lit::Str(Some(value))) && value@
        == specifier
}

/// The declaration refers to the literal specifier.
pub open spec fn declares_reference(
    item: ModuleItem,
    specifier: Seq<char>,
    kind: RelativeImportKind,
) -> bool {
    match item {
        ModuleItem::Import(Some(src), _) => src@ == specifier && kind == RelativeImportKind::Import,
        ModuleItem::ExportNamed(Some(Some(src)), _) => src@ == specifier && kind
            == RelativeImportKind::ExportFrom,
        ModuleItem::ExportAll(Some(src), _) => src@ == specifier && kind
            == RelativeImportKind::ExportFrom,
        _ => false,
    }
}

proof fn lemma_dynamic_reference(call: &CallExpr, reference: ImportView)
    ensures
        dynamic_reference(call) == Some(reference) <==> imports_module(*call, reference.0)
            && reference.1 == RelativeImportKind::DynamicImport,
{
}

proof fn lemma_static_reference(item: &ModuleItem, reference: ImportView)
    ensures
        static_reference(item) == Some(reference) <==> declares_reference(
            *item,
            reference.0,
            reference.1,
        ),
{
}

/// The references of some sites and then others are those of both, in turn.
pub proof fn law_dynamic_references_in_turn(a: Seq<Site>, b: Seq<Site>)
    ensures
        dynamic_references(a + b) == dynamic_references(a) + dynamic_references(b),
    decreases b.len(),
{
    if b.len() == 0 {
        assert(a + b =~= a);
        assert(dynamic_references(a) + dynamic_references(b) =~= dynamic_references(a));
    } else {
        assert((a + b).drop_last() =~= a + b.drop_last());
        law_dynamic_references_in_turn(a, b.drop_last());
        assert(dynamic_references(a + b) =~= dynamic_references(a) + dynamic_references(b));
    }
}

/// The sites refer to those specifiers that an `import("...")` among them
/// names, and to no others.
proof fn lemma_dynamic_references(sites: Seq<Site>, reference: ImportView)
    ensures
        dynamic_references(sites).contains(reference) <==> reference.1
            == RelativeImportKind::DynamicImport && exists|i: int|
            0 <= i < sites.len() && match #[trigger] sites[i] {
                Site::Call(call) => imports_module(*call, reference.0),
                _ => false,
            },
    decreases sites.len(),
{
    if sites.len() > 0 {
        let rest = sites.drop_last();
        lemma_dynamic_references(rest, reference);
        let before = dynamic_references(rest);
        let all = dynamic_references(sites);
        let last = sites.last();
        assert(last == sites[sites.len() - 1]);
        match last {
            Site::Call(call) => lemma_dynamic_reference(call, reference),
            _ => {},
        }
        if before.contains(reference) {
            let k = choose|k: int| 0 <= k < before.len() && before[k] == reference;
            assert(all[k] == reference);
            let i = choose|i: int|
                0 <= i < rest.len() && match #[trigger] rest[i] {
                    Site::Call(call) => imports_module(*call, reference.0),
                    _ => false,
                };
            assert(sites[i] == rest[i]);
        }
        if all.len() > before.len() {
            assert(all[all.len() - 1] == all.last());
        }
        if all.contains(reference) {
            let k = choose|k: int| 0 <= k < all.len() && all[k] == reference;
            if k < before.len() {
                assert(before[k] == reference);
            }
        }
        if exists|i: int|
            0 <= i < sites.len() && match #[trigger] sites[i] {
                Site::Call(call) => imports_module(*call, reference.0),
                _ => false,
            } {
            let i = choose|i: int|
                0 <= i < sites.len() && match #[trigger] sites[i] {
                    Site::Call(call) => imports_module(*call, reference.0),
                    _ => false,
                };
            if i < rest.len() {
                assert(rest[i] == sites[i]);
            }
        }
    }
}

proof fn lemma_item_references(item: &ModuleItem, reference: ImportView)
    ensures
        item_references(item).contains(reference) <==> static_reference(item) == Some(reference)
            || dynamic_references(item_sites(item)).contains(reference),
{
    let inside = dynamic_references(item_sites(item));
    let all = item_references(item);
    match static_reference(item) {
        Some(own) => {
            assert(all[0] == own);
            if inside.contains(reference) {
                let k = choose|k: int| 0 <= k < inside.len() && inside[k] == reference;
                assert(all[k + 1] == reference);
            }
            if all.contains(reference) {
                let k = choose|k: int| 0 <= k < all.len() && all[k] == reference;
                if k > 0 {
                    assert(inside[k - 1] == reference);
                }
            }
        },
        None => {},
    }
}

proof fn lemma_items_references(v: &Vec<ModuleItem>, n: nat, reference: ImportView)
    requires
        n <= v@.len(),
    ensures
        items_references(v, n).contains(reference) <==> (exists|k: int|
            0 <= k < n && static_reference(&#[trigger] v@[k]) == Some(reference))
            || dynamic_references(items_sites(v, n)).contains(reference),
    decreases n,
{
    if n > 0 {
        let before = items_references(v, (n - 1) as nat);
        let last = item_references(&v@[n - 1]);
        let all = items_references(v, n);
        lemma_items_references(v, (n - 1) as nat, reference);
        lemma_item_references(&v@[n - 1], reference);
        law_dynamic_references_in_turn(items_sites(v, (n - 1) as nat), item_sites(&v@[n - 1]));
        let x = dynamic_references(items_sites(v, (n - 1) as nat));
        let y = dynamic_references(item_sites(&v@[n - 1]));
        lemma_contains_either(before, last, reference);
        lemma_contains_either(x, y, reference);
    }
}

proof fn lemma_contains_either(a: Seq<ImportView>, b: Seq<ImportView>, t: ImportView)
    ensures
        (a + b).contains(t) <==> a.contains(t) || b.contains(t),
{
    let c = a + b;
    if a.contains(t) {
        let i = choose|i: int| 0 <= i < a.len() && a[i] == t;
        assert(c[i] == t);
    }
    if b.contains(t) {
        let i = choose|i: int| 0 <= i < b.len() && b[i] == t;
        assert(c[a.len() + i] == t);
    }
    if c.contains(t) {
        let i = choose|i: int| 0 <= i < c.len() && c[i] == t;
        if i < a.len() {
            assert(a[i] == t);
        } else {
            assert(b[i - a.len()] == t);
        }
    }
}

/// Every relative `import("...")` that stands anywhere in a module is
/// collected.
pub proof fn law_dynamic_imports_are_collected<'a>(
    module: &'a Module,
    path: Seq<Part<'a>>,
    expr: &'a Expr,
    call: CallExpr,
    specifier: Seq<char>,
)
    requires
        leads_to(module, path, Part::Expr(expr)),
        *expr == Expr::Call(call),
        imports_module(call, specifier),
        is_relative(specifier),
    ensures
        relative_references(module_references(module)).contains(
            (specifier, RelativeImportKind::DynamicImport),
        ),
{
    let reference = (specifier, RelativeImportKind::DynamicImport);
    let sites = module_sites(module);
    law_every_part_is_walked(module, path, Part::Expr(expr));
    let site = own_sites(Part::Expr(expr))[0];
    let i = choose|i: int| 0 <= i < sites.len() && sites[i] == site;
    assert(match sites[i] {
        Site::Call(call) => imports_module(*call, specifier),
        _ => false,
    });
    lemma_dynamic_references(sites, reference);
    lemma_items_references(&module.body, module.body@.len(), reference);
    law_imports_are_the_relative_references(module_references(module));
}

/// Every relative specifier of an `import` or `export ... from` declaration is
/// collected.
pub proof fn law_declared_imports_are_collected(
    module: &Module,
    k: int,
    specifier: Seq<char>,
    kind: RelativeImportKind,
)
    requires
        0 <= k < module.body@.len(),
        declares_reference(module.body@[k], specifier, kind),
        is_relative(specifier),
    ensures
        relative_references(module_references(module)).contains((specifier, kind)),
{
    lemma_static_reference(&module.body@[k], (specifier, kind));
    lemma_items_references(&module.body, module.body@.len(), (specifier, kind));
    law_imports_are_the_relative_references(module_references(module));
}

/// Nothing else is collected: a dynamic import is one of an `import("...")`
/// that stands in the module, and any other kind is declared by an item of it.
pub proof fn law_only_imports_are_collected<'a>(module: &'a Module, reference: ImportView)
    requires
        relative_references(module_references(module)).contains(reference),
    ensures
        is_relative(reference.0),
        if reference.1 == RelativeImportKind::DynamicImport {
            exists|path: Seq<Part<'a>>, expr: &'a Expr| #[trigger]
                leads_to(module, path, Part::Expr(expr)) && match expr {
                    Expr::Call(call) => imports_module(*call, reference.0),
                    _ => false,
                }
        } else {
            exists|k: int|
                0 <= k < module.body@.len() && declares_reference(
                    #[trigger] module.body@[k],
                    reference.0,
                    reference.1,
                )
        },
{
    let sites = module_sites(module);
    law_imports_are_the_relative_references(module_references(module));
    lemma_items_references(&module.body, module.body@.len(), reference);
    lemma_dynamic_references(sites, reference);
    assert forall|k: int| 0 <= k < module.body@.len() implies (static_reference(
        &#[trigger] module.body@[k],
    ) == Some(reference) <==> declares_reference(module.body@[k], reference.0, reference.1)) by {
        lemma_static_reference(&module.body@[k], reference);
    }
    if reference.1 == RelativeImportKind::DynamicImport {
        assert(forall|k: int|
            0 <= k < module.body@.len() ==> static_reference(&#[trigger] module.body@[k]) != Some(
                reference,
            ));
        assert(module_references(module).contains(reference));
        assert(dynamic_references(sites).contains(reference));
        let i = choose|i: int|
            0 <= i < sites.len() && match #[trigger] sites[i] {
                Site::Call(call) => imports_module(*call, reference.0),
                _ => false,
            };
        law_every_site_stands_in_the_module(module, i);
        let (path, part) = choose|path: Seq<Part<'a>>, part: Part<'a>| #[trigger]
            leads_to(module, path, part) && own_sites(part) == seq![sites[i]];
        let own = own_sites(part);
        assert(own.len() == 1 && own[0] == sites[i]);
        match part {
            Part::Expr(expr) => {
                assert(leads_to(module, path, Part::Expr(expr)));
                assert(match expr {
                    Expr::Call(call) => imports_module(*call, reference.0),
                    _ => false,
                });
            },
            _ => {},
        }
    } else {
        let k = choose|k: int|
            0 <= k < module.body@.len() && static_reference(&#[trigger] module.body@[k]) == Some(
                reference,
            );
        assert(declares_reference(module.body@[k], reference.0, reference.1));
    }
}

/// An `import("...")` with a literal specifier.
pub open spec fn import_call() -> Property {
    |node: Node|
        match node {
            Node::Expr(Expr::Call(call)) => exists|specifier: Seq<char>|
                imports_module(call, specifier),
            _ => false,
        }
}

proof fn lemma_count_imports(sites: Seq<Site>)
    ensures
        dynamic_references(sites).len() == sites_where(sites, import_call()),
    decreases sites.len(),
{
    if sites.len() > 0 {
        lemma_count_imports(sites.drop_last());
        match sites.last() {
            Site::Call(call) => {
                match dynamic_reference(call) {
                    Some(reference) => {
                        lemma_dynamic_reference(call, reference);
                        assert(imports_module(*call, reference.0));
                    },
                    None => {
                        assert forall|specifier: Seq<char>| !imports_module(*call, specifier) by {
                            lemma_dynamic_reference(
                                call,
                                (specifier, RelativeImportKind::DynamicImport),
                            );
                        }
                    },
                }
            },
            _ => {},
        }
    }
}

/// A module has as many dynamic references as there are `import("...")` calls
/// with a literal specifier in it.
pub proof fn law_dynamic_imports_are_counted(module: &Module)
    ensures
        dynamic_references(module_sites(module)).len() == count_module(module, import_call()),
{
    lemma_count_imports(module_sites(module));
    law_sites_are_counted(module, import_call());
}

} // verus!
