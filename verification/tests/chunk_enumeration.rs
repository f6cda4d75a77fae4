//! Chunk enumeration of parsed sources.
//!
//! The sources use synthetic chunk ids (101/202/303), hashes (`aaaa1111` etc.)
//! and names (`alpha`).

use chunk_enumeration::ast;
use chunk_enumeration::facts::{
    merge, ChunkAssetKind, ChunkEnumeration, ChunkEnumerationStatus, ChunkIdSource, ChunkUrl,
    PublicPathFact, RelativeImportKind,
};
use chunk_enumeration::imports::collect_relative_import_specifiers;
use chunk_enumeration::webpack::{extract_chunk_enumeration, BundleFormat};
use swc_core::common::{FileName, Globals, Mark, SourceMap, Span, Spanned, GLOBALS};
use swc_core::ecma::ast as swc;
use swc_core::ecma::parser::{parse_file_as_module, EsSyntax, Syntax};
use swc_core::ecma::transforms::base::resolver;
use swc_core::ecma::visit::{Visit, VisitMutWith, VisitWith};

// ---------------------------------------------------------------------------
// Parsing
// ---------------------------------------------------------------------------

/// Parse and resolve a source, and hand its module and the mark of its free
/// identifiers on.
fn with_module<T>(source: &str, run: impl FnOnce(&ast::Module, ast::Mark) -> T) -> T {
    GLOBALS.set(&Globals::new(), || {
        let map = SourceMap::default();
        let file = map.new_source_file(
            FileName::Custom("entry.js".to_string()).into(),
            source.to_string(),
        );
        let mut errors = Vec::new();
        let mut module = parse_file_as_module(
            &file,
            Syntax::Es(EsSyntax::default()),
            swc::EsVersion::latest(),
            None,
            &mut errors,
        )
        .expect("the source parses");
        assert!(errors.is_empty());
        let unresolved_mark = Mark::new();
        let top_level_mark = Mark::new();
        module.visit_mut_with(&mut resolver(unresolved_mark, top_level_mark, false));
        run(&module_of(&module), mark_of(unresolved_mark))
    })
}

fn extract_from_source(source: &str, format: BundleFormat) -> Option<ChunkEnumeration> {
    with_module(source, |module, unresolved_mark| {
        extract_chunk_enumeration(module, format, unresolved_mark)
    })
}

fn extract_wp5(source: &str) -> Option<ChunkEnumeration> {
    extract_from_source(source, BundleFormat::Webpack5)
}

fn extract_wp4(source: &str) -> Option<ChunkEnumeration> {
    extract_from_source(source, BundleFormat::Webpack4)
}

// ---------------------------------------------------------------------------
// Conversion
// ---------------------------------------------------------------------------

/// Collects the nodes directly below a construct, each with its position.
#[derive(Default)]
struct Below {
    nodes: Vec<(Span, ast::Node)>,
}

impl Below {
    fn push(&mut self, span: Span, node: ast::Node) {
        self.nodes.push((span, node));
    }

    /// The nodes in source order. swc visits the test of a `do` loop before
    /// its body, and the body of a class before its heritage. Nodes without a
    /// position are left as they were visited.
    fn in_source_order(mut self) -> Vec<ast::Node> {
        if self.nodes.iter().all(|(span, _)| !span.is_dummy()) {
            self.nodes.sort_by_key(|(span, _)| span.lo);
        }
        self.nodes.into_iter().map(|(_, node)| node).collect()
    }
}

impl Visit for Below {
    fn visit_expr(&mut self, node: &swc::Expr) {
        self.push(node.span(), ast::Node::Expr(expr(node)));
    }

    fn visit_fn_decl(&mut self, node: &swc::FnDecl) {
        let decl = ast::FnDecl {
            ident: ident(&node.ident),
            function: function(&node.function),
        };
        self.push(node.span(), ast::Node::FnDecl(decl));
    }

    fn visit_fn_expr(&mut self, node: &swc::FnExpr) {
        let function = ast::Expr::Fn(function(&node.function));
        self.push(node.span(), ast::Node::Expr(function));
    }

    fn visit_var_declarator(&mut self, node: &swc::VarDeclarator) {
        let declarator = ast::VarDeclarator {
            name: pat(&node.name),
            init: node.init.as_deref().map(|init| Box::new(expr(init))),
        };
        self.push(node.span(), ast::Node::VarDeclarator(declarator));
    }

    fn visit_for_head(&mut self, node: &swc::ForHead) {
        let decls = match node {
            swc::ForHead::VarDecl(decl) => &decl.decls,
            swc::ForHead::UsingDecl(decl) => &decl.decls,
            swc::ForHead::Pat(pat) => return pat.visit_with(self),
        };
        for decl in decls {
            if decl.init.is_some() {
                decl.visit_with(self);
            } else {
                decl.name.visit_with(self);
            }
        }
    }

    fn visit_pat(&mut self, node: &swc::Pat) {
        match node {
            swc::Pat::Ident(binding) => {
                let target = ast::AssignTarget::Ident(ident(&binding.id));
                self.push(node.span(), ast::Node::Write(target));
            }
            swc::Pat::Expr(inner) => self.push(node.span(), ast::Node::Write(target(inner))),
            _ => node.visit_children_with(self),
        }
    }

    fn visit_assign_pat(&mut self, node: &swc::AssignPat) {
        match &*node.left {
            swc::Pat::Ident(binding) => self.visit_default(binding, Some(&node.right)),
            _ => node.visit_children_with(self),
        }
    }

    fn visit_assign_pat_prop(&mut self, node: &swc::AssignPatProp) {
        self.visit_default(&node.key, node.value.as_deref());
    }
}

impl Below {
    /// A binding of a pattern is written after its default is evaluated.
    fn visit_default(&mut self, binding: &swc::BindingIdent, default: Option<&swc::Expr>) {
        let mut span = binding.span();
        if let Some(default) = default {
            self.visit_expr(default);
            if !default.span().is_dummy() {
                span = default.span().shrink_to_hi();
            }
        }
        let target = ast::AssignTarget::Ident(ident(&binding.id));
        self.push(span, ast::Node::Write(target));
    }
}

/// The nodes below a construct.
fn below<N: VisitWith<Below>>(node: &N) -> Vec<ast::Node> {
    let mut below = Below::default();
    node.visit_children_with(&mut below);
    below.in_source_order()
}

/// The construct itself, if it is a node, or the nodes below it.
fn nodes<N: VisitWith<Below>>(node: &N) -> Vec<ast::Node> {
    let mut below = Below::default();
    node.visit_with(&mut below);
    below.in_source_order()
}

/// A module.
fn module_of(module: &swc::Module) -> ast::Module {
    ast::Module {
        body: module.body.iter().map(module_item).collect(),
    }
}

/// A mark.
fn mark_of(mark: Mark) -> ast::Mark {
    ast::Mark(mark.as_u32())
}

fn module_item(item: &swc::ModuleItem) -> ast::ModuleItem {
    match item {
        swc::ModuleItem::ModuleDecl(swc::ModuleDecl::Import(import)) => {
            ast::ModuleItem::Import(text(&import.src), below(import))
        }
        swc::ModuleItem::ModuleDecl(swc::ModuleDecl::ExportNamed(export)) => {
            ast::ModuleItem::ExportNamed(export.src.as_deref().map(text), below(export))
        }
        swc::ModuleItem::ModuleDecl(swc::ModuleDecl::ExportAll(export)) => {
            ast::ModuleItem::ExportAll(text(&export.src), below(export))
        }
        _ => ast::ModuleItem::Other(nodes(item)),
    }
}

fn text(value: &swc::Str) -> Option<String> {
    value.value.as_str().map(str::to_string)
}

fn ident(ident: &swc::Ident) -> ast::Ident {
    ast::Ident {
        sym: ident.sym.as_str().to_string(),
        ctxt: ident.ctxt.as_u32(),
        outer: mark_of(ident.ctxt.outer()),
    }
}

fn pat(pat: &swc::Pat) -> ast::Pat {
    match pat {
        swc::Pat::Ident(binding) => ast::Pat::Ident(ident(&binding.id)),
        _ => ast::Pat::Other(nodes(pat)),
    }
}

fn function(function: &swc::Function) -> ast::Function {
    ast::Function {
        params: function
            .params
            .iter()
            .map(|param| ast::Param {
                decorators: param.decorators.iter().flat_map(nodes).collect(),
                pat: pat(&param.pat),
            })
            .collect(),
        decorators: function.decorators.iter().flat_map(nodes).collect(),
        body: function
            .body
            .as_ref()
            .map(|body| body.stmts.iter().map(stmt).collect()),
        is_generator: function.is_generator,
        is_async: function.is_async,
    }
}

fn stmt(stmt: &swc::Stmt) -> ast::Stmt {
    match stmt {
        swc::Stmt::Return(ret) => {
            ast::Stmt::Return(ret.arg.as_deref().map(|arg| Box::new(expr(arg))))
        }
        _ => ast::Stmt::Other(nodes(stmt)),
    }
}

fn member(member: &swc::MemberExpr) -> ast::MemberExpr {
    ast::MemberExpr {
        obj: Box::new(expr(&member.obj)),
        prop: match &member.prop {
            swc::MemberProp::Ident(name) => ast::MemberProp::Ident(name.sym.as_str().to_string()),
            swc::MemberProp::Computed(computed) => {
                ast::MemberProp::Computed(Box::new(expr(&computed.expr)))
            }
            swc::MemberProp::PrivateName(_) => ast::MemberProp::Private,
        },
    }
}

fn argument(argument: &swc::ExprOrSpread) -> ast::ExprOrSpread {
    ast::ExprOrSpread {
        spread: argument.spread.is_some(),
        expr: expr(&argument.expr),
    }
}

fn prop(prop: &swc::PropOrSpread) -> ast::Prop {
    let swc::PropOrSpread::Prop(inner) = prop else {
        return ast::Prop::Other(nodes(prop));
    };
    let swc::Prop::KeyValue(key_value) = &**inner else {
        return ast::Prop::Other(nodes(prop));
    };
    ast::Prop::KeyValue(ast::KeyValueProp {
        key: match &key_value.key {
            swc::PropName::Ident(name) => ast::PropName::Ident(name.sym.as_str().to_string()),
            swc::PropName::Str(value) => ast::PropName::Str(text(value)),
            swc::PropName::Num(value) => ast::PropName::Num(value.value.to_bits()),
            key => ast::PropName::Other(nodes(key)),
        },
        value: expr(&key_value.value),
    })
}

fn binary_op(op: swc::BinaryOp) -> ast::BinaryOp {
    match op {
        swc::BinaryOp::Add => ast::BinaryOp::Add,
        swc::BinaryOp::LogicalOr => ast::BinaryOp::LogicalOr,
        swc::BinaryOp::LogicalAnd => ast::BinaryOp::LogicalAnd,
        _ => ast::BinaryOp::Other,
    }
}

fn literal(literal: &swc::Lit) -> ast::Lit {
    match literal {
        swc::Lit::Str(value) => ast::Lit::Str(text(value)),
        swc::Lit::Num(value) => ast::Lit::Num(value.value.to_bits()),
        swc::Lit::Null(_) => ast::Lit::Null,
        swc::Lit::Regex(regex) => ast::Lit::Regex(regex.exp.as_str().to_string()),
        _ => ast::Lit::Other,
    }
}

/// An expression as the target of a write.
fn target(target: &swc::Expr) -> ast::AssignTarget {
    let inner = match target {
        swc::Expr::Ident(name) => return ast::AssignTarget::Ident(ident(name)),
        swc::Expr::Member(inner) => return ast::AssignTarget::Member(member(inner)),
        swc::Expr::Paren(paren) => &paren.expr,
        swc::Expr::TsAs(cast) => &cast.expr,
        swc::Expr::TsSatisfies(cast) => &cast.expr,
        swc::Expr::TsNonNull(cast) => &cast.expr,
        swc::Expr::TsTypeAssertion(cast) => &cast.expr,
        _ => return ast::AssignTarget::Other(nodes(target)),
    };
    ast::AssignTarget::Paren(Box::new(self::target(inner)))
}

fn assign_target(left: &swc::AssignTarget) -> ast::AssignTarget {
    let swc::AssignTarget::Simple(simple) = left else {
        return ast::AssignTarget::Other(nodes(left));
    };
    let inner = match simple {
        swc::SimpleAssignTarget::Ident(binding) => {
            return ast::AssignTarget::Ident(ident(&binding.id));
        }
        swc::SimpleAssignTarget::Member(inner) => {
            return ast::AssignTarget::Member(member(inner));
        }
        swc::SimpleAssignTarget::Paren(paren) => &paren.expr,
        swc::SimpleAssignTarget::TsAs(cast) => &cast.expr,
        swc::SimpleAssignTarget::TsSatisfies(cast) => &cast.expr,
        swc::SimpleAssignTarget::TsNonNull(cast) => &cast.expr,
        swc::SimpleAssignTarget::TsTypeAssertion(cast) => &cast.expr,
        _ => return ast::AssignTarget::Other(nodes(left)),
    };
    ast::AssignTarget::Paren(Box::new(target(inner)))
}

fn assign(assign: &swc::AssignExpr) -> ast::AssignExpr {
    ast::AssignExpr {
        op: if assign.op == swc::AssignOp::Assign {
            ast::AssignOp::Assign
        } else {
            ast::AssignOp::Other
        },
        left: assign_target(&assign.left),
        right: Box::new(expr(&assign.right)),
    }
}

fn arrow(arrow: &swc::ArrowExpr) -> ast::ArrowExpr {
    ast::ArrowExpr {
        params: arrow
            .params
            .iter()
            .map(|param| ast::Param {
                decorators: Vec::new(),
                pat: pat(param),
            })
            .collect(),
        body: match &*arrow.body {
            swc::ArrowFunctionBody::Expr(body) => {
                ast::ArrowFunctionBody::Expr(Box::new(expr(body)))
            }
            swc::ArrowFunctionBody::FunctionBody(body) => {
                ast::ArrowFunctionBody::FunctionBody(body.stmts.iter().map(stmt).collect())
            }
        },
        is_async: arrow.is_async,
        is_generator: arrow.is_generator,
    }
}

fn expr(expr: &swc::Expr) -> ast::Expr {
    match expr {
        swc::Expr::Paren(paren) => ast::Expr::Paren(Box::new(self::expr(&paren.expr))),
        swc::Expr::Ident(name) => ast::Expr::Ident(ident(name)),
        swc::Expr::Lit(value) => ast::Expr::Lit(literal(value)),
        swc::Expr::Tpl(tpl) => ast::Expr::Tpl(ast::Tpl {
            quasis: tpl
                .quasis
                .iter()
                .map(|quasi| {
                    let cooked = quasi.cooked.as_ref()?;
                    cooked.as_str().map(str::to_string)
                })
                .collect(),
            exprs: tpl.exprs.iter().map(|inner| self::expr(inner)).collect(),
        }),
        swc::Expr::Bin(bin) => ast::Expr::Bin(ast::BinExpr {
            op: binary_op(bin.op),
            left: Box::new(self::expr(&bin.left)),
            right: Box::new(self::expr(&bin.right)),
        }),
        swc::Expr::Assign(inner) => ast::Expr::Assign(assign(inner)),
        swc::Expr::Member(inner) => ast::Expr::Member(member(inner)),
        swc::Expr::Call(call) => ast::Expr::Call(ast::CallExpr {
            callee: match &call.callee {
                swc::Callee::Expr(callee) => ast::Callee::Expr(Box::new(self::expr(callee))),
                swc::Callee::Import(_) => ast::Callee::Import,
                swc::Callee::Super(_) => ast::Callee::Super,
            },
            args: call.args.iter().map(argument).collect(),
        }),
        swc::Expr::Array(array) => ast::Expr::Array(
            array
                .elems
                .iter()
                .map(|elem| elem.as_ref().map(argument))
                .collect(),
        ),
        swc::Expr::Object(object) => ast::Expr::Object(object.props.iter().map(prop).collect()),
        swc::Expr::Fn(inner) => ast::Expr::Fn(function(&inner.function)),
        swc::Expr::Arrow(inner) => ast::Expr::Arrow(arrow(inner)),
        swc::Expr::Seq(sequence) => ast::Expr::Sequence(
            sequence
                .exprs
                .iter()
                .map(|inner| self::expr(inner))
                .collect(),
        ),
        swc::Expr::Cond(cond) => ast::Expr::Cond(ast::CondExpr {
            test: Box::new(self::expr(&cond.test)),
            cons: Box::new(self::expr(&cond.cons)),
            alt: Box::new(self::expr(&cond.alt)),
        }),
        swc::Expr::MetaProp(meta) => ast::Expr::MetaProp(match meta.kind {
            swc::MetaPropKind::NewTarget => ast::MetaPropKind::NewTarget,
            swc::MetaPropKind::ImportMeta => ast::MetaPropKind::ImportMeta,
        }),
        swc::Expr::Update(update) => {
            ast::Expr::Other(vec![ast::Node::Write(target(&update.arg))])
        }
        _ => ast::Expr::Other(below(expr)),
    }
}

// ---------------------------------------------------------------------------
// Webpack runtimes
// ---------------------------------------------------------------------------

/// Minimal webpack5-shaped runtime scaffold around a `.u` assignment: the
/// candidate gate requires a function-valued binding with at least two other
/// known runtime property assignments.
fn wp5_runtime(extra: &str) -> String {
    format!(
        r#"
(() => {{
    function __webpack_require__(moduleId) {{ return moduleId; }}
    __webpack_require__.e = (chunkId) => Promise.resolve(chunkId);
    __webpack_require__.o = (obj, prop) => Object.prototype.hasOwnProperty.call(obj, prop);
    {extra}
}})();
"#
    )
}

fn url(chunk_id: &str, url: &str, source: ChunkIdSource) -> ChunkUrl {
    ChunkUrl {
        chunk_id: chunk_id.to_string(),
        url: url.to_string(),
        source,
    }
}

#[test]
fn wp5_hash_map_template_enumerates() {
    let source = wp5_runtime(
        r#"
        __webpack_require__.p = "/assets/";
        __webpack_require__.u = (chunkId) =>
            "" + chunkId + "." + {101: "aaaa1111", 202: "bbbb2222"}[chunkId] + ".js";
        "#,
    );
    let enumeration = extract_wp5(&source).expect("enumeration");
    assert_eq!(
        enumeration.public_path,
        PublicPathFact::Static("/assets/".to_string())
    );
    let [asset] = enumeration.assets.as_slice() else {
        panic!("expected one asset, got {:?}", enumeration.assets);
    };
    assert_eq!(asset.kind, ChunkAssetKind::Js);
    assert_eq!(asset.status, ChunkEnumerationStatus::Enumerated);
    assert_eq!(asset.template.as_deref(), Some("[id].[map].js"));
    assert_eq!(
        asset.urls,
        vec![
            url("101", "101.aaaa1111.js", ChunkIdSource::FilenameMap),
            url("202", "202.bbbb2222.js", ChunkIdSource::FilenameMap),
        ]
    );
}

#[test]
fn wp5_name_map_with_fallback_renders_both_forms() {
    let source = wp5_runtime(
        r#"
        __webpack_require__.u = (chunkId) =>
            ({101: "alpha"}[chunkId] || chunkId) + "." +
            {101: "aaaa1111", 202: "bbbb2222"}[chunkId] + ".js";
        "#,
    );
    let enumeration = extract_wp5(&source).expect("enumeration");
    assert_eq!(enumeration.public_path, PublicPathFact::NotFound);
    let asset = &enumeration.assets[0];
    assert_eq!(asset.template.as_deref(), Some("[map|id].[map].js"));
    assert_eq!(
        asset.urls,
        vec![
            url("101", "alpha.aaaa1111.js", ChunkIdSource::FilenameMap),
            url("202", "202.bbbb2222.js", ChunkIdSource::FilenameMap),
        ]
    );
}

#[test]
fn wp5_id_missing_from_strict_map_is_dropped_not_invented() {
    let source = wp5_runtime(
        r#"
        __webpack_require__.u = (chunkId) =>
            "" + chunkId + "." + {101: "aaaa1111"}[chunkId] + ".js";
        __webpack_require__.e(303).then(__webpack_require__.bind(__webpack_require__, 9001));
        "#,
    );
    let enumeration = extract_wp5(&source).expect("enumeration");
    // 303 would render `303.undefined.js` at runtime; it must be dropped.
    assert_eq!(
        enumeration.assets[0].urls,
        vec![url("101", "101.aaaa1111.js", ChunkIdSource::FilenameMap)]
    );
}

#[test]
fn wp5_ensure_call_ids_enumerate_plain_template() {
    let source = wp5_runtime(
        r#"
        __webpack_require__.u = (chunkId) => chunkId + ".chunk.js";
        __webpack_require__.e(101).then(__webpack_require__.bind(__webpack_require__, 9001));
        Promise.all([__webpack_require__.e(202), __webpack_require__.e("alpha")])
            .then(__webpack_require__.bind(__webpack_require__, 9002));
        "#,
    );
    let enumeration = extract_wp5(&source).expect("enumeration");
    let asset = &enumeration.assets[0];
    assert_eq!(asset.status, ChunkEnumerationStatus::Enumerated);
    assert_eq!(
        asset.urls,
        vec![
            url("101", "101.chunk.js", ChunkIdSource::EnsureCall),
            url("202", "202.chunk.js", ChunkIdSource::EnsureCall),
            url("alpha", "alpha.chunk.js", ChunkIdSource::EnsureCall),
        ]
    );
}

#[test]
fn wp5_unrelated_dot_e_then_call_is_not_a_chunk_id_source() {
    let source = wp5_runtime(
        r#"
        __webpack_require__.u = (chunkId) => chunkId + ".chunk.js";
        var client = globalThis.authClient;
        client.e(101).then(() => 0);
        "#,
    );
    let enumeration = extract_wp5(&source).expect("enumeration");
    let asset = &enumeration.assets[0];
    assert_eq!(asset.status, ChunkEnumerationStatus::NoStaticChunkIds);
    assert!(asset.urls.is_empty());
}

#[test]
fn wp5_ensure_receiver_must_match_bound_continuation() {
    let source = wp5_runtime(
        r#"
        __webpack_require__.u = (chunkId) => chunkId + ".chunk.js";
        var client = globalThis.authClient;
        client.e(101).then(__webpack_require__.bind(__webpack_require__, 9001));
        Promise.all([__webpack_require__.e(202), client.e(303)])
            .then(__webpack_require__.bind(__webpack_require__, 9002));
        "#,
    );
    let enumeration = extract_wp5(&source).expect("enumeration");
    let asset = &enumeration.assets[0];
    assert_eq!(asset.status, ChunkEnumerationStatus::NoStaticChunkIds);
    assert!(asset.urls.is_empty());
}

#[test]
fn wp5_literal_template_without_id_source_fails_closed() {
    let source = wp5_runtime(r#"__webpack_require__.u = (chunkId) => chunkId + ".js";"#);
    let enumeration = extract_wp5(&source).expect("enumeration");
    let asset = &enumeration.assets[0];
    assert_eq!(asset.status, ChunkEnumerationStatus::NoStaticChunkIds);
    assert_eq!(asset.template.as_deref(), Some("[id].js"));
    assert!(asset.urls.is_empty());
}

#[test]
fn wp5_dynamic_template_fails_closed() {
    let source = wp5_runtime(
        r#"
        var suffix = globalThis.someSuffix;
        __webpack_require__.u = (chunkId) => chunkId + suffix;
        __webpack_require__.e(101).then(() => 0);
        "#,
    );
    let enumeration = extract_wp5(&source).expect("enumeration");
    let asset = &enumeration.assets[0];
    assert_eq!(asset.status, ChunkEnumerationStatus::DynamicTemplate);
    assert_eq!(asset.template, None);
    assert!(asset.urls.is_empty());
}

#[test]
fn wp5_runtime_computed_public_path_is_not_guessed() {
    let source = wp5_runtime(
        r#"
        var scriptUrl = globalThis.location + "";
        __webpack_require__.p = scriptUrl;
        __webpack_require__.u = (chunkId) => "" + chunkId + "." + {101: "aaaa1111"}[chunkId] + ".js";
        "#,
    );
    let enumeration = extract_wp5(&source).expect("enumeration");
    assert_eq!(enumeration.public_path, PublicPathFact::RuntimeComputed);
}

#[test]
fn wp5_script_relative_public_path_extracts_literal_suffix() {
    // webpack's automatic publicPath is the script's own directory plus a
    // configured relative suffix (here `../../`, climbing to the site root).
    let source = wp5_runtime(
        r#"
        var scriptUrl = document.currentScript.src;
        scriptUrl = scriptUrl
            .replace(/^blob:/, "")
            .replace(/#.*$/, "")
            .replace(/\?.*$/, "")
            .replace(/\/[^\/]+$/, "/");
        __webpack_require__.p = scriptUrl + "../../";
        __webpack_require__.u = (chunkId) =>
            "static/js/" + chunkId + "." + {101: "aaaa1111"}[chunkId] + ".chunk.js";
        "#,
    );
    let enumeration = extract_wp5(&source).expect("enumeration");
    assert_eq!(
        enumeration.public_path,
        PublicPathFact::ScriptRelative("../../".to_string())
    );
    assert_eq!(
        enumeration.assets[0].urls,
        vec![url(
            "101",
            "static/js/101.aaaa1111.chunk.js",
            ChunkIdSource::FilenameMap
        )]
    );
}

#[test]
fn wp5_script_relative_traces_through_reassignment_chain() {
    // The minified form of webpack's automatic publicPath assigns the script
    // URL and then trims it through reassignments before the `.p` write.
    let source = wp5_runtime(
        r#"
        var t;
        t = document.currentScript.src;
        t = t
            .replace(/^blob:/, "")
            .replace(/#.*$/, "")
            .replace(/\?.*$/, "")
            .replace(/\/[^\/]+$/, "/");
        __webpack_require__.p = t + "../../";
        __webpack_require__.u = (chunkId) => chunkId + ".js";
        __webpack_require__.e(101).then(() => 0);
        "#,
    );
    let enumeration = extract_wp5(&source).expect("enumeration");
    assert_eq!(
        enumeration.public_path,
        PublicPathFact::ScriptRelative("../../".to_string())
    );
}

#[test]
fn wp5_script_relative_accepts_runtime_document_script_fallback() {
    let source = wp5_runtime(
        r#"
        var runtimeDocument = __webpack_require__.g.document;
        var scripts = runtimeDocument.getElementsByTagName("script");
        var scriptUrl = scripts[0].src;
        scriptUrl = scriptUrl
            .replace(/^blob:/, "")
            .replace(/#.*$/, "")
            .replace(/\?.*$/, "")
            .replace(/\/[^\/]+$/, "/");
        __webpack_require__.p = scriptUrl + "../../";
        __webpack_require__.u = (chunkId) => chunkId + ".js";
        "#,
    );
    let enumeration = extract_wp5(&source).expect("enumeration");
    assert_eq!(
        enumeration.public_path,
        PublicPathFact::ScriptRelative("../../".to_string())
    );
}

#[test]
fn wp5_script_relative_accepts_minified_inline_public_path_assignment() {
    let source = wp5_runtime(
        r#"
        var scriptUrl;
        __webpack_require__.g.importScripts &&
            (scriptUrl = __webpack_require__.g.location + "");
        var runtimeDocument = __webpack_require__.g.document;
        if (!scriptUrl && runtimeDocument && runtimeDocument.currentScript) {
            scriptUrl = runtimeDocument.currentScript.src;
        }
        __webpack_require__.p = (scriptUrl = scriptUrl
            .replace(/^blob:/, "")
            .replace(/#.*$/, "")
            .replace(/\?.*$/, "")
            .replace(/\/[^\/]+$/, "/")) + "../../";
        __webpack_require__.u = (chunkId) => chunkId + ".js";
        "#,
    );
    let enumeration = extract_wp5(&source).expect("enumeration");
    assert_eq!(
        enumeration.public_path,
        PublicPathFact::ScriptRelative("../../".to_string())
    );
}

#[test]
fn wp5_untrimmed_script_url_is_not_a_script_directory() {
    let source = wp5_runtime(
        r#"
        var scriptUrl = document.currentScript.src;
        __webpack_require__.p = scriptUrl + "assets/";
        __webpack_require__.u = (chunkId) => chunkId + ".js";
        "#,
    );
    let enumeration = extract_wp5(&source).expect("enumeration");
    assert_eq!(enumeration.public_path, PublicPathFact::RuntimeComputed);
}

#[test]
fn wp5_arbitrary_src_member_is_not_a_script_url() {
    let source = wp5_runtime(
        r#"
        var base = globalThis.appConfig.src;
        base = base.replace(/\/[^\/]+$/, "/");
        __webpack_require__.p = base + "assets/";
        __webpack_require__.u = (chunkId) => chunkId + ".js";
        "#,
    );
    let enumeration = extract_wp5(&source).expect("enumeration");
    assert_eq!(enumeration.public_path, PublicPathFact::RuntimeComputed);
}

#[test]
fn wp5_same_name_in_another_scope_does_not_vouch_for_public_path_base() {
    let source = wp5_runtime(
        r#"
        function unrelated() {
            var base = document.currentScript.src;
            base = base.replace(/\/[^\/]+$/, "/");
            return base;
        }
        var base = globalThis.cdnBase;
        __webpack_require__.p = base + "assets/";
        __webpack_require__.u = (chunkId) => chunkId + ".js";
        "#,
    );
    let enumeration = extract_wp5(&source).expect("enumeration");
    assert_eq!(enumeration.public_path, PublicPathFact::RuntimeComputed);
}

#[test]
fn wp5_literal_concat_public_path_is_not_script_relative() {
    // A fully-literal concatenation is a static value, not script-relative.
    let source = wp5_runtime(
        r#"
        __webpack_require__.p = "/assets/" + "js/";
        __webpack_require__.u = (chunkId) => chunkId + ".js";
        __webpack_require__.e(101).then(() => 0);
        "#,
    );
    let enumeration = extract_wp5(&source).expect("enumeration");
    // The left operand is a string literal, so this is not script-relative;
    // it falls through to RuntimeComputed (multi-part static is not folded).
    assert_eq!(enumeration.public_path, PublicPathFact::RuntimeComputed);
}

#[test]
fn wp5_chained_concat_public_path_is_not_script_relative() {
    // `a + b + "c"` parses left-associatively; claiming only `"c"` would
    // silently drop the middle runtime operand. Fail closed instead.
    let source = wp5_runtime(
        r#"
        var scriptUrl = globalThis.location + "";
        var basePath = computeBasePath();
        __webpack_require__.p = scriptUrl + basePath + "/";
        __webpack_require__.u = (chunkId) => chunkId + ".js";
        __webpack_require__.e(101).then(() => 0);
        "#,
    );
    let enumeration = extract_wp5(&source).expect("enumeration");
    assert_eq!(enumeration.public_path, PublicPathFact::RuntimeComputed);
}

#[test]
fn wp5_non_script_url_base_is_not_script_relative() {
    // An app-configured `__webpack_public_path__` compiles to the same
    // `<expr> + "<literal>"` shape, but its base is not the script URL —
    // reading the suffix as script-relative would fabricate a path.
    let source = wp5_runtime(
        r#"
        __webpack_require__.p = window.__CDN_BASE__ + "static/";
        __webpack_require__.u = (chunkId) => chunkId + ".js";
        __webpack_require__.e(101).then(() => 0);
        "#,
    );
    let enumeration = extract_wp5(&source).expect("enumeration");
    assert_eq!(enumeration.public_path, PublicPathFact::RuntimeComputed);
}

#[test]
fn wp5_untraced_ident_base_is_not_script_relative() {
    // Same shape with a bare identifier base: unless that identifier
    // provably received a script-URL-derived value, fail closed.
    let source = wp5_runtime(
        r#"
        var cdnBase = window.__CDN_BASE__;
        __webpack_require__.p = cdnBase + "static/";
        __webpack_require__.u = (chunkId) => chunkId + ".js";
        __webpack_require__.e(101).then(() => 0);
        "#,
    );
    let enumeration = extract_wp5(&source).expect("enumeration");
    assert_eq!(enumeration.public_path, PublicPathFact::RuntimeComputed);
}

#[test]
fn wp5_absolute_suffix_is_not_script_relative() {
    // A suffix starting with `/` resolves against the origin root, not the
    // script directory — the script-relative replay identity breaks.
    let source = wp5_runtime(
        r#"
        var scriptUrl = globalThis.location + "";
        __webpack_require__.p = scriptUrl + "/assets/";
        __webpack_require__.u = (chunkId) => chunkId + ".js";
        __webpack_require__.e(101).then(() => 0);
        "#,
    );
    let enumeration = extract_wp5(&source).expect("enumeration");
    assert_eq!(enumeration.public_path, PublicPathFact::RuntimeComputed);
}

#[test]
fn wp5_condition_only_mention_is_not_traced() {
    // A script-URL source appearing only in a ternary condition does not
    // flow into the assigned value.
    let source = wp5_runtime(
        r#"
        var b = document.currentScript ? window.__CDN_BASE__ : "cdn/";
        __webpack_require__.p = b + "static/";
        __webpack_require__.u = (chunkId) => chunkId + ".js";
        __webpack_require__.e(101).then(() => 0);
        "#,
    );
    let enumeration = extract_wp5(&source).expect("enumeration");
    assert_eq!(enumeration.public_path, PublicPathFact::RuntimeComputed);
}

#[test]
fn wp5_nested_function_mention_is_not_traced() {
    // A script-URL source inside a nested function body is not the assigned
    // value; the identifier holds a function.
    let source = wp5_runtime(
        r#"
        var t = function () { return document.currentScript.src; };
        __webpack_require__.p = t + "static/";
        __webpack_require__.u = (chunkId) => chunkId + ".js";
        __webpack_require__.e(101).then(() => 0);
        "#,
    );
    let enumeration = extract_wp5(&source).expect("enumeration");
    assert_eq!(enumeration.public_path, PublicPathFact::RuntimeComputed);
}

#[test]
fn wp5_method_body_mention_is_not_traced() {
    // Same for class and object-literal method bodies: the identifier holds
    // a class or object, not a script URL.
    let source = wp5_runtime(
        r#"
        var t = class { m() { return document.currentScript.src; } };
        var u = { m() { return document.currentScript.src; } };
        __webpack_require__.p = t + "static/";
        __webpack_require__.u = (chunkId) => chunkId + ".js";
        __webpack_require__.e(101).then(() => 0);
        "#,
    );
    let enumeration = extract_wp5(&source).expect("enumeration");
    assert_eq!(enumeration.public_path, PublicPathFact::RuntimeComputed);
}

#[test]
fn wp5_logical_and_guard_mention_is_not_traced() {
    // `a && b` yields `b`; a script-URL source in the guard position does
    // not flow into the value.
    let source = wp5_runtime(
        r#"
        var t = someEl.src && window.__CDN_BASE__;
        __webpack_require__.p = t + "static/";
        __webpack_require__.u = (chunkId) => chunkId + ".js";
        __webpack_require__.e(101).then(() => 0);
        "#,
    );
    let enumeration = extract_wp5(&source).expect("enumeration");
    assert_eq!(enumeration.public_path, PublicPathFact::RuntimeComputed);
}

#[test]
fn wp5_non_directory_suffix_is_not_script_relative() {
    // webpack's automatic publicPath is always a directory path ending in
    // `/`; a bare filename-ish or query suffix is not that shape.
    let source = wp5_runtime(
        r#"
        var scriptUrl = globalThis.location + "";
        __webpack_require__.p = scriptUrl + "assets";
        __webpack_require__.u = (chunkId) => chunkId + ".js";
        __webpack_require__.e(101).then(() => 0);
        "#,
    );
    let enumeration = extract_wp5(&source).expect("enumeration");
    assert_eq!(enumeration.public_path, PublicPathFact::RuntimeComputed);
}

#[test]
fn wp5_empty_suffix_is_not_script_relative() {
    // `scriptUrl + ""` carries no provable suffix; an empty claim is
    // semantically RuntimeComputed and should be reported as such.
    let source = wp5_runtime(
        r#"
        var scriptUrl = globalThis.location + "";
        __webpack_require__.p = scriptUrl + "";
        __webpack_require__.u = (chunkId) => chunkId + ".js";
        __webpack_require__.e(101).then(() => 0);
        "#,
    );
    let enumeration = extract_wp5(&source).expect("enumeration");
    assert_eq!(enumeration.public_path, PublicPathFact::RuntimeComputed);
}

#[test]
fn wp5_mini_css_ids_come_only_from_its_own_map() {
    let source = wp5_runtime(
        r#"
        __webpack_require__.u = (chunkId) => chunkId + ".js";
        __webpack_require__.miniCssF = (chunkId) =>
            "css/" + chunkId + "." + {101: "cccc3333"}[chunkId] + ".css";
        __webpack_require__.e(202).then(__webpack_require__.bind(__webpack_require__, 9001));
        "#,
    );
    let enumeration = extract_wp5(&source).expect("enumeration");
    let [js, css] = enumeration.assets.as_slice() else {
        panic!("expected js + css assets, got {:?}", enumeration.assets);
    };
    assert_eq!(js.kind, ChunkAssetKind::Js);
    assert_eq!(
        js.urls,
        vec![url("202", "202.js", ChunkIdSource::EnsureCall)]
    );
    assert_eq!(css.kind, ChunkAssetKind::Css);
    // The `.e(202)` load site proves a JS request, not a CSS asset.
    assert_eq!(
        css.urls,
        vec![url(
            "101",
            "css/101.cccc3333.css",
            ChunkIdSource::FilenameMap
        )]
    );
}

#[test]
fn wp5_template_literal_form_is_supported() {
    let source = wp5_runtime(
        r#"
        __webpack_require__.u = (chunkId) => `${chunkId}.tpl.js`;
        __webpack_require__.e(101).then(__webpack_require__.bind(__webpack_require__, 9001));
        "#,
    );
    let enumeration = extract_wp5(&source).expect("enumeration");
    assert_eq!(
        enumeration.assets[0].urls,
        vec![url("101", "101.tpl.js", ChunkIdSource::EnsureCall)]
    );
}

#[test]
fn wp5_multiple_runtime_candidates_fail_closed() {
    let source = r#"
(() => {
    function alphaRequire(id) { return id; }
    alphaRequire.e = (c) => Promise.resolve(c);
    alphaRequire.o = (o, p) => true;
    alphaRequire.u = (c) => c + ".a.js";
    function betaRequire(id) { return id; }
    betaRequire.e = (c) => Promise.resolve(c);
    betaRequire.o = (o, p) => true;
    betaRequire.u = (c) => c + ".b.js";
})();
"#;
    assert_eq!(extract_wp5(source), None);
}

#[test]
fn wp5_bare_u_assignment_without_runtime_surface_fails_closed() {
    let source = r#"
(() => {
    function notWebpack(id) { return id; }
    notWebpack.u = (c) => c + ".js";
})();
"#;
    assert_eq!(extract_wp5(source), None);
}

#[test]
fn non_webpack_formats_are_not_enumerated() {
    let source = wp5_runtime(r#"__webpack_require__.u = (chunkId) => chunkId + ".js";"#);
    assert_eq!(
        extract_from_source(&source, BundleFormat::Browserify),
        None
    );
}

#[test]
fn wp4_jsonp_script_src_enumerates_with_maps() {
    let source = r#"
(function () {
    function jsonpScriptSrc(chunkId) {
        return __webpack_require__.p + "" +
            ({101: "alpha"}[chunkId] || chunkId) + "." +
            {101: "aaaa1111", 202: "bbbb2222"}[chunkId] + ".chunk.js";
    }
    function __webpack_require__(moduleId) { return moduleId; }
    __webpack_require__.p = "/static/";
    __webpack_require__.e(202).then(__webpack_require__.t.bind(null, 9001, 7));
})();
"#;
    let enumeration = extract_wp4(source).expect("enumeration");
    assert_eq!(
        enumeration.public_path,
        PublicPathFact::Static("/static/".to_string())
    );
    let [asset] = enumeration.assets.as_slice() else {
        panic!("expected one asset, got {:?}", enumeration.assets);
    };
    assert_eq!(asset.template.as_deref(), Some("[map|id].[map].chunk.js"));
    assert_eq!(
        asset.urls,
        vec![
            url("101", "alpha.aaaa1111.chunk.js", ChunkIdSource::FilenameMap),
            url("202", "202.bbbb2222.chunk.js", ChunkIdSource::FilenameMap),
        ]
    );
}

#[test]
fn wp4_inlined_script_src_expression_is_recognized() {
    // Terser inlines `jsonpScriptSrc` into an immediately invoked function
    // expression at the `script.src` assignment.
    let source = r#"
(function () {
    function __webpack_require__(moduleId) { return moduleId; }
    __webpack_require__.p = "";
    var script = {};
    script.src = function (chunkId) {
        return __webpack_require__.p + "" + chunkId + ".bundle.js";
    }(101);
    __webpack_require__.e(101).then(__webpack_require__.bind(null, 9001));
})();
"#;
    let enumeration = extract_wp4(source).expect("enumeration");
    assert_eq!(
        enumeration.public_path,
        PublicPathFact::Static(String::new())
    );
    assert_eq!(
        enumeration.assets[0].urls,
        vec![url("101", "101.bundle.js", ChunkIdSource::EnsureCall)]
    );
}

#[test]
fn wp4_conflicting_script_src_candidates_fail_closed() {
    let source = r#"
(function () {
    function __webpack_require__(moduleId) { return moduleId; }
    __webpack_require__.p = "";
    function alphaSrc(chunkId) { return __webpack_require__.p + chunkId + ".a.js"; }
    function betaSrc(chunkId) { return __webpack_require__.p + chunkId + ".b.js"; }
    alphaSrc(101); betaSrc(101);
})();
"#;
    assert_eq!(extract_wp4(source), None);
}

// ---------------------------------------------------------------------------
// Native-ESM (Vite/Rollup/rolldown/esbuild) literal relative specifiers
// ---------------------------------------------------------------------------

fn enumerate_source(source: &str) -> Option<ChunkEnumeration> {
    with_module(source, |module, _| {
        merge(None, collect_relative_import_specifiers(module))
    })
}

fn source_enumeration(source: &str) -> ChunkEnumeration {
    enumerate_source(source).expect("expected one enumeration")
}

#[test]
fn native_esm_static_and_dynamic_relative_imports_enumerate() {
    // Rollup/Vite-shaped entry: static sibling imports plus a lazy import().
    let source = r#"
import { a as x } from "./aaaa1111.js";
export { y } from "./bbbb2222.js";
export * from "./cccc3333.js";
const load = () => import("./lazy-beta.js");
console.log(x, load);
"#;
    let enumeration = source_enumeration(source);
    assert_eq!(enumeration.public_path, PublicPathFact::NotFound);
    assert!(enumeration.assets.is_empty());
    let seen: Vec<(&str, RelativeImportKind)> = enumeration
        .relative_imports
        .iter()
        .map(|import| (import.specifier.as_str(), import.kind))
        .collect();
    assert_eq!(
        seen,
        vec![
            ("./aaaa1111.js", RelativeImportKind::Import),
            ("./bbbb2222.js", RelativeImportKind::ExportFrom),
            ("./cccc3333.js", RelativeImportKind::ExportFrom),
            ("./lazy-beta.js", RelativeImportKind::DynamicImport),
        ]
    );
}

#[test]
fn bare_and_absolute_specifiers_are_not_enumerated() {
    // Only relative specifiers are sibling chunks; packages and absolute URLs
    // are not fetchable siblings and must be excluded.
    let source = r#"
import react from "react";
import x from "https://cdn.example.com/lib.js";
import y from "/absolute/app.js";
const z = import("some-package");
console.log(react, x, y, z);
"#;
    let enumeration = enumerate_source(source);
    assert!(
        enumeration.is_none(),
        "no relative specifiers expected: {enumeration:?}"
    );
}

#[test]
fn dynamic_import_of_expression_fails_closed() {
    let source = r#"
const name = globalThis.chunkName;
const a = import(name);
const b = import("./" + name);
export { a, b };
"#;
    let enumeration = enumerate_source(source);
    assert!(
        enumeration.is_none(),
        "computed import specifiers must not be enumerated: {enumeration:?}"
    );
}

#[test]
fn duplicate_relative_specifier_kinds_are_preserved_once_each() {
    let source = r#"
import { a } from "./shared-gamma.js";
import { b } from "./shared-gamma.js";
const c = () => import("./shared-gamma.js");
export { a, b, c };
"#;
    let enumeration = source_enumeration(source);
    assert_eq!(enumeration.relative_imports.len(), 2);
    assert_eq!(
        enumeration.relative_imports[0].specifier,
        "./shared-gamma.js"
    );
    assert_eq!(
        enumeration.relative_imports[0].kind,
        RelativeImportKind::Import
    );
    assert_eq!(
        enumeration.relative_imports[1].specifier,
        "./shared-gamma.js"
    );
    assert_eq!(
        enumeration.relative_imports[1].kind,
        RelativeImportKind::DynamicImport
    );
}

#[test]
fn parent_relative_specifiers_are_enumerated() {
    let source = r#"import { a } from "../vendor/ffff6666.js"; console.log(a);"#;
    let enumeration = source_enumeration(source);
    assert_eq!(
        enumeration.relative_imports[0].specifier,
        "../vendor/ffff6666.js"
    );
}

// ---------------------------------------------------------------------------
// Templates
// ---------------------------------------------------------------------------

fn js_asset(filename_fn: &str) -> chunk_enumeration::facts::ChunkAssetEnumeration {
    let source = wp5_runtime(&format!("__webpack_require__.u = {filename_fn};"));
    let mut enumeration = extract_wp5(&source).expect("enumeration");
    assert_eq!(enumeration.assets.len(), 1);
    enumeration.assets.remove(0)
}

fn assert_dynamic(filename_fn: &str) {
    let asset = js_asset(filename_fn);
    assert_eq!(asset.kind, ChunkAssetKind::Js);
    assert_eq!(asset.status, ChunkEnumerationStatus::DynamicTemplate);
    assert_eq!(asset.template, None);
    assert!(asset.urls.is_empty());
}

#[test]
fn function_expressions_and_blocks_are_filename_functions() {
    let expected = vec![url("101", "a.101.js", ChunkIdSource::FilenameMap)];
    for filename_fn in [
        r#"function (c) { return "a." + {101: "101"}[c] + ".js"; }"#,
        r#"(c) => { return "a." + {101: "101"}[c] + ".js"; }"#,
        r#"(c) => ("a." + {101: "101"}[c] + ".js")"#,
        r#"(function (c) { return ("a." + ({101: "101"})[(c)] + ".js"); })"#,
        r#"(c) => `a.${{101: "101"}[c]}.js`"#,
        r#"(c) => "a." + `${c}` + {101: ".js"}[c]"#,
    ] {
        let asset = js_asset(filename_fn);
        assert_eq!(asset.status, ChunkEnumerationStatus::Enumerated);
        assert_eq!(asset.urls, expected);
    }
}

#[test]
fn nesting_of_a_concatenation_does_not_matter() {
    let left = js_asset(r#"(c) => (("a" + c) + ".") + {7: "h"}[c]"#);
    let right = js_asset(r#"(c) => "a" + (c + ("." + {7: "h"}[c]))"#);
    assert_eq!(left, right);
    assert_eq!(left.template.as_deref(), Some("a[id].[map]"));
    assert_eq!(left.urls, vec![url("7", "a7.h", ChunkIdSource::FilenameMap)]);
}

#[test]
fn anything_but_a_literal_template_is_dynamic() {
    for filename_fn in [
        "(c) => c + other",
        "(c) => other",
        "(c, d) => c + \".js\"",
        "() => \".js\"",
        "({ c }) => \".js\"",
        "(c) => { const d = c; return d; }",
        "(c) => { return; }",
        "(c) => {}",
        "(c) => c - \".js\"",
        "(c) => c + 1",
        "(c) => f(c)",
        "(c) => c ? \"a\" : \"b\"",
        "(c) => `${c}${other}.js`",
        "(c) => \"\\uD800\" + c",
    ] {
        assert_dynamic(filename_fn);
    }
}

#[test]
fn tables_are_read_whole_or_not_at_all() {
    for table in [
        "{101: \"a\", ...rest}",
        "{101: \"a\", [k]: \"b\"}",
        "{101: \"a\", b}",
        "{101: \"a\", b() {}}",
        "{101: \"a\", get b() { return 1; }}",
        "{101: \"a\", 202: value}",
        "{101: \"a\", 202: 0.5}",
        "{101: \"a\", 202: -1}",
        "{101: \"a\", 0.5: \"b\"}",
        "{101: \"a\", 1n: \"b\"}",
        "{101: \"a\", 202: null}",
        "{101: \"a\", \"\\uD800\": \"b\"}",
    ] {
        assert_dynamic(&format!("(c) => ({table})[c] + \".js\""));
    }
    assert_dynamic("(c) => ({101: \"a\"})[d] + \".js\"");
    assert_dynamic("(c) => (() => c)[c]");
    assert_dynamic("(c) => ({101: \"a\"}).c + \".js\"");
    assert_dynamic("(c) => ({101: \"a\"}[c] || d) + \".js\"");
    assert_dynamic("(c) => (table[c] || c) + \".js\"");
    assert_dynamic("(c) => ({101: \"a\"}[c] && c) + \".js\"");
}

#[test]
fn table_keys_and_values_are_literals_of_any_kind() {
    let asset = js_asset(
        r#"(c) => ({alpha: "a", "b-b": 7, 0x10: "hex", 1e3: ("k"), 9007199254740992: 0})[c] + ".js""#,
    );
    assert_eq!(asset.template.as_deref(), Some("[map].js"));
    assert_eq!(
        asset.urls,
        vec![
            url("1000", "k.js", ChunkIdSource::FilenameMap),
            url("16", "hex.js", ChunkIdSource::FilenameMap),
            url("9007199254740992", "0.js", ChunkIdSource::FilenameMap),
            url("alpha", "a.js", ChunkIdSource::FilenameMap),
            url("b-b", "7.js", ChunkIdSource::FilenameMap),
        ]
    );
}

#[test]
fn the_last_entry_for_a_chunk_id_counts() {
    let asset = js_asset(r#"(c) => ({1: "old", "1": "new"})[c] + ".js""#);
    assert_eq!(asset.urls, vec![url("1", "new.js", ChunkIdSource::FilenameMap)]);
}

#[test]
fn an_id_has_to_be_in_every_strict_table() {
    let asset = js_asset(r#"(c) => ({1: "a", 2: "b"})[c] + ({2: "x", 3: "y"})[c]"#);
    assert_eq!(asset.status, ChunkEnumerationStatus::Enumerated);
    assert_eq!(asset.urls, vec![url("2", "bx", ChunkIdSource::FilenameMap)]);
    let none = js_asset(r#"(c) => ({1: "a"})[c] + ({3: "y"})[c]"#);
    assert_eq!(none.status, ChunkEnumerationStatus::Enumerated);
    assert_eq!(none.template.as_deref(), Some("[map][map]"));
    assert!(none.urls.is_empty());
}

#[test]
fn an_entry_that_counts_as_false_falls_back_to_the_id() {
    for (table, expected) in [
        (r#"{101: ""}"#, "101.js"),
        ("{101: 0}", "101.js"),
        (r#"{101: "a", "101": ("")}"#, "101.js"),
        (r#"{101: "", "101": "a"}"#, "a.js"),
        (r#"{101: "0"}"#, "0.js"),
        ("{101: 7}", "7.js"),
    ] {
        let asset = js_asset(&format!("(c) => ({table}[c] || c) + \".js\""));
        assert_eq!(asset.template.as_deref(), Some("[map|id].js"));
        assert_eq!(
            asset.urls,
            vec![url("101", expected, ChunkIdSource::FilenameMap)],
            "{table}"
        );
    }
    let strict = js_asset(r#"(c) => ({1: "", 2: 0})[c] + ".js""#);
    assert_eq!(
        strict.urls,
        vec![
            url("1", ".js", ChunkIdSource::FilenameMap),
            url("2", "0.js", ChunkIdSource::FilenameMap),
        ]
    );
}

#[test]
fn async_functions_and_generators_have_dynamic_templates() {
    for filename_fn in [
        "async (c) => ({1: \"a\"})[c]",
        "async function (c) { return ({1: \"a\"})[c]; }",
        "function* (c) { return ({1: \"a\"})[c]; }",
        "async function* (c) { return ({1: \"a\"})[c]; }",
    ] {
        assert_dynamic(filename_fn);
    }
    let plain = "function req() {} function b(c) { return req.p + c + \".js\"; }";
    assert!(extract_wp4(plain).is_some());
    for script_src in [
        "async function a(c) { return req.p + c + \".js\"; }",
        "function* a(c) { return req.p + c + \".js\"; }",
        "x(async function (c) { return req.p + c + \".js\"; });",
        "var a = async (c) => req.p + c + \".js\";",
    ] {
        let alone = extract_wp4(&format!("function req() {{}} {script_src}"));
        let asset = &alone.expect("enumeration").assets[0];
        assert_eq!(asset.status, ChunkEnumerationStatus::DynamicTemplate, "{script_src}");
        assert_eq!(asset.template, None);
        assert!(asset.urls.is_empty());
        assert_eq!(extract_wp4(&format!("{plain} {script_src}")), None, "{script_src}");
    }
}

#[test]
fn numbers_are_added_up_not_concatenated() {
    for filename_fn in [
        "(c) => ({1: 7})[c] + ({1: 8})[c]",
        "(c) => c + c",
        "(c) => c + ({1: 7})[c]",
        "(c) => c + ({1: 7, 2: \"a\"})[c]",
        "(c) => (({1: \"a\"})[c] || c) + c",
        "(c) => c + c + \".js\"",
        "(c) => (c + c) + (\"-\" + c)",
        "(c) => \"js/\" + (c + ({1: 7})[c])",
        "(c) => `js/${c + c}.js`",
    ] {
        assert_dynamic(filename_fn);
    }
    for (filename_fn, expected) in [
        ("(c) => \"\" + c + ({1: 7})[c]", "17"),
        ("(c) => ({1: 7})[c] + \".\" + ({1: 8})[c]", "7.8"),
        ("(c) => c + ({1: \"a\"})[c]", "1a"),
        ("(c) => c + (({1: 7})[c] + \".js\")", "17.js"),
        ("(c) => `${c}${({1: 7})[c]}` + c", "171"),
    ] {
        assert_eq!(
            js_asset(filename_fn).urls,
            vec![url("1", expected, ChunkIdSource::FilenameMap)],
            "{filename_fn}"
        );
    }
    let script_src = "function req() {} function a(c) { return req.p + (c + c); }";
    assert_eq!(
        extract_wp4(script_src).expect("enumeration").assets[0].status,
        ChunkEnumerationStatus::DynamicTemplate
    );
    let script_src = "function req() {} function a(c) { return req.p + c + ({1: 7})[c]; }";
    assert_eq!(
        extract_wp4(script_src).expect("enumeration").assets[0].urls,
        vec![url("1", "17", ChunkIdSource::FilenameMap)]
    );
}

#[test]
fn inherited_properties_are_no_chunks() {
    let source = |filename_fn: &str| {
        wp5_runtime(&format!(
            r#"
            __webpack_require__.u = {filename_fn};
            __webpack_require__.e("a").then(__webpack_require__.bind(null, 2));
            __webpack_require__.e("constructor").then(__webpack_require__.bind(null, 2));
            __webpack_require__.e("toString").then(__webpack_require__.bind(null, 2));
            __webpack_require__.e("__proto__").then(__webpack_require__.bind(null, 2));
            "#
        ))
    };
    let urls = |filename_fn: &str| {
        let enumeration = extract_wp5(&source(filename_fn)).expect("enumeration");
        let asset = enumeration.assets.into_iter().next().expect("an asset");
        assert_eq!(asset.status, ChunkEnumerationStatus::Enumerated);
        asset.urls
    };
    assert_eq!(
        urls(r#"(c) => (({b: "x"})[c] || c) + ".js""#),
        vec![
            url("a", "a.js", ChunkIdSource::EnsureCall),
            url("b", "x.js", ChunkIdSource::FilenameMap),
        ]
    );
    assert_eq!(
        urls(r#"(c) => (({toString: "x"})[c] || c) + ".js""#),
        vec![
            url("a", "a.js", ChunkIdSource::EnsureCall),
            url("toString", "x.js", ChunkIdSource::FilenameMap),
        ]
    );
    assert_eq!(
        urls(r#"(c) => c + ".js""#),
        vec![
            url("__proto__", "__proto__.js", ChunkIdSource::EnsureCall),
            url("a", "a.js", ChunkIdSource::EnsureCall),
            url("constructor", "constructor.js", ChunkIdSource::EnsureCall),
            url("toString", "toString.js", ChunkIdSource::EnsureCall),
        ]
    );
    assert_eq!(
        js_asset(r#"(c) => (({valueOf: "x"})[c] || c) + ({1: "y", 2: "z"})[c]"#).urls,
        vec![
            url("1", "1y", ChunkIdSource::FilenameMap),
            url("2", "2z", ChunkIdSource::FilenameMap),
        ]
    );
}

#[test]
fn the_prototype_is_no_literal_key() {
    for filename_fn in [
        r#"(c) => ({__proto__: "x", 1: "a"})[c] + ".js""#,
        r#"(c) => ({"__proto__": "x"})[c] + ".js""#,
        r#"(c) => (({__proto__: "x"})[c] || c) + ".js""#,
        r#"(c) => c + "." + ({1: "a"})[c] + ({__proto__: 1})[c]"#,
    ] {
        assert_dynamic(filename_fn);
    }
    let script_src = r#"
        function req() {}
        function a(c) { return req.p + ({__proto__: "x", 1: "a"})[c]; }
    "#;
    assert_eq!(
        extract_wp4(script_src).expect("enumeration").assets[0].status,
        ChunkEnumerationStatus::DynamicTemplate
    );
}

#[test]
fn an_empty_table_proves_no_id() {
    let asset = js_asset(r#"(c) => ({}[c] || c) + ".js""#);
    assert_eq!(asset.status, ChunkEnumerationStatus::NoStaticChunkIds);
    assert_eq!(asset.template.as_deref(), Some("[map|id].js"));
    assert!(asset.urls.is_empty());
}

// ---------------------------------------------------------------------------
// Load sites
// ---------------------------------------------------------------------------

fn loaded_urls(load: &str) -> Vec<ChunkUrl> {
    let source = wp5_runtime(&format!("__webpack_require__.u = (c) => c + \".js\";\n{load}"));
    let mut enumeration = extract_wp5(&source).expect("enumeration");
    enumeration.assets.remove(0).urls
}

#[test]
fn load_sites_in_module_factories_count() {
    let load = r#"
        var modules = {
            1(module, exports, req) {
                req.e(5).then(req.bind(req, 2));
                req.e("beta").then(req.t.bind(req, 3, 7));
                (req.e(6)).then((req.bind)((null), 4));
            },
            2: function (module, exports, r) { return r.e(5).then(r.t.bind(null, 9, 3)); },
        };
    "#;
    assert_eq!(
        loaded_urls(load),
        vec![
            url("5", "5.js", ChunkIdSource::EnsureCall),
            url("6", "6.js", ChunkIdSource::EnsureCall),
            url("beta", "beta.js", ChunkIdSource::EnsureCall),
        ]
    );
}

#[test]
fn calls_that_are_no_generated_load_do_not_count() {
    for load in [
        "__webpack_require__.e(1);",
        "__webpack_require__.e(1).catch(__webpack_require__.bind(null, 2));",
        "__webpack_require__.e(1).then();",
        "__webpack_require__.e(1).then(...a);",
        "__webpack_require__.e(1).then(__webpack_require__.bind());",
        "__webpack_require__.e(1).then(__webpack_require__.bind(...a));",
        "__webpack_require__.e(1).then(__webpack_require__.bind(other, 2));",
        "__webpack_require__.e(1).then(__webpack_require__.call(null, 2));",
        "__webpack_require__.e(1).then(__webpack_require__.n.bind(null, 2));",
        "__webpack_require__.e(1).then(other.bind(other, 2));",
        "__webpack_require__.e(1, 2).then(__webpack_require__.bind(null, 2));",
        "__webpack_require__.e(...a).then(__webpack_require__.bind(null, 2));",
        "__webpack_require__.e(x).then(__webpack_require__.bind(null, 2));",
        "__webpack_require__.e(1.5).then(__webpack_require__.bind(null, 2));",
        "__webpack_require__.l(1).then(__webpack_require__.bind(null, 2));",
        "__webpack_require__[\"e\"](1).then(__webpack_require__.bind(null, 2));",
        "Promise.all([__webpack_require__.e(1), , ]).then(__webpack_require__.bind(null, 2));",
        "Promise.all([...a, __webpack_require__.e(1)]).then(__webpack_require__.bind(null, 2));",
        "Promise.all([__webpack_require__.e(1), x]).then(__webpack_require__.bind(null, 2));",
        "Promise.all([__webpack_require__.e(1)], 2).then(__webpack_require__.bind(null, 2));",
        "Promise.race([__webpack_require__.e(1)]).then(__webpack_require__.bind(null, 2));",
        "{ let Promise = x; Promise.all([__webpack_require__.e(1)]).then(__webpack_require__.bind(null, 2)); }",
    ] {
        assert_eq!(loaded_urls(load), Vec::new(), "{load}");
    }
}

#[test]
fn an_id_from_both_sources_is_reported_once_as_a_table_key() {
    let source = wp5_runtime(
        r#"
        __webpack_require__.u = (c) => ({1: "one"}[c] || c) + ".js";
        __webpack_require__.e(1).then(__webpack_require__.bind(null, 2));
        __webpack_require__.e(3).then(__webpack_require__.bind(null, 2));
        "#,
    );
    let enumeration = extract_wp5(&source).expect("enumeration");
    assert_eq!(
        enumeration.assets[0].urls,
        vec![
            url("1", "one.js", ChunkIdSource::FilenameMap),
            url("3", "3.js", ChunkIdSource::EnsureCall),
        ]
    );
}

#[test]
fn another_load_site_keeps_the_urls() {
    let template = r#"__webpack_require__.u = (c) => ({1: "one"}[c] || c) + ".js";"#;
    let load = r#"__webpack_require__.e(2).then(__webpack_require__.bind(null, 3));"#;
    let fewer = extract_wp5(&wp5_runtime(template)).expect("enumeration");
    let more = extract_wp5(&wp5_runtime(&format!("{template}{load}"))).expect("enumeration");
    assert_eq!(fewer.assets[0].urls.len(), 1);
    assert_eq!(more.assets[0].urls.len(), 2);
    for listed in &fewer.assets[0].urls {
        assert!(more.assets[0].urls.contains(listed));
    }
}

// ---------------------------------------------------------------------------
// Runtimes
// ---------------------------------------------------------------------------

#[test]
fn a_second_filename_assignment_fails_closed() {
    let twice = wp5_runtime(
        r#"
        __webpack_require__.u = (c) => c + ".js";
        __webpack_require__.u = (c) => c + ".js";
        "#,
    );
    assert_eq!(extract_wp5(&twice), None);
    let no_function = wp5_runtime(r#"__webpack_require__.u = "a.js";"#);
    assert_eq!(extract_wp5(&no_function), None);
}

/// Writes of `X.name` that are no plain assignment to it.
fn other_writes(object: &str, name: &str) -> Vec<String> {
    let property = format!("{object}.{name}");
    vec![
        format!("({property}) = g;"),
        format!("({object}).{name} = g;"),
        format!("{property} += g;"),
        format!("{property} ||= g;"),
        format!("{property}++;"),
        format!("--({property});"),
        format!("[{property}] = [g];"),
        format!("[{property} = g] = x;"),
        format!("[...{property}] = x;"),
        format!("({{ a: {property} }} = x);"),
        format!("({{ a: [{{ b: {property} }}] }} = x);"),
        format!("for ({property} of x) {{}}"),
        format!("for ({property} in x) {{}}"),
        format!("for ([({property})] of x) {{}}"),
    ]
}

#[test]
fn every_write_of_a_filename_function_counts() {
    let plain = r#"__webpack_require__.u = (c) => ({1: "a"})[c];"#;
    assert!(extract_wp5(&wp5_runtime(plain)).is_some());
    for write in other_writes("__webpack_require__", "u") {
        assert_eq!(extract_wp5(&wp5_runtime(&write)), None, "{write}");
        assert_eq!(extract_wp5(&wp5_runtime(&format!("{plain} {write}"))), None, "{write}");
        assert_eq!(extract_wp5(&wp5_runtime(&format!("{write} {plain}"))), None, "{write}");
    }
    for write in other_writes("other", "u") {
        assert!(extract_wp5(&wp5_runtime(&format!("{plain} {write}"))).is_some(), "{write}");
    }
    for write in other_writes("__webpack_require__", "miniCssF") {
        let css = "__webpack_require__.miniCssF = (c) => ({1: \"b\"})[c];";
        for writes in [write.clone(), format!("{css} {write}"), format!("{write} {css}")] {
            let enumeration = extract_wp5(&wp5_runtime(&format!("{plain} {writes}")));
            let enumeration = enumeration.expect("enumeration");
            assert_eq!(enumeration.assets.len(), 2, "{writes}");
            assert_eq!(
                enumeration.assets[0].urls,
                vec![url("1", "a", ChunkIdSource::FilenameMap)]
            );
            assert_eq!(enumeration.assets[1].kind, ChunkAssetKind::Css);
            assert_eq!(
                enumeration.assets[1].status,
                ChunkEnumerationStatus::DynamicTemplate,
                "{writes}"
            );
        }
    }
}

#[test]
fn other_writes_do_not_make_a_runtime() {
    for write in other_writes("req", "o") {
        let object = "function req(id) { return id; } req.e = 1; req.u = (c) => c + \".js\";";
        let expected = write == "req.o += g;" || write == "req.o ||= g;";
        assert_eq!(extract_wp5(&format!("{object} {write}")).is_some(), expected, "{write}");
    }
}

#[test]
fn a_runtime_needs_two_different_other_properties() {
    let one = r#"
        function req(id) { return id; }
        req.e = 1;
        req.e = 2;
        req.u = (c) => c + ".js";
    "#;
    assert_eq!(extract_wp5(one), None);
    let css = r#"
        function req(id) { return id; }
        req.e = 1;
        req.miniCssF = (c) => c + ".css";
        req.u = (c) => c + ".js";
    "#;
    assert_eq!(extract_wp5(css), None);
    let unknown = r#"
        function req(id) { return id; }
        req.e = 1;
        req.notOfTheRuntime = 2;
        req.u = (c) => c + ".js";
    "#;
    assert_eq!(extract_wp5(unknown), None);
    let bound = r#"
        var req = (function (id) { return id; });
        req.e = 1;
        req.o = 2;
        req.u = (c) => c + ".js";
    "#;
    assert!(extract_wp5(bound).is_some());
    let no_function = r#"
        var req = {};
        req.e = 1;
        req.o = 2;
        req.u = (c) => c + ".js";
    "#;
    assert_eq!(extract_wp5(no_function), None);
}

#[test]
fn a_second_css_assignment_makes_only_the_css_asset_dynamic() {
    let source = wp5_runtime(
        r#"
        __webpack_require__.u = (c) => ({1: "a"})[c];
        __webpack_require__.miniCssF = (c) => ({1: "b"})[c];
        __webpack_require__.miniCssF = (c) => ({1: "c"})[c];
        "#,
    );
    let enumeration = extract_wp5(&source).expect("enumeration");
    assert_eq!(enumeration.assets.len(), 2);
    assert_eq!(enumeration.assets[0].status, ChunkEnumerationStatus::Enumerated);
    assert_eq!(enumeration.assets[1].kind, ChunkAssetKind::Css);
    assert_eq!(
        enumeration.assets[1].status,
        ChunkEnumerationStatus::DynamicTemplate
    );
    assert!(enumeration.assets[1].urls.is_empty());
}

#[test]
fn css_without_a_table_has_no_ids() {
    let source = wp5_runtime(
        r#"
        __webpack_require__.u = (c) => c + ".js";
        __webpack_require__.miniCssF = (c) => c + ".css";
        __webpack_require__.e(1).then(__webpack_require__.bind(null, 2));
        "#,
    );
    let enumeration = extract_wp5(&source).expect("enumeration");
    assert_eq!(
        enumeration.assets[1].status,
        ChunkEnumerationStatus::NoStaticChunkIds
    );
    assert_eq!(enumeration.assets[1].template.as_deref(), Some("[id].css"));
}

#[test]
fn wp4_identical_candidates_count_as_one() {
    let source = r#"
        function req(id) { return id; }
        function a(c) { return req.p + ({1: "x", 2: "y"})[c] + ".js"; }
        var b = (d) => (req.p) + ({2: "y", 1: "x"})[d] + ".js";
    "#;
    let enumeration = extract_wp4(source).expect("enumeration");
    assert_eq!(enumeration.public_path, PublicPathFact::NotFound);
    assert_eq!(
        enumeration.assets[0].urls,
        vec![
            url("1", "x.js", ChunkIdSource::FilenameMap),
            url("2", "y.js", ChunkIdSource::FilenameMap),
        ]
    );
}

#[test]
fn wp4_dynamic_template_is_a_candidate_too() {
    let one = r#"
        function req(id) { return id; }
        function a(c) { return req.p + f(c) + ".js"; }
    "#;
    let enumeration = extract_wp4(one).expect("enumeration");
    assert_eq!(
        enumeration.assets[0].status,
        ChunkEnumerationStatus::DynamicTemplate
    );
    let both = r#"
        function req(id) { return id; }
        function a(c) { return req.p + f(c) + ".js"; }
        function b(c) { return req.p + c + ".js"; }
    "#;
    assert_eq!(extract_wp4(both), None);
}

#[test]
fn wp4_script_src_begins_with_the_public_path_of_a_function() {
    for source in [
        "var req = {}; function a(c) { return req.p + c + \".js\"; }",
        "function req() {} function a(c) { return req.q + c + \".js\"; }",
        "function req() {} function a(c) { return \"\" + req.p + c + \".js\"; }",
        "function req() {} function a(c) { return req.p; }",
        "function req() {} function a(c) { return req.p - c; }",
        "function req() {} function a(c, d) { return req.p + c; }",
        "function req() {} function a(c) { return (req).p + c; }",
        "function req() {} function a(c) { return req[\"p\"] + c; }",
    ] {
        assert_eq!(extract_wp4(source), None, "{source}");
    }
}

#[test]
fn extraction_is_repeatable() {
    let source = wp5_runtime(
        r#"
        __webpack_require__.p = "/a/";
        __webpack_require__.u = (c) => ({1: "a", 2: "b"})[c] + ".js";
        "#,
    );
    assert_eq!(extract_wp5(&source), extract_wp5(&source));
    assert!(extract_wp5(&source).is_some());
    assert_eq!(extract_from_source(&source, BundleFormat::Other), None);
}

#[test]
fn a_development_bundle_is_enumerated() {
    let source = r#"
(() => { // webpackBootstrap
    var __webpack_modules__ = ({
        "./src/index.js": ((__unused_webpack_module, exports, __webpack_require__) => {
            __webpack_require__.e(/*! import() */ "src_greet_js")
                .then(__webpack_require__.bind(__webpack_require__, /*! ./greet */ "./src/greet.js"))
                .then((m) => m.greet());
        }),
    });
    var __webpack_module_cache__ = {};
    function __webpack_require__(moduleId) {
        var cachedModule = __webpack_module_cache__[moduleId];
        if (cachedModule !== undefined) { return cachedModule.exports; }
        var module = __webpack_module_cache__[moduleId] = { exports: {} };
        __webpack_modules__[moduleId](module, module.exports, __webpack_require__);
        return module.exports;
    }
    __webpack_require__.m = __webpack_modules__;
    (() => {
        __webpack_require__.d = (exports, definition) => {
            for (var key in definition) {
                if (__webpack_require__.o(definition, key) && !__webpack_require__.o(exports, key)) {
                    Object.defineProperty(exports, key, { enumerable: true, get: definition[key] });
                }
            }
        };
    })();
    (() => {
        __webpack_require__.f = {};
        __webpack_require__.e = (chunkId) => {
            return Promise.all(Object.keys(__webpack_require__.f).reduce((promises, key) => {
                __webpack_require__.f[key](chunkId, promises);
                return promises;
            }, []));
        };
    })();
    (() => {
        __webpack_require__.u = (chunkId) => {
            return "" + chunkId + ".bundle.js";
        };
    })();
    var __webpack_exports__ = __webpack_require__("./src/index.js");
})();
"#;
    let enumeration = extract_wp5(source).expect("enumeration");
    assert_eq!(enumeration.public_path, PublicPathFact::NotFound);
    assert_eq!(
        enumeration.assets[0].status,
        ChunkEnumerationStatus::Enumerated
    );
    assert_eq!(
        enumeration.assets[0].urls,
        vec![url(
            "src_greet_js",
            "src_greet_js.bundle.js",
            ChunkIdSource::EnsureCall
        )]
    );
}

// ---------------------------------------------------------------------------
// Public paths
// ---------------------------------------------------------------------------

fn public_path(prelude: &str) -> PublicPathFact {
    let source = wp5_runtime(&format!(
        "__webpack_require__.u = (c) => c + \".js\";\n{prelude}"
    ));
    extract_wp5(&source).expect("enumeration").public_path
}

#[test]
fn a_public_path_is_assigned_once() {
    assert_eq!(public_path(""), PublicPathFact::NotFound);
    assert_eq!(
        public_path("__webpack_require__.p = (\"/a/\");"),
        PublicPathFact::Static("/a/".to_string())
    );
    assert_eq!(
        public_path("__webpack_require__.p = \"/a/\"; __webpack_require__.p = \"/a/\";"),
        PublicPathFact::RuntimeComputed
    );
    assert_eq!(
        public_path("__webpack_require__.p = \"\\uD800\";"),
        PublicPathFact::RuntimeComputed
    );
    assert_eq!(
        public_path("other.p = \"/a/\"; __webpack_require__.q = \"/b/\";"),
        PublicPathFact::NotFound
    );
    assert_eq!(
        public_path("(__webpack_require__).p = \"/a/\";"),
        PublicPathFact::Static("/a/".to_string())
    );
}

#[test]
fn every_write_of_the_public_path_counts() {
    for write in [
        "__webpack_require__.p = \"/b/\";",
        "(__webpack_require__.p) = \"/b/\";",
        "__webpack_require__.p += \"b/\";",
        "__webpack_require__.p ||= \"b/\";",
        "__webpack_require__.p++;",
        "--(__webpack_require__.p);",
        "[__webpack_require__.p] = x;",
        "[__webpack_require__.p = \"b/\"] = x;",
        "[...__webpack_require__.p] = x;",
        "({ a: __webpack_require__.p } = x);",
        "({ a: [{ b: __webpack_require__.p }] } = x);",
        "({ ...__webpack_require__.p } = x);",
        "for (__webpack_require__.p of x) {}",
        "for (__webpack_require__.p in x) {}",
        "for ([__webpack_require__.p] of x) {}",
        "o[__webpack_require__.p = \"/b/\"] = 1;",
        "(__webpack_require__.p = \"/b/\").q = 1;",
        "o[__webpack_require__.p = \"/b/\"]++;",
        "[o[__webpack_require__.p = \"/b/\"]] = x;",
        "var { a = (__webpack_require__.p = \"/b/\") } = x;",
        "var [a = (__webpack_require__.p = \"/b/\")] = x;",
        "var { [__webpack_require__.p = \"/b/\"]: a } = x;",
        "[a = (__webpack_require__.p = \"/b/\")] = x;",
        "function f(a = (__webpack_require__.p = \"/b/\")) {}",
        "class K { m(a = (__webpack_require__.p = \"/b/\")) {} }",
        "for (var { a = (__webpack_require__.p = \"/b/\") } of x) {}",
        "try {} catch ({ a = (__webpack_require__.p = \"/b/\") }) {}",
    ] {
        let plain = "__webpack_require__.p = \"/a/\";";
        assert_ne!(public_path(write), PublicPathFact::NotFound, "{write}");
        assert_eq!(
            public_path(&format!("{plain} {write}")),
            PublicPathFact::RuntimeComputed,
            "{write}"
        );
        assert_eq!(
            public_path(&format!("{write} {plain}")),
            PublicPathFact::RuntimeComputed,
            "{write}"
        );
    }
}

#[test]
fn a_write_that_is_no_plain_assignment_proves_no_value() {
    for write in [
        "__webpack_require__.p += \"/a/\";",
        "__webpack_require__.p ??= \"/a/\";",
        "__webpack_require__.p++;",
        "[__webpack_require__.p] = [\"/a/\"];",
        "[__webpack_require__.p = \"/a/\"] = [];",
        "({ a: __webpack_require__.p } = x);",
        "for (__webpack_require__.p of x) {}",
    ] {
        assert_eq!(public_path(write), PublicPathFact::RuntimeComputed, "{write}");
    }
    for write in [
        "(__webpack_require__.p) = \"/a/\";",
        "o[__webpack_require__.p = \"/a/\"] = 1;",
        "var [a = (__webpack_require__.p = \"/a/\")] = x;",
    ] {
        assert_eq!(
            public_path(write),
            PublicPathFact::Static("/a/".to_string()),
            "{write}"
        );
    }
    for read in ["x = __webpack_require__.p;", "[a] = __webpack_require__.p;", "p = \"/a/\";"] {
        assert_eq!(public_path(read), PublicPathFact::NotFound, "{read}");
    }
}

#[test]
fn a_written_binding_is_forgotten() {
    for write in [
        "u++;",
        "[u] = x;",
        "[u = 1] = x;",
        "[...u] = x;",
        "({ u } = x);",
        "({ u = 1 } = x);",
        "({ a: u } = x);",
        "(u) = x;",
        "for (u of x) {}",
        "for (u in x) {}",
        "for (var u of x) {}",
        "var { u } = x;",
        "var [u] = x;",
        "u ||= x;",
    ] {
        let prelude = format!(
            "var u = import.meta.url.replace(/\\/[^\\/]+$/, \"/\"); {write}
             __webpack_require__.p = u + \"../\";"
        );
        assert_eq!(public_path(&prelude), PublicPathFact::RuntimeComputed, "{write}");
    }
    for other in ["[v] = x;", "v++;", "var u;", "x[u] = 1;", "for (var v of x) {}", "f(u);"] {
        let prelude = format!(
            "var u = import.meta.url.replace(/\\/[^\\/]+$/, \"/\"); {other}
             __webpack_require__.p = u + \"../\";"
        );
        assert_eq!(
            public_path(&prelude),
            PublicPathFact::ScriptRelative("../".to_string()),
            "{other}"
        );
    }
}

#[test]
fn every_way_to_the_running_script_is_recognized() {
    for source in [
        "import.meta.url",
        "document.currentScript.src",
        "document.getElementsByTagName(\"script\")[0].src",
        "__webpack_require__.g.document.currentScript.src",
        "(\"\" + import.meta.url)",
        "(import.meta.url + \"\")",
        "(x = import.meta.url)",
        "(0, import.meta.url)",
        "(c ? import.meta.url : document.currentScript.src)",
    ] {
        let prelude = format!(
            "__webpack_require__.p = {source}.replace(/\\/[^\\/]+$/, \"/\") + \"../\";"
        );
        assert_eq!(
            public_path(&prelude),
            PublicPathFact::ScriptRelative("../".to_string()),
            "{source}"
        );
    }
}

#[test]
fn nothing_else_leads_to_the_running_script() {
    for source in [
        "location.href",
        "__webpack_require__.g.location",
        "other.g.document.currentScript.src",
        "document.currentScript",
        "document.currentScript.href",
        "document[\"currentScript\"].src",
        "document.getElementsByTagName(\"link\")[0].src",
        "document.getElementsByTagName(\"script\").src",
        "document.getElementsByTagName(\"script\", 1)[0].src",
        "import.meta.src",
        "new.target.url",
        "(import.meta.url, 0)",
        "(c ? import.meta.url : document)",
        "(c ? import.meta.url : other)",
        "(import.meta.url + x)",
        "(x += import.meta.url)",
        "(import.meta.url || x)",
    ] {
        let prelude = format!(
            "function f() {{ __webpack_require__.p = {source}.replace(/\\/[^\\/]+$/, \"/\") + \"../\"; }}"
        );
        assert_eq!(public_path(&prelude), PublicPathFact::RuntimeComputed, "{source}");
    }
}

#[test]
fn a_local_document_is_not_the_global_one() {
    let prelude = r#"
        (function (document) {
            __webpack_require__.p = document.currentScript.src.replace(/\/[^\/]+$/, "/") + "../";
        })(x);
    "#;
    assert_eq!(public_path(prelude), PublicPathFact::RuntimeComputed);
}

#[test]
fn only_the_known_replacements_are_followed() {
    for (replacements, relative) in [
        (".replace(/^blob:/, \"\").replace(/\\/[^\\/]+$/, \"/\")", true),
        (".replace(/#.*$/, \"\").replace(/\\/[^\\/]+$/, \"/\")", true),
        (".replace(/\\?.*$/, \"\").replace(/\\/[^\\/]+$/, \"/\")", true),
        (".replace(/^blob:/, \"x\").replace(/\\/[^\\/]+$/, \"/\")", false),
        (".replace(/x/, \"\").replace(/\\/[^\\/]+$/, \"/\")", false),
        (".replace(/\\/[^\\/]+$/, \"\")", false),
        (".replace(\"x\", \"/\")", false),
        (".replace(/\\/[^\\/]+$/)", false),
        (".replace(/\\/[^\\/]+$/, \"/\", 1)", false),
        (".replaceAll(/\\/[^\\/]+$/, \"/\")", false),
        (".replace(/\\/[^\\/]+$/, \"/\").replace(/\\/[^\\/]+$/, \"/\")", false),
        ("", false),
    ] {
        let prelude = format!("__webpack_require__.p = import.meta.url{replacements} + \"../\";");
        let expected = if relative {
            PublicPathFact::ScriptRelative("../".to_string())
        } else {
            PublicPathFact::RuntimeComputed
        };
        assert_eq!(public_path(&prelude), expected, "{replacements}");
    }
}

#[test]
fn the_location_counts_only_behind_the_worker_guard() {
    let trim = ".replace(/\\/[^\\/]+$/, \"/\")";
    let guarded = format!(
        "var u; __webpack_require__.g.importScripts && (u = __webpack_require__.g.location + \"\");
         __webpack_require__.p = u{trim} + \"../\";"
    );
    assert_eq!(
        public_path(&guarded),
        PublicPathFact::ScriptRelative("../".to_string())
    );
    for guard in [
        "__webpack_require__.g.importScripts ||",
        "importScripts &&",
        "__webpack_require__.g.other &&",
        "",
    ] {
        let unguarded = format!(
            "var u; {guard} (u = __webpack_require__.g.location + \"\");
             __webpack_require__.p = u{trim} + \"../\";"
        );
        assert_eq!(public_path(&unguarded), PublicPathFact::RuntimeComputed);
    }
    let after = format!(
        "var u; __webpack_require__.g.importScripts && 0; u = __webpack_require__.g.location + \"\";
         __webpack_require__.p = u{trim} + \"../\";"
    );
    assert_eq!(public_path(&after), PublicPathFact::RuntimeComputed);
}

#[test]
fn a_reassigned_binding_loses_its_value() {
    let prelude = r#"
        var u = import.meta.url.replace(/\/[^\/]+$/, "/");
        u = other;
        __webpack_require__.p = u + "../";
    "#;
    assert_eq!(public_path(prelude), PublicPathFact::RuntimeComputed);
    let compound = r#"
        var u = import.meta.url.replace(/\/[^\/]+$/, "/");
        u += "x";
        __webpack_require__.p = u + "../";
    "#;
    assert_eq!(public_path(compound), PublicPathFact::RuntimeComputed);
    let unrelated = r#"
        var u = import.meta.url.replace(/\/[^\/]+$/, "/");
        var v = other;
        v = 1;
        __webpack_require__.p = u + "../";
    "#;
    assert_eq!(
        public_path(unrelated),
        PublicPathFact::ScriptRelative("../".to_string())
    );
}

#[test]
fn the_suffix_leads_from_the_directory_to_a_directory() {
    for (suffix, relative) in [
        ("../", true),
        ("./", true),
        ("a/b/", true),
        ("", false),
        ("a", false),
        ("/", false),
        ("/a/", false),
        ("//host/", false),
        ("https://host/", false),
    ] {
        let prelude = format!(
            "__webpack_require__.p = import.meta.url.replace(/\\/[^\\/]+$/, \"/\") + \"{suffix}\";"
        );
        let expected = if relative {
            PublicPathFact::ScriptRelative(suffix.to_string())
        } else {
            PublicPathFact::RuntimeComputed
        };
        assert_eq!(public_path(&prelude), expected, "{suffix}");
    }
}

#[test]
fn wp4_public_path_is_that_of_the_anchor() {
    let source = r#"
        function req(id) { return id; }
        function a(c) { return req.p + c + ".js"; }
        other.p = "/other/";
        req.p = import.meta.url.replace(/\/[^\/]+$/, "/") + "x/";
    "#;
    let enumeration = extract_wp4(source).expect("enumeration");
    assert_eq!(
        enumeration.public_path,
        PublicPathFact::ScriptRelative("x/".to_string())
    );
    assert_eq!(
        enumeration.assets[0].status,
        ChunkEnumerationStatus::NoStaticChunkIds
    );
}

// ---------------------------------------------------------------------------
// Relative imports
// ---------------------------------------------------------------------------

fn relative_imports(source: &str) -> Vec<(String, RelativeImportKind)> {
    with_module(source, |module, _| {
        collect_relative_import_specifiers(module)
            .into_iter()
            .map(|import| (import.specifier, import.kind))
            .collect()
    })
}

#[test]
fn imports_stand_in_source_order() {
    let source = r#"
        f(() => import("./b.js"), import("./a.js"));
        export * from "./b.js";
        import "./a.js";
        export { x } from "../c.js";
        export * from "./b.js";
        export default function () { return import("./d.js"); }
        class K { static m = import("./a.js"); }
        export { f };
    "#;
    assert_eq!(
        relative_imports(source),
        vec![
            ("./b.js".to_string(), RelativeImportKind::DynamicImport),
            ("./a.js".to_string(), RelativeImportKind::DynamicImport),
            ("./b.js".to_string(), RelativeImportKind::ExportFrom),
            ("./a.js".to_string(), RelativeImportKind::Import),
            ("../c.js".to_string(), RelativeImportKind::ExportFrom),
            ("./d.js".to_string(), RelativeImportKind::DynamicImport),
        ]
    );
    let lazy_first = r#"
        const load = () => import("./lazy.js");
        import { a } from "./a.js";
        console.log(a, load);
    "#;
    assert_eq!(
        relative_imports(lazy_first),
        vec![
            ("./lazy.js".to_string(), RelativeImportKind::DynamicImport),
            ("./a.js".to_string(), RelativeImportKind::Import),
        ]
    );
    let inside = r#"
        class K extends f(import("./1.js")) { m(a = import("./2.js")) { import("./3.js"); } }
        do { import("./4.js"); } while (import("./5.js"));
        for (x[import("./6.js")] of import("./7.js")) { import("./8.js"); }
        ({ [import("./9.js")]: y = import("./10.js") } = import("./11.js"));
    "#;
    let expected: Vec<(String, RelativeImportKind)> = (1..=11)
        .map(|n| (format!("./{n}.js"), RelativeImportKind::DynamicImport))
        .collect();
    assert_eq!(relative_imports(inside), expected);
}

#[test]
fn only_a_single_string_literal_is_a_specifier() {
    let source = r#"
        import(`./a.js`);
        import("./" + b);
        import(("./c.js"));
        import("./\uD800.js");
        import(d);
        load("./e.js");
    "#;
    assert_eq!(
        relative_imports(source),
        vec![("./c.js".to_string(), RelativeImportKind::DynamicImport)]
    );
}

#[test]
fn a_webpack_bundle_keeps_its_relative_imports() {
    let source = wp5_runtime(
        r#"
        __webpack_require__.p = "/a/";
        __webpack_require__.u = (c) => ({1: "a"})[c] + ".js";
        import("./native.js");
        "#,
    );
    let webpack = extract_wp5(&source).expect("enumeration");
    assert!(webpack.relative_imports.is_empty());
    let imports = with_module(&source, |module, _| collect_relative_import_specifiers(module));
    let merged = merge(Some(webpack.clone()), imports).expect("enumeration");
    assert_eq!(merged.public_path, webpack.public_path);
    assert_eq!(merged.assets, webpack.assets);
    assert_eq!(merged.relative_imports.len(), 1);
    assert_eq!(merged.relative_imports[0].specifier, "./native.js");
}
