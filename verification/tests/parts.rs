//! The parts of the enumeration, on values written by hand.

use chunk_enumeration::assets::{dynamic_asset, enumerate_asset, render_template, render_url};
use chunk_enumeration::ast::{
    is_empty_string, member_prop_is, regex_and_string_arguments, single_string_argument,
    string_literal, strip_parens, ArrowExpr, ArrowFunctionBody, BinExpr, BinaryOp, CallExpr, Callee,
    Expr, ExprOrSpread, Id, Ident, KeyValueProp, Lit, Mark, MemberExpr, MemberProp, Module,
    ModuleItem, Node, Param, Pat, Prop, PropName, Stmt,
};
use chunk_enumeration::facts::{
    merge, ChunkAssetKind, ChunkEnumeration, ChunkEnumerationStatus, ChunkIdSource, PublicPathFact,
    RelativeImport, RelativeImportKind,
};
use chunk_enumeration::imports::{
    collect_relative_import_specifiers, is_relative_specifier, SpecifierCollector,
};
use chunk_enumeration::number::{decimal_string, integer_of, integer_string};
use chunk_enumeration::prototype::{names_inherited, reaches_prototype, spells_prototype};
use chunk_enumeration::runtime_properties::is_webpack_runtime_property;
use chunk_enumeration::script_path::{valid_script_relative_suffix, ScriptPathTrace};
use chunk_enumeration::surface::{bound_runtime_id, ensure_call_literal_id, RuntimeSurface};
use chunk_enumeration::template::{
    counts_as_false, is_surely_text, join, map_lookup_entries, object_literal_entries,
    parse_filename_fn, parse_segments, same_segments, sums_concatenate, ChunkTable, Segment,
};
use chunk_enumeration::text::{begins_with, contains_text, text_eq, text_precedes};
use chunk_enumeration::walk::{walk_module, Site};
use chunk_enumeration::webpack::{extract_chunk_enumeration, BundleFormat};

fn name(sym: &str) -> Ident {
    Ident { sym: sym.to_string(), ctxt: 2, outer: Mark(2) }
}

fn ident(sym: &str) -> Expr {
    Expr::Ident(name(sym))
}

fn id(sym: &str) -> Id {
    Id { sym: sym.to_string(), ctxt: 2 }
}

fn text(value: &str) -> Expr {
    Expr::Lit(Lit::Str(Some(value.to_string())))
}

fn number(value: f64) -> Expr {
    Expr::Lit(Lit::Num(value.to_bits()))
}

fn plus(left: Expr, right: Expr) -> Expr {
    Expr::Bin(BinExpr { op: BinaryOp::Add, left: Box::new(left), right: Box::new(right) })
}

fn paren(inner: Expr) -> Expr {
    Expr::Paren(Box::new(inner))
}

fn member(obj: Expr, prop: &str) -> Expr {
    Expr::Member(MemberExpr { obj: Box::new(obj), prop: MemberProp::Ident(prop.to_string()) })
}

fn lookup(obj: Expr, key: Expr) -> Expr {
    Expr::Member(MemberExpr { obj: Box::new(obj), prop: MemberProp::Computed(Box::new(key)) })
}

fn argument(expr: Expr) -> ExprOrSpread {
    ExprOrSpread { spread: false, expr }
}

fn call(callee: Expr, args: Vec<Expr>) -> CallExpr {
    CallExpr {
        callee: Callee::Expr(Box::new(callee)),
        args: args.into_iter().map(argument).collect(),
    }
}

fn entry(key: &str, value: Expr) -> Prop {
    Prop::KeyValue(KeyValueProp { key: PropName::Str(Some(key.to_string())), value })
}

fn table(entries: &[(&str, &str)]) -> ChunkTable {
    let mut table = ChunkTable::new();
    for (key, value) in entries {
        table.insert(key.to_string(), value.to_string());
    }
    table
}

fn literal(value: &str) -> Segment {
    Segment::Lit(value.to_string())
}

fn strict(entries: &[(&str, &str)]) -> Segment {
    Segment::Table { entries: table(entries), fallback: false }
}

fn with_fallback(entries: &[(&str, &str)]) -> Segment {
    Segment::Table { entries: table(entries), fallback: true }
}

fn strings(values: &[&str]) -> Vec<String> {
    values.iter().map(|value| value.to_string()).collect()
}

fn import(specifier: &str, kind: RelativeImportKind) -> RelativeImport {
    RelativeImport { specifier: specifier.to_string(), kind }
}

// ---------------------------------------------------------------------------
// Texts and numbers
// ---------------------------------------------------------------------------

#[test]
fn texts_are_told_apart() {
    assert!(text_eq("", ""));
    assert!(text_eq("\u{e9}a", "\u{e9}a"));
    assert!(!text_eq("a", "ab"));
    assert!(!text_eq("a", "b"));
    assert!(begins_with("./a", "./"));
    assert!(begins_with("a", ""));
    assert!(!begins_with(".", "./"));
    assert!(contains_text("a://b", "://"));
    assert!(!contains_text("a:/b/", "://"));
    assert!(contains_text("", ""));
}

#[test]
fn texts_are_ordered_by_their_characters() {
    assert!(text_precedes("", "a"));
    assert!(text_precedes("1", "10"));
    assert!(text_precedes("10", "9"));
    assert!(text_precedes("Z", "a"));
    assert!(text_precedes("\u{ffff}", "\u{10000}"));
    assert!(!text_precedes("a", "a"));
    assert!(!text_precedes("b", "a"));
    for (a, b) in [("a", "b"), ("ab", "a"), ("\u{e9}", "e"), ("\u{1F600}", "\u{ffff}")] {
        assert_eq!(text_precedes(a, b), a < b);
        assert_eq!(text_precedes(b, a), b < a);
    }
}

#[test]
fn integers_have_a_canonical_text() {
    for (value, expected) in [
        (0.0, "0"),
        (-0.0, "0"),
        (1.0, "1"),
        (9.0, "9"),
        (10.0, "10"),
        (101.0, "101"),
        (4294967296.0, "4294967296"),
        (9007199254740991.0, "9007199254740991"),
        (9007199254740992.0, "9007199254740992"),
    ] {
        let value: f64 = value;
        assert_eq!(integer_string(value.to_bits()).as_deref(), Some(expected));
    }
}

#[test]
fn other_numbers_have_no_text() {
    for value in [
        0.5,
        -1.0,
        1.5,
        4503599627370495.5,
        9007199254740994.0,
        1e21,
        f64::MAX,
        f64::MIN_POSITIVE,
        5e-324,
        f64::NAN,
        f64::INFINITY,
        f64::NEG_INFINITY,
    ] {
        assert_eq!(integer_string(value.to_bits()), None);
    }
}

#[test]
fn integers_are_read_from_the_bits() {
    let mut value: f64 = 1.0;
    while value <= 9007199254740992.0 {
        assert_eq!(integer_of(value.to_bits()), Some(value as u64));
        assert_eq!(integer_of((value - 1.0).to_bits()), Some(value as u64 - 1));
        value *= 2.0;
    }
    assert_eq!(decimal_string(0), "0");
    assert_eq!(decimal_string(18446744073709551615), "18446744073709551615");
}

// ---------------------------------------------------------------------------
// Expressions
// ---------------------------------------------------------------------------

#[test]
fn parentheses_are_looked_through() {
    let expr = paren(paren(text("a")));
    assert!(matches!(strip_parens(&expr), Expr::Lit(Lit::Str(Some(_)))));
    assert_eq!(string_literal(&expr), Some("a"));
    assert_eq!(string_literal(&number(1.0)), None);
    assert!(is_empty_string(&paren(text(""))));
    assert!(!is_empty_string(&text(" ")));
    assert!(!is_empty_string(&Expr::Lit(Lit::Str(None))));
    assert!(member_prop_is(&MemberProp::Ident("p".to_string()), "p"));
    assert!(!member_prop_is(&MemberProp::Ident("p".to_string()), "q"));
    assert!(!member_prop_is(&MemberProp::Computed(Box::new(text("p"))), "p"));
    assert!(!member_prop_is(&MemberProp::Private, "p"));
}

#[test]
fn arguments_are_read_by_their_number_and_kind() {
    let one = call(ident("f"), vec![paren(text("a"))]);
    assert_eq!(single_string_argument(&one), Some("a"));
    let two = call(ident("f"), vec![text("a"), text("b")]);
    assert_eq!(single_string_argument(&two), None);
    let mut spread = call(ident("f"), vec![text("a")]);
    spread.args[0].spread = true;
    assert_eq!(single_string_argument(&spread), None);
    let regex = Expr::Lit(Lit::Regex("x".to_string()));
    let both = call(ident("f"), vec![paren(regex), text("b")]);
    assert_eq!(regex_and_string_arguments(&both), Some(("x", "b")));
    assert_eq!(regex_and_string_arguments(&two), None);
    assert_eq!(regex_and_string_arguments(&one), None);
}

// ---------------------------------------------------------------------------
// Templates
// ---------------------------------------------------------------------------

#[test]
fn tables_keep_the_last_entry() {
    let table = table(&[("1", "a"), ("2", "b"), ("1", "c")]);
    assert_eq!(table.get(&"1".to_string()).map(|value| value.as_str()), Some("c"));
    assert_eq!(table.get(&"2".to_string()).map(|value| value.as_str()), Some("b"));
    assert_eq!(table.get(&"3".to_string()), None);
}

#[test]
fn templates_are_told_apart_by_their_mappings() {
    let a = vec![literal("x"), strict(&[("1", "a"), ("2", "b")])];
    let b = vec![literal("x"), strict(&[("2", "b"), ("1", "old"), ("1", "a")])];
    let c = vec![literal("x"), strict(&[("1", "a")])];
    let d = vec![literal("x"), with_fallback(&[("1", "a"), ("2", "b")])];
    assert!(same_segments(&a, &b));
    assert!(!same_segments(&a, &c));
    assert!(!same_segments(&c, &a));
    assert!(!same_segments(&a, &d));
    assert!(!same_segments(&a, &vec![literal("x")]));
    assert!(!same_segments(&vec![literal("x")], &vec![Segment::ChunkId]));
}

#[test]
fn joining_with_a_dynamic_part_is_dynamic() {
    assert!(join(None, Some(vec![])).is_none());
    assert!(join(Some(vec![]), None).is_none());
    let whole = join(Some(vec![literal("a")]), Some(vec![Segment::ChunkId])).expect("literal");
    assert!(same_segments(&whole, &vec![literal("a"), Segment::ChunkId]));
}

#[test]
fn a_parameter_is_known_by_its_binding() {
    let param = id("c");
    let segments = parse_segments(&ident("c"), &param).expect("literal");
    assert!(same_segments(&segments, &vec![Segment::ChunkId]));
    let other = Expr::Ident(Ident { sym: "c".to_string(), ctxt: 3, outer: Mark(3) });
    assert!(parse_segments(&other, &param).is_none());
    assert!(parse_segments(&ident("d"), &param).is_none());
    assert!(parse_segments(&Expr::Lit(Lit::Str(None)), &param).is_none());
}

#[test]
fn lookups_are_keyed_by_the_parameter() {
    let entries = || Expr::Object(vec![entry("1", text("a")), entry("2", number(7.0))]);
    let found = map_lookup_entries(&lookup(paren(entries()), paren(ident("c"))), &id("c"), false)
        .expect("a table");
    assert!(found.same(&table(&[("1", "a"), ("2", "7")])));
    assert!(map_lookup_entries(&lookup(entries(), ident("d")), &id("c"), false).is_none());
    assert!(map_lookup_entries(&member(entries(), "c"), &id("c"), false).is_none());
    assert!(map_lookup_entries(&lookup(ident("t"), ident("c")), &id("c"), false).is_none());
    assert!(object_literal_entries(&vec![Prop::Other(vec![])], false).is_none());
    assert!(object_literal_entries(&vec![entry("1", number(0.5))], true).is_none());
    assert!(object_literal_entries(&vec![entry("1", ident("x"))], true).is_none());
    let falsy = || vec![entry("1", text("")), entry("2", number(-0.0)), entry("3", text("0"))];
    let strict = object_literal_entries(&falsy(), false).expect("a table");
    assert!(strict.same(&table(&[("1", ""), ("2", "0"), ("3", "0")])));
    let fallback = object_literal_entries(&falsy(), true).expect("a table");
    assert!(fallback.same(&table(&[("1", "1"), ("2", "2"), ("3", "0")])));
    assert!(counts_as_false(&paren(text(""))));
    assert!(!counts_as_false(&number(1.0)));
    assert!(!counts_as_false(&ident("x")));
}

#[test]
fn a_sum_concatenates_where_an_operand_is_surely_a_text() {
    let c = || ident("c");
    let numbers = || lookup(Expr::Object(vec![entry("1", number(7.0))]), ident("c"));
    let texts = || lookup(Expr::Object(vec![entry("1", text("a"))]), ident("c"));
    let surely = |expr: Expr| is_surely_text(&expr, &id("c"));
    assert!(surely(text("")));
    assert!(surely(paren(texts())));
    assert!(surely(plus(c(), text("a"))));
    assert!(surely(member(ident("x"), "p")));
    assert!(!surely(member(ident("x"), "q")));
    assert!(!surely(c()));
    assert!(!surely(numbers()));
    assert!(!surely(number(1.0)));
    assert!(!surely(lookup(Expr::Object(vec![Prop::Other(vec![])]), ident("c"))));
    assert!(!surely(lookup(Expr::Object(vec![entry("1", text("a"))]), ident("d"))));
    let concatenates = |expr: Expr| sums_concatenate(&expr, &id("c"));
    assert!(concatenates(numbers()));
    assert!(concatenates(plus(c(), texts())));
    assert!(concatenates(plus(plus(text("a"), c()), numbers())));
    assert!(!concatenates(plus(c(), numbers())));
    assert!(!concatenates(plus(text("a"), plus(c(), numbers()))));
    assert!(!concatenates(paren(plus(plus(numbers(), numbers()), text("a")))));
    let segments = parse_segments(&plus(numbers(), numbers()), &id("c")).expect("segments");
    assert!(same_segments(&segments, &vec![strict(&[("1", "7")]), strict(&[("1", "7")])]));
}

#[test]
fn tables_inherit_what_every_object_has() {
    for name in ["constructor", "hasOwnProperty", "valueOf", "__lookupSetter__", "__proto__"] {
        assert!(names_inherited(name), "{name}");
    }
    for name in ["", "Constructor", "prototype", "1", "__proto_"] {
        assert!(!names_inherited(name), "{name}");
    }
    let segments = vec![literal("constructor"), strict(&[("valueOf", "a"), ("1", "b")])];
    assert!(reaches_prototype(&segments, &"constructor".to_string()));
    assert!(!reaches_prototype(&segments, &"valueOf".to_string()));
    assert!(!reaches_prototype(&segments, &"2".to_string()));
    assert!(!reaches_prototype(&vec![Segment::ChunkId], &"constructor".to_string()));
    assert!(!spells_prototype(&segments));
    assert!(spells_prototype(&vec![Segment::ChunkId, with_fallback(&[("__proto__", "a")])]));
    assert!(!spells_prototype(&vec![literal("__proto__")]));
}

#[test]
fn a_filename_function_is_split_and_read() {
    let arrow = |body| {
        Expr::Arrow(ArrowExpr {
            params: vec![Param { decorators: vec![], pat: Pat::Ident(name("c")) }],
            body,
            is_async: false,
            is_generator: false,
        })
    };
    let body = plus(ident("c"), text(".js"));
    let segments = parse_filename_fn(&paren(arrow(ArrowFunctionBody::Expr(Box::new(paren(body))))))
        .expect("literal");
    assert!(same_segments(&segments, &vec![Segment::ChunkId, literal(".js")]));
    let block = vec![Stmt::Return(Some(Box::new(text("a"))))];
    let segments = parse_filename_fn(&arrow(ArrowFunctionBody::FunctionBody(block)))
        .expect("literal");
    assert!(same_segments(&segments, &vec![literal("a")]));
    let empty = arrow(ArrowFunctionBody::FunctionBody(vec![Stmt::Return(None)]));
    assert!(parse_filename_fn(&empty).is_none());
    assert!(parse_filename_fn(&ident("f")).is_none());
}

#[test]
fn templates_render_with_placeholders() {
    let segments = [
        literal("a/"),
        Segment::ChunkId,
        literal("."),
        strict(&[("1", "x")]),
        with_fallback(&[]),
    ];
    assert_eq!(render_template(&segments), "a/[id].[map][map|id]");
    assert_eq!(render_template(&[]), "");
}

#[test]
fn urls_render_per_id() {
    let segments = [
        literal("a/"),
        with_fallback(&[("1", "one")]),
        literal("."),
        strict(&[("1", "x"), ("2", "y")]),
    ];
    assert_eq!(render_url(&segments, &"1".to_string()).as_deref(), Some("a/one.x"));
    assert_eq!(render_url(&segments, &"2".to_string()).as_deref(), Some("a/2.y"));
    assert_eq!(render_url(&segments, &"3".to_string()), None);
    let whole = render_url(&segments, &"1".to_string()).expect("a URL");
    let first = render_url(&segments[..2], &"1".to_string()).expect("a URL");
    let second = render_url(&segments[2..], &"1".to_string()).expect("a URL");
    assert_eq!(whole, first + &second);
}

// ---------------------------------------------------------------------------
// Assets
// ---------------------------------------------------------------------------

#[test]
fn assets_list_their_ids_in_order_and_once() {
    let segments = vec![with_fallback(&[("b", "x"), ("a", "y"), ("b", "z")]), literal(".js")];
    let extra = strings(&["9", "10", "a", "\u{10000}", "\u{ffff}", "9"]);
    let asset = enumerate_asset(ChunkAssetKind::Js, segments, &extra);
    assert_eq!(asset.status, ChunkEnumerationStatus::Enumerated);
    assert_eq!(asset.template.as_deref(), Some("[map|id].js"));
    let listed: Vec<(&str, &str, ChunkIdSource)> = asset
        .urls
        .iter()
        .map(|url| (url.chunk_id.as_str(), url.url.as_str(), url.source))
        .collect();
    assert_eq!(
        listed,
        vec![
            ("10", "10.js", ChunkIdSource::EnsureCall),
            ("9", "9.js", ChunkIdSource::EnsureCall),
            ("a", "y.js", ChunkIdSource::FilenameMap),
            ("b", "z.js", ChunkIdSource::FilenameMap),
            ("\u{ffff}", "\u{ffff}.js", ChunkIdSource::EnsureCall),
            ("\u{10000}", "\u{10000}.js", ChunkIdSource::EnsureCall),
        ]
    );
}

#[test]
fn assets_without_ids_have_no_urls() {
    let asset = enumerate_asset(ChunkAssetKind::Css, vec![Segment::ChunkId], &vec![]);
    assert_eq!(asset.kind, ChunkAssetKind::Css);
    assert_eq!(asset.status, ChunkEnumerationStatus::NoStaticChunkIds);
    assert_eq!(asset.template.as_deref(), Some("[id]"));
    assert!(asset.urls.is_empty());
}

#[test]
fn assets_drop_ids_without_a_url() {
    let segments = vec![Segment::ChunkId, strict(&[("1", "x")])];
    let asset = enumerate_asset(ChunkAssetKind::Js, segments, &strings(&["2"]));
    assert_eq!(asset.status, ChunkEnumerationStatus::Enumerated);
    assert_eq!(asset.urls.len(), 1);
    assert_eq!(asset.urls[0].url, "1x");
}

#[test]
fn dynamic_assets_are_empty() {
    for kind in [ChunkAssetKind::Js, ChunkAssetKind::Css] {
        let asset = dynamic_asset(kind);
        assert_eq!(asset.kind, kind);
        assert_eq!(asset.status, ChunkEnumerationStatus::DynamicTemplate);
        assert_eq!(asset.template, None);
        assert!(asset.urls.is_empty());
    }
}

// ---------------------------------------------------------------------------
// Public paths
// ---------------------------------------------------------------------------

#[test]
fn suffixes_lead_to_a_directory() {
    for suffix in ["a/", "../../", "./", "a/b/"] {
        assert!(valid_script_relative_suffix(suffix));
    }
    for suffix in ["", "a", "/", "/a/", "//a/", "a://b/", "://a/"] {
        assert!(!valid_script_relative_suffix(suffix));
    }
}

#[test]
fn a_module_without_a_public_path_has_none() {
    let module = Module { body: vec![] };
    assert_eq!(
        ScriptPathTrace::collect(&module, id("r"), Mark(1)),
        PublicPathFact::NotFound
    );
}

#[test]
fn runtime_properties_are_those_of_webpack() {
    for property in ["e", "o", "d", "m", "p", "g", "f", "l", "miniCss"] {
        assert_eq!(is_webpack_runtime_property(property), property != "miniCss");
    }
    assert!(!is_webpack_runtime_property(""));
    assert!(!is_webpack_runtime_property("prototype"));
}

// ---------------------------------------------------------------------------
// Surfaces
// ---------------------------------------------------------------------------

#[test]
fn load_calls_are_matched() {
    let load = Expr::Call(call(member(ident("r"), "e"), vec![number(7.0)]));
    let (runtime, chunk) = ensure_call_literal_id(&load).expect("a load");
    assert!(runtime.same(&id("r")));
    assert_eq!(chunk, "7");
    assert!(ensure_call_literal_id(&paren(load)).is_none());
    let other = Expr::Call(call(member(ident("r"), "f"), vec![number(7.0)]));
    assert!(ensure_call_literal_id(&other).is_none());
    let fraction = Expr::Call(call(member(ident("r"), "e"), vec![number(7.5)]));
    assert!(ensure_call_literal_id(&fraction).is_none());
}

#[test]
fn continuations_are_matched() {
    let bind = |obj, this| Expr::Call(call(member(obj, "bind"), vec![this, number(1.0)]));
    let runtime = bound_runtime_id(&bind(ident("r"), ident("r"))).expect("a continuation");
    assert!(runtime.same(&id("r")));
    assert!(bound_runtime_id(&bind(member(ident("r"), "t"), Expr::Lit(Lit::Null))).is_some());
    assert!(bound_runtime_id(&bind(member(ident("r"), "n"), Expr::Lit(Lit::Null))).is_none());
    assert!(bound_runtime_id(&bind(ident("r"), ident("s"))).is_none());
    assert!(bound_runtime_id(&ident("r")).is_none());
}

#[test]
fn a_surface_holds_what_the_module_says() {
    let load = Expr::Call(call(member(ident("r"), "e"), vec![text("a")]));
    let bind = Expr::Call(call(member(ident("r"), "bind"), vec![Expr::Lit(Lit::Null)]));
    let chain = Expr::Call(call(member(load, "then"), vec![bind]));
    let module = Module { body: vec![ModuleItem::Other(vec![Node::Expr(chain)])] };
    let surface = RuntimeSurface::collect(&module, Mark(1));
    assert_eq!(surface.ensure_ids, strings(&["a"]));
    assert!(surface.function_names.is_empty());
    assert!(surface.jsonp_script_src_fns.is_empty());
    assert!(surface.u_assignments.is_empty());
    let sites = walk_module(&module);
    assert_eq!(sites.len(), 3);
    assert!(sites.iter().all(|site| matches!(site, Site::Call(_))));
    for format in [
        BundleFormat::Webpack5,
        BundleFormat::Webpack4,
        BundleFormat::Browserify,
        BundleFormat::Other,
    ] {
        assert_eq!(extract_chunk_enumeration(&module, format, Mark(1)), None);
    }
}

// ---------------------------------------------------------------------------
// Relative imports
// ---------------------------------------------------------------------------

#[test]
fn relative_specifiers_begin_with_dots_and_a_slash() {
    for specifier in ["./", "./a.js", "../a.js", "../../a.js"] {
        assert!(is_relative_specifier(specifier));
    }
    for specifier in ["", ".", "..", "a", ".a/b", "...", "/a", "//a", "https://a/b"] {
        assert!(!is_relative_specifier(specifier));
    }
}

#[test]
fn a_collector_records_each_import_once() {
    let mut collector = SpecifierCollector::new();
    collector.record(None, RelativeImportKind::Import);
    collector.record(Some("react"), RelativeImportKind::Import);
    collector.record(Some("./b"), RelativeImportKind::Import);
    collector.record(Some("./a"), RelativeImportKind::Import);
    collector.record(Some("./b"), RelativeImportKind::Import);
    collector.record(Some("./b"), RelativeImportKind::DynamicImport);
    assert_eq!(
        collector.into_imports(),
        vec![
            import("./b", RelativeImportKind::Import),
            import("./a", RelativeImportKind::Import),
            import("./b", RelativeImportKind::DynamicImport),
        ]
    );
}

#[test]
fn only_declarations_with_a_literal_source_are_collected() {
    let source = |value: &str| Some(value.to_string());
    let module = Module {
        body: vec![
            ModuleItem::ExportNamed(None, vec![]),
            ModuleItem::ExportNamed(Some(None), vec![]),
            ModuleItem::ExportNamed(Some(source("./a")), vec![]),
            ModuleItem::Import(None, vec![]),
            ModuleItem::Import(source("./b"), vec![]),
            ModuleItem::ExportAll(source("x"), vec![]),
            ModuleItem::ExportAll(source("../c"), vec![]),
        ],
    };
    assert_eq!(
        collect_relative_import_specifiers(&module),
        vec![
            import("./a", RelativeImportKind::ExportFrom),
            import("./b", RelativeImportKind::Import),
            import("../c", RelativeImportKind::ExportFrom),
        ]
    );
}

// ---------------------------------------------------------------------------
// Merging
// ---------------------------------------------------------------------------

#[test]
fn merging_keeps_both_sources() {
    let webpack = || ChunkEnumeration {
        public_path: PublicPathFact::Static("/a/".to_string()),
        assets: vec![dynamic_asset(ChunkAssetKind::Js)],
        relative_imports: vec![import("./old", RelativeImportKind::Import)],
    };
    let imports = || vec![import("./new", RelativeImportKind::Import)];
    assert_eq!(merge(None, vec![]), None);
    let only_imports = merge(None, imports()).expect("an enumeration");
    assert_eq!(only_imports.public_path, PublicPathFact::NotFound);
    assert!(only_imports.assets.is_empty());
    assert_eq!(only_imports.relative_imports, imports());
    let both = merge(Some(webpack()), imports()).expect("an enumeration");
    assert_eq!(both.public_path, webpack().public_path);
    assert_eq!(both.assets, webpack().assets);
    assert_eq!(both.relative_imports, imports());
    let only_webpack = merge(Some(webpack()), vec![]).expect("an enumeration");
    assert_eq!(only_webpack.assets, webpack().assets);
    assert!(only_webpack.relative_imports.is_empty());
}
