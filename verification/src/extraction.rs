//! What is extracted from a bundle.
//!
//! The laws say, in terms of the sites of a module, which object is its
//! runtime, which assets it has, and which chunks of them get a URL.

use vstd::prelude::*;

use crate::assets::{has_chunk_ids, is_chunk_id, is_table_id, rendered_url, template_text};
use crate::ast::{Binding, Expr, Mark, Module};
use crate::counts::site_node;
use crate::facts::{
    ChunkAssetKind, ChunkAssetView, ChunkEnumerationStatus, ChunkEnumerationView, ChunkIdSource,
    ChunkUrlView,
};
use crate::parts::{law_every_site_stands_in_the_module, leads_to, own_sites, Part};
use crate::prototype::inherits;
use crate::reading::{is_load_of, law_only_load_sites_load};
use crate::recognition::{
    binds_function, function_of, is_assigned, is_function, is_plain_site, law_function_names,
    law_script_source_functions, law_value_written_once, lemma_no_writes, lemma_property_written_at,
    lemma_runtime_property, lemma_script_srcs, value_left, writes_property,
};
use crate::runtime_properties::is_runtime_property;
use crate::script_path::module_public_path;
use crate::surface::{
    anchored, has_runtime_property, loaded_chunks, loaded_ids, script_src_at, values_written,
    ScriptSrcView,
};
use crate::template::{arrow_shape, filename_template, function_shape, proven_template, SegmentView};
use crate::walk::{module_sites, Site};
use crate::webpack::{
    has_runtime, is_filename_asset, is_known_function, is_script_src_candidate,
    is_webpack4_enumeration, is_webpack4_script_src, is_webpack5_enumeration, is_webpack5_runtime,
    BundleFormat,
};

verus! {

// ---------------------------------------------------------------------------
// Assets
// ---------------------------------------------------------------------------

/// The segment is a lookup table with an entry for the id.
pub open spec fn has_entry(segment: SegmentView, id: Seq<char>) -> bool {
    match segment {
        SegmentView::Table { entries, .. } => entries.contains_key(id),
        _ => false,
    }
}

/// Some lookup table of the template has an entry for the id.
pub open spec fn is_entry(segments: Seq<SegmentView>, id: Seq<char>) -> bool {
    exists|k: int| 0 <= k < segments.len() && has_entry(#[trigger] segments[k], id)
}

/// A lookup table of the template or another source proves the id.
pub open spec fn is_proven(
    segments: Seq<SegmentView>,
    extra_ids: Set<Seq<char>>,
    id: Seq<char>,
) -> bool {
    is_entry(segments, id) || extra_ids.contains(id)
}

proof fn lemma_is_entry(segments: Seq<SegmentView>, id: Seq<char>)
    ensures
        is_table_id(segments, id) <==> is_entry(segments, id),
{
    if is_entry(segments, id) {
        let k = choose|k: int| 0 <= k < segments.len() && has_entry(#[trigger] segments[k], id);
        assert(segments[k] is Table);
    }
    if is_table_id(segments, id) {
        let k = choose|k: int|
            0 <= k < segments.len() && match #[trigger] segments[k] {
                SegmentView::Table { entries, .. } => entries.contains_key(id),
                _ => false,
            };
        assert(has_entry(segments[k], id));
    }
}

/// Every chunk id that a lookup table of the template or another source proves
/// has its URL, if the template renders one for it without reaching what its
/// tables inherit.
pub proof fn law_every_proven_chunk_has_its_url(
    asset: ChunkAssetView,
    kind: ChunkAssetKind,
    segments: Seq<SegmentView>,
    extra_ids: Set<Seq<char>>,
    id: Seq<char>,
    url: Seq<char>,
)
    requires
        is_filename_asset(asset, kind, Some(segments), extra_ids),
        is_proven(segments, extra_ids, id),
        rendered_url(segments, id) == Some(url),
        !inherits(segments, id),
    ensures
        asset.urls.contains(
            ChunkUrlView {
                chunk_id: id,
                url,
                source: if is_entry(segments, id) {
                    ChunkIdSource::FilenameMap
                } else {
                    ChunkIdSource::EnsureCall
                },
            },
        ),
{
    lemma_is_entry(segments, id);
    assert(is_chunk_id(segments, extra_ids, id));
    let i = choose|i: int| 0 <= i < asset.urls.len() && (#[trigger] asset.urls[i]).chunk_id == id;
    assert(asset.urls[i].url == url);
}

/// No other chunk has a URL, and no chunk has two.
pub proof fn law_only_proven_chunks_have_a_url(
    asset: ChunkAssetView,
    kind: ChunkAssetKind,
    template: Option<Seq<SegmentView>>,
    extra_ids: Set<Seq<char>>,
    i: int,
)
    requires
        is_filename_asset(asset, kind, template, extra_ids),
        0 <= i < asset.urls.len(),
    ensures
        template matches Some(segments) && is_proven(
            segments,
            extra_ids,
            asset.urls[i].chunk_id,
        ) && rendered_url(segments, asset.urls[i].chunk_id) == Some(asset.urls[i].url) && !inherits(
            segments,
            asset.urls[i].chunk_id,
        ),
        asset.urls[i].source == ChunkIdSource::FilenameMap <==> (template matches Some(segments)
            && is_entry(segments, asset.urls[i].chunk_id)),
{
    match template {
        Some(segments) => {
            lemma_is_entry(segments, asset.urls[i].chunk_id);
            assert(is_chunk_id(segments, extra_ids, asset.urls[i].chunk_id));
        },
        None => {},
    }
}

/// An asset tells its kind, its template and what came of it: dynamic without a
/// template, enumerated where some table has an entry or some id is known from
/// elsewhere, and else without static ids.
pub proof fn law_status_of_an_asset(
    asset: ChunkAssetView,
    kind: ChunkAssetKind,
    template: Option<Seq<SegmentView>>,
    extra_ids: Set<Seq<char>>,
)
    requires
        is_filename_asset(asset, kind, template, extra_ids),
    ensures
        asset.kind == kind,
        match template {
            Some(segments) => {
                &&& asset.template == Some(template_text(segments))
                &&& asset.status == ChunkEnumerationStatus::Enumerated <==> exists|id: Seq<char>|
                    is_proven(segments, extra_ids, id)
                &&& asset.status == ChunkEnumerationStatus::NoStaticChunkIds <==> forall|
                    id: Seq<char>,
                |
                    !is_proven(segments, extra_ids, id)
            },
            None => asset.status == ChunkEnumerationStatus::DynamicTemplate
                && asset.template is None && asset.urls.len() == 0,
        },
{
    match template {
        Some(segments) => {
            if exists|id: Seq<char>| is_proven(segments, extra_ids, id) {
                let id = choose|id: Seq<char>| is_proven(segments, extra_ids, id);
                lemma_is_entry(segments, id);
                assert(is_chunk_id(segments, extra_ids, id));
            }
            if has_chunk_ids(segments, extra_ids) {
                let id = choose|id: Seq<char>| is_chunk_id(segments, extra_ids, id);
                lemma_is_entry(segments, id);
                assert(is_proven(segments, extra_ids, id));
            }
        },
        None => {},
    }
}

// ---------------------------------------------------------------------------
// Load sites
// ---------------------------------------------------------------------------

/// The expression is a generated load site of the chunk `id`.
pub open spec fn is_load_site(expr: &Expr, unresolved_mark: Mark, id: Seq<char>) -> bool {
    match expr {
        Expr::Call(call) => exists|runtime: Binding|
            is_load_of(call, unresolved_mark, runtime, id),
        _ => false,
    }
}

/// A chunk that is loaded in a module is one of a generated load site that
/// stands in it.
pub proof fn law_loaded_chunks_have_a_load_site<'a>(
    module: &'a Module,
    unresolved_mark: Mark,
    id: Seq<char>,
)
    requires
        loaded_ids(module_sites(module), unresolved_mark).contains(id),
    ensures
        exists|path: Seq<Part<'a>>, expr: &'a Expr| #[trigger]
            leads_to(module, path, Part::Expr(expr)) && is_load_site(expr, unresolved_mark, id),
{
    let sites = module_sites(module);
    let i = choose|i: int|
        0 <= i < sites.len() && match #[trigger] sites[i] {
            Site::Call(call) => loaded_chunks(call, unresolved_mark).contains(id),
            _ => false,
        };
    match sites[i] {
        Site::Call(call) => {
            law_only_load_sites_load(call, unresolved_mark, id);
            let runtime = choose|runtime: Binding| is_load_of(call, unresolved_mark, runtime, id);
            law_every_site_stands_in_the_module(module, i);
            let (path, part) = choose|path: Seq<Part<'a>>, part: Part<'a>| #[trigger]
                leads_to(module, path, part) && own_sites(part) == seq![sites[i]];
            let own = own_sites(part);
            assert(own.len() == 1 && own[0] == sites[i]);
            match part {
                Part::Expr(expr) => {
                    assert(leads_to(module, path, Part::Expr(expr)));
                    assert(is_load_site(expr, unresolved_mark, id));
                },
                _ => {},
            }
        },
        _ => {},
    }
}

// ---------------------------------------------------------------------------
// Webpack 5
// ---------------------------------------------------------------------------

/// The site at `i` is the only one that writes `object.name`.
pub open spec fn is_only_write(
    sites: Seq<Site>,
    i: int,
    object: Binding,
    name: Seq<char>,
) -> bool {
    &&& 0 <= i < sites.len()
    &&& writes_property(sites[i], object, name)
    &&& forall|j: int|
        0 <= j < sites.len() && j != i ==> !writes_property(#[trigger] sites[j], object, name)
}

proof fn lemma_only_write(sites: Seq<Site>, object: Binding, name: Seq<char>) -> (i: int)
    requires
        values_written(sites, object, name).len() == 1,
    ensures
        is_only_write(sites, i, object, name),
        values_written(sites, object, name)[0] == value_left(sites[i], object, name),
    decreases sites.len(),
{
    let rest = sites.drop_last();
    let last = sites.last();
    lemma_property_written_at(last, object, name);
    if writes_property(last, object, name) {
        if exists|j: int| 0 <= j < rest.len() && writes_property(#[trigger] rest[j], object, name) {
            let j = choose|j: int|
                0 <= j < rest.len() && writes_property(#[trigger] rest[j], object, name);
            lemma_some_write(rest, j, object, name);
        }
        let i = sites.len() - 1;
        assert forall|j: int| 0 <= j < sites.len() && j != i implies !writes_property(
            #[trigger] sites[j],
            object,
            name,
        ) by {
            assert(rest[j] == sites[j]);
        }
        i
    } else {
        let i = lemma_only_write(rest, object, name);
        assert(rest[i] == sites[i]);
        assert forall|j: int| 0 <= j < sites.len() && j != i implies !writes_property(
            #[trigger] sites[j],
            object,
            name,
        ) by {
            if j < rest.len() {
                assert(rest[j] == sites[j]);
            }
        }
        i
    }
}

proof fn lemma_some_write(sites: Seq<Site>, j: int, object: Binding, name: Seq<char>)
    requires
        0 <= j < sites.len(),
        writes_property(sites[j], object, name),
    ensures
        values_written(sites, object, name).len() > 0,
    decreases sites.len(),
{
    lemma_property_written_at(sites.last(), object, name);
    if j < sites.len() - 1 {
        assert(sites.drop_last()[j] == sites[j]);
        lemma_some_write(sites.drop_last(), j, object, name);
    }
}

/// A runtime object of webpack 5 is what it looks like: a function binding
/// whose `.u` is written once, by a plain assignment of a function, and which
/// is assigned two different other properties of the runtime.
pub proof fn law_webpack5_runtime_is_what_it_seems(module: &Module, runtime: Binding)
    requires
        is_webpack5_runtime(module_sites(module), runtime),
    ensures
        exists|k: int|
            0 <= k < module_sites(module).len() && binds_function(
                site_node(#[trigger] module_sites(module)[k]),
                runtime,
            ),
        exists|i: int| #[trigger]
            is_only_write(module_sites(module), i, runtime, "u"@) && (value_left(
                module_sites(module)[i],
                runtime,
                "u"@,
            ) matches Some(value) && is_function(value)),
        exists|a: Seq<char>, b: Seq<char>|
            a != b && #[trigger] is_assigned(module_sites(module), runtime, a)
                && #[trigger] is_assigned(module_sites(module), runtime, b) && is_runtime_property(
                a,
            ) && is_runtime_property(b) && a != "u"@ && b != "u"@ && a != "miniCssF"@ && b
                != "miniCssF"@,
{
    let sites = module_sites(module);
    law_function_names(sites, runtime);
    let values = values_written(sites, runtime, "u"@);
    let i = lemma_only_write(sites, runtime, "u"@);
    assert(is_known_function(values[0]));
    let (a, b) = choose|a: Seq<char>, b: Seq<char>|
        a != b && #[trigger] has_runtime_property(sites, runtime, a)
            && #[trigger] has_runtime_property(sites, runtime, b);
    lemma_runtime_property(sites, runtime, a);
    lemma_runtime_property(sites, runtime, b);
    assert(is_assigned(sites, runtime, a) && is_assigned(sites, runtime, b));
}

/// A bundle of webpack 5 has a JS asset, with the template of the function that
/// `.u` is assigned and the ids that the module loads, and a CSS asset if and
/// only if `.miniCssF` is written, with the template of the function that it
/// is assigned once and no ids from elsewhere.
pub proof fn law_webpack5_assets(
    enumeration: ChunkEnumerationView,
    module: &Module,
    runtime: Binding,
    unresolved_mark: Mark,
    i: int,
)
    requires
        is_webpack5_enumeration(enumeration, module, runtime, unresolved_mark),
        is_only_write(module_sites(module), i, runtime, "u"@),
    ensures
        enumeration.public_path == module_public_path(module, runtime, unresolved_mark),
        enumeration.relative_imports.len() == 0,
        1 <= enumeration.assets.len() <= 2,
        is_filename_asset(
            enumeration.assets[0],
            ChunkAssetKind::Js,
            match value_left(module_sites(module)[i], runtime, "u"@) {
                Some(function) => filename_template(function),
                None => None,
            },
            loaded_ids(module_sites(module), unresolved_mark),
        ),
        enumeration.assets.len() == 2 <==> exists|k: int|
            0 <= k < module_sites(module).len() && writes_property(
                #[trigger] module_sites(module)[k],
                runtime,
                "miniCssF"@,
            ),
        forall|k: int| #[trigger]
            is_only_write(module_sites(module), k, runtime, "miniCssF"@) ==> is_filename_asset(
                enumeration.assets[1],
                ChunkAssetKind::Css,
                match value_left(module_sites(module)[k], runtime, "miniCssF"@) {
                    Some(function) => filename_template(function),
                    None => None,
                },
                Set::empty(),
            ),
        enumeration.assets.len() == 2 && (forall|k: int| !#[trigger]
            is_only_write(module_sites(module), k, runtime, "miniCssF"@)) ==> is_filename_asset(
            enumeration.assets[1],
            ChunkAssetKind::Css,
            None,
            Set::empty(),
        ),
{
    let sites = module_sites(module);
    let css = values_written(sites, runtime, "miniCssF"@);
    law_value_written_once(sites, i, runtime, "u"@);
    if exists|k: int|
        0 <= k < sites.len() && writes_property(#[trigger] sites[k], runtime, "miniCssF"@) {
        let k = choose|k: int|
            0 <= k < sites.len() && writes_property(#[trigger] sites[k], runtime, "miniCssF"@);
        lemma_some_write(sites, k, runtime, "miniCssF"@);
    } else {
        lemma_no_writes(sites, runtime, "miniCssF"@);
    }
    assert forall|k: int| #[trigger] is_only_write(sites, k, runtime, "miniCssF"@) implies css
        == seq![value_left(sites[k], runtime, "miniCssF"@)] by {
        law_value_written_once(sites, k, runtime, "miniCssF"@);
    }
    if css.len() == 1 {
        let k = lemma_only_write(sites, runtime, "miniCssF"@);
        assert(is_only_write(sites, k, runtime, "miniCssF"@));
    }
}

// ---------------------------------------------------------------------------
// Webpack 4
// ---------------------------------------------------------------------------

/// The site is a function of one parameter that returns a concatenation
/// beginning with the public path of `anchor`.
pub open spec fn is_script_source(site: Site, anchor: Binding) -> bool {
    exists|param: Binding, body: &Expr| #[trigger]
        function_of(site, param, body) && body is Bin && match anchored(body, param) {
            Some((object, _)) => object == anchor,
            None => false,
        }
}

proof fn lemma_script_src_at(site: Site, src: ScriptSrcView)
    requires
        script_src_at(site) == Some(src),
    ensures
        is_script_source(site, src.0),
{
    let shape = match site {
        Site::FnDecl(decl) => function_shape(&decl.function),
        Site::FnExpr(function) => function_shape(function),
        Site::Arrow(arrow) => arrow_shape(arrow),
        _ => None,
    };
    let (param, body) = shape->0;
    assert(function_of(site, param, body));
}

/// The script source function of webpack 4 is found: a function of one
/// parameter that returns a concatenation beginning with the public path of a
/// function binding, wherever it stands, if no other function does so.
pub proof fn law_webpack4_script_src_is_found(
    module: &Module,
    i: int,
    param: Binding,
    body: &Expr,
    anchor: Binding,
    template: Option<Seq<SegmentView>>,
)
    requires
        0 <= i < module_sites(module).len(),
        function_of(module_sites(module)[i], param, body),
        body is Bin,
        anchored(body, param) == Some((anchor, template)),
        exists|k: int|
            0 <= k < module_sites(module).len() && binds_function(
                site_node(#[trigger] module_sites(module)[k]),
                anchor,
            ),
        forall|j: int, other: Binding|
            0 <= j < module_sites(module).len() && j != i ==> !#[trigger] is_script_source(
                module_sites(module)[j],
                other,
            ),
    ensures
        has_runtime(module, BundleFormat::Webpack4),
        is_webpack4_script_src(
            module_sites(module),
            (
                anchor,
                proven_template(template, body, param, is_plain_site(module_sites(module)[i])),
            ),
        ),
{
    let sites = module_sites(module);
    let src = (anchor, proven_template(template, body, param, is_plain_site(sites[i])));
    law_script_source_functions(sites, i, param, body, anchor, template);
    law_function_names(sites, anchor);
    assert(is_script_src_candidate(sites, src));
    assert forall|other: ScriptSrcView| #[trigger] is_script_src_candidate(
        sites,
        other,
    ) implies other == src by {
        lemma_script_srcs(sites, other);
        let j = choose|j: int|
            0 <= j < sites.len() && script_src_at(#[trigger] sites[j]) == Some(other);
        lemma_script_src_at(sites[j], other);
        assert(is_script_source(sites[j], other.0));
        assert(script_src_at(sites[i]) == Some(src)) by {
            lemma_script_src_of_site(sites[i], param, body, anchor, template);
        }
    }
    assert(is_webpack4_script_src(sites, src));
}

proof fn lemma_script_src_of_site(
    site: Site,
    param: Binding,
    body: &Expr,
    anchor: Binding,
    template: Option<Seq<SegmentView>>,
)
    requires
        function_of(site, param, body),
        body is Bin,
        anchored(body, param) == Some((anchor, template)),
    ensures
        script_src_at(site) == Some(
            (anchor, proven_template(template, body, param, is_plain_site(site))),
        ),
{
}

/// A script source function of webpack 4 is what it looks like: its object is
/// bound to a function, and a function of the module returns a concatenation
/// that begins with its public path.
pub proof fn law_webpack4_script_src_is_what_it_seems(module: &Module, src: ScriptSrcView)
    requires
        is_webpack4_script_src(module_sites(module), src),
    ensures
        exists|k: int|
            0 <= k < module_sites(module).len() && binds_function(
                site_node(#[trigger] module_sites(module)[k]),
                src.0,
            ),
        exists|j: int|
            0 <= j < module_sites(module).len() && is_script_source(
                #[trigger] module_sites(module)[j],
                src.0,
            ),
{
    let sites = module_sites(module);
    law_function_names(sites, src.0);
    assert(is_script_src_candidate(sites, src));
    lemma_script_srcs(sites, src);
    let j = choose|j: int| 0 <= j < sites.len() && script_src_at(#[trigger] sites[j]) == Some(src);
    lemma_script_src_at(sites[j], src);
    assert(is_script_source(sites[j], src.0));
}

/// A bundle of webpack 4 has one asset, a JS one, with the template of its
/// script source function and the ids that the module loads.
pub proof fn law_webpack4_assets(
    enumeration: ChunkEnumerationView,
    module: &Module,
    src: ScriptSrcView,
    unresolved_mark: Mark,
)
    requires
        is_webpack4_enumeration(enumeration, module, src, unresolved_mark),
    ensures
        enumeration.public_path == module_public_path(module, src.0, unresolved_mark),
        enumeration.relative_imports.len() == 0,
        enumeration.assets.len() == 1,
        is_filename_asset(
            enumeration.assets[0],
            ChunkAssetKind::Js,
            src.1,
            loaded_ids(module_sites(module), unresolved_mark),
        ),
{
}

} // verus!
