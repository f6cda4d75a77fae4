//! Chunk enumeration of webpack 4 and webpack 5 bundles.

use vstd::prelude::*;

use crate::assets::{
    dynamic_asset, enumerate_asset, enumerates, has_chunk_ids, id_source, is_chunk_id,
    is_dynamic_asset, rendered_url, template_text, texts,
};
use crate::ast::{Binding, Expr, Id, Mark, Module};
use crate::facts::{
    imports_view, ChunkAssetEnumeration, ChunkAssetKind, ChunkAssetView, ChunkEnumeration,
    ChunkEnumerationStatus, ChunkEnumerationView, ChunkUrl, ChunkUrlView, ImportView,
    RelativeImport,
};
use crate::prototype::{inherits, reaches_prototype};
use crate::script_path::{module_public_path, ScriptPathTrace};
use crate::surface::{
    has_binding, has_runtime_property, is_function_expr, is_function_name, is_function_value,
    lists_id, lists_property, loaded_ids, script_src_view, script_srcs, values_listed,
    values_written, RuntimeSurface, ScriptSrcView,
};
use crate::template::{
    copy_segments, filename_template, parse_filename_fn, same_segments, segments_view,
    template_view, Segment, SegmentView,
};
use crate::text::precedes;
use crate::walk::{module_sites, Site};

verus! {

/// The bundler that produced an input.
#[derive(Debug, Clone, Copy, PartialEq, Eq, Structural)]
pub enum BundleFormat {
    Webpack5,
    Webpack4,
    Browserify,
    Other,
}

// ---------------------------------------------------------------------------
// Assets
// ---------------------------------------------------------------------------

/// `urls` are the URLs that the template renders for the provable chunk ids,
/// in ascending order of the ids, and no others. An id for which a lookup
/// table inherits an entry has none: what the runtime renders there is not
/// literal.
pub open spec fn enumerates_requests(
    urls: Seq<ChunkUrlView>,
    segments: Seq<SegmentView>,
    extra_ids: Set<Seq<char>>,
) -> bool {
    &&& forall|i: int, j: int|
        0 <= i < j < urls.len() ==> precedes(
            (#[trigger] urls[i]).chunk_id,
            (#[trigger] urls[j]).chunk_id,
        )
    &&& forall|i: int|
        0 <= i < urls.len() ==> {
            let url = #[trigger] urls[i];
            &&& is_chunk_id(segments, extra_ids, url.chunk_id)
            &&& !inherits(segments, url.chunk_id)
            &&& rendered_url(segments, url.chunk_id) == Some(url.url)
            &&& url.source == id_source(segments, url.chunk_id)
        }
    &&& forall|id: Seq<char>|
        #![trigger is_chunk_id(segments, extra_ids, id)]
        is_chunk_id(segments, extra_ids, id) && !inherits(segments, id) && rendered_url(
            segments,
            id,
        ) is Some ==> exists|i: int| 0 <= i < urls.len() && (#[trigger] urls[i]).chunk_id == id
}

/// `asset` is what a filename template enumerates, be it literal or dynamic.
pub open spec fn is_filename_asset(
    asset: ChunkAssetView,
    kind: ChunkAssetKind,
    template: Option<Seq<SegmentView>>,
    extra_ids: Set<Seq<char>>,
) -> bool {
    match template {
        Some(segments) => {
            &&& asset.kind == kind
            &&& asset.template == Some(template_text(segments))
            &&& asset.status == (if has_chunk_ids(segments, extra_ids) {
                ChunkEnumerationStatus::Enumerated
            } else {
                ChunkEnumerationStatus::NoStaticChunkIds
            })
            &&& enumerates_requests(asset.urls, segments, extra_ids)
        },
        None => is_dynamic_asset(asset, kind),
    }
}

/// The URLs of an asset without those of the ids for which a lookup table of
/// the template inherits an entry.
fn requested_urls(
    urls: &Vec<ChunkUrl>,
    segments: &Vec<Segment>,
    Ghost(extra_ids): Ghost<Set<Seq<char>>>,
) -> (r: Vec<ChunkUrl>)
    requires
        enumerates(
            urls@.map_values(|url: ChunkUrl| url@),
            segments_view(segments@),
            extra_ids,
        ),
    ensures
        enumerates_requests(
            r@.map_values(|url: ChunkUrl| url@),
            segments_view(segments@),
            extra_ids,
        ),
{
    let ghost view = segments_view(segments@);
    let ghost all = urls@.map_values(|url: ChunkUrl| url@);
    let mut kept: Vec<ChunkUrl> = Vec::new();
    let mut k: usize = 0;
    while k < urls.len()
        invariant
            view == segments_view(segments@),
            all == urls@.map_values(|url: ChunkUrl| url@),
            enumerates(all, view, extra_ids),
            k <= urls@.len(),
            forall|a: int, b: int|
                0 <= a < b < kept@.len() ==> precedes(
                    (#[trigger] kept@[a]).chunk_id@,
                    (#[trigger] kept@[b]).chunk_id@,
                ),
            forall|a: int, b: int|
                0 <= a < kept@.len() && k <= b < all.len() ==> precedes(
                    (#[trigger] kept@[a]).chunk_id@,
                    (#[trigger] all[b]).chunk_id,
                ),
            forall|a: int|
                0 <= a < kept@.len() ==> {
                    let url = (#[trigger] kept@[a])@;
                    &&& is_chunk_id(view, extra_ids, url.chunk_id)
                    &&& !inherits(view, url.chunk_id)
                    &&& rendered_url(view, url.chunk_id) == Some(url.url)
                    &&& url.source == id_source(view, url.chunk_id)
                },
            forall|b: int|
                0 <= b < k && !inherits(view, (#[trigger] all[b]).chunk_id) ==> exists|a: int|
                    0 <= a < kept@.len() && (#[trigger] kept@[a]).chunk_id@ == all[b].chunk_id,
        decreases urls@.len() - k,
    {
        let url = &urls[k];
        let ghost before = kept@;
        proof {
            assert(all[k as int] == url@);
        }
        if !reaches_prototype(segments, &url.chunk_id) {
            kept.push(
                ChunkUrl {
                    chunk_id: url.chunk_id.clone(),
                    url: url.url.clone(),
                    source: url.source,
                },
            );
            proof {
                assert(kept@.last()@ == all[k as int]);
            }
        }
        proof {
            assert forall|b: int|
                0 <= b < k + 1 && !inherits(view, (#[trigger] all[b]).chunk_id) implies exists|
                a: int,
            |
                0 <= a < kept@.len() && (#[trigger] kept@[a]).chunk_id@ == all[b].chunk_id by {
                if b < k {
                    let a = choose|a: int|
                        0 <= a < before.len() && (#[trigger] before[a]).chunk_id@
                            == all[b].chunk_id;
                    assert(kept@[a] == before[a]);
                } else {
                    assert(kept@[kept@.len() - 1].chunk_id@ == all[b].chunk_id);
                }
            }
        }
        k = k + 1;
    }
    proof {
        let r = kept@.map_values(|url: ChunkUrl| url@);
        assert forall|id: Seq<char>|
            #![trigger is_chunk_id(view, extra_ids, id)]
            is_chunk_id(view, extra_ids, id) && !inherits(view, id) && rendered_url(
                view,
                id,
            ) is Some implies exists|i: int|
            0 <= i < r.len() && (#[trigger] r[i]).chunk_id == id by {
            let b = choose|b: int| 0 <= b < all.len() && (#[trigger] all[b]).chunk_id == id;
            let a = choose|a: int|
                0 <= a < kept@.len() && (#[trigger] kept@[a]).chunk_id@ == all[b].chunk_id;
            assert(r[a].chunk_id == id);
        }
    }
    kept
}

fn filename_asset(
    kind: ChunkAssetKind,
    template: Option<Vec<Segment>>,
    extra_ids: &Vec<String>,
) -> (r: ChunkAssetEnumeration)
    ensures
        is_filename_asset(r@, kind, template_view(template), texts(extra_ids@).to_set()),
{
    match template {
        Some(segments) => {
            let template = copy_segments(&segments);
            let asset = enumerate_asset(kind, segments, extra_ids);
            let urls = requested_urls(
                &asset.urls,
                &template,
                Ghost(texts(extra_ids@).to_set()),
            );
            ChunkAssetEnumeration {
                kind: asset.kind,
                status: asset.status,
                template: asset.template,
                urls,
            }
        },
        None => dynamic_asset(kind),
    }
}

// ---------------------------------------------------------------------------
// Webpack 5
// ---------------------------------------------------------------------------

/// At least two different runtime properties of `id` are assigned, besides
/// the chunk filename functions.
pub open spec fn has_two_runtime_properties(sites: Seq<Site>, id: Binding) -> bool {
    exists|a: Seq<char>, b: Seq<char>|
        a != b && #[trigger] has_runtime_property(sites, id, a) && #[trigger] has_runtime_property(
            sites,
            id,
            b,
        )
}

/// `id` is a candidate for the runtime object: a function binding with a `.u`
/// assignment and at least two other runtime property assignments, where each
/// value assigned to `.u` is known to be a function.
pub open spec fn is_runtime_candidate(sites: Seq<Site>, id: Binding) -> bool {
    let values = values_written(sites, id, "u"@);
    &&& values.len() > 0
    &&& is_function_name(sites, id)
    &&& has_two_runtime_properties(sites, id)
    &&& forall|i: int| 0 <= i < values.len() ==> is_known_function(#[trigger] values[i])
}

/// The value is known, and is a function.
pub open spec fn is_known_function(value: Option<&Expr>) -> bool {
    match value {
        Some(value) => is_function_expr(value),
        None => false,
    }
}

/// `id` is the runtime object: the only candidate, with a single `.u`
/// assignment.
pub open spec fn is_webpack5_runtime(sites: Seq<Site>, id: Binding) -> bool {
    &&& is_runtime_candidate(sites, id)
    &&& forall|other: Binding| #[trigger] is_runtime_candidate(sites, other) ==> other == id
    &&& values_written(sites, id, "u"@).len() == 1
}

/// The template of a filename function that is assigned once; a second
/// assignment, or one of an unknown value, makes it dynamic.
pub open spec fn assigned_template(values: Seq<Option<&Expr>>) -> Option<Seq<SegmentView>> {
    if values.len() == 1 {
        match values[0] {
            Some(value) => filename_template(value),
            None => None,
        }
    } else {
        None
    }
}

/// The template of a filename function from the values that are assigned.
fn parse_assigned(values: &Vec<Option<&Expr>>) -> (r: Option<Vec<Segment>>)
    ensures
        template_view(r) == assigned_template(values@),
{
    if values.len() != 1 {
        return None;
    }
    match values[0] {
        Some(value) => parse_filename_fn(value),
        None => None,
    }
}

/// What the runtime object `runtime` of a webpack 5 bundle enumerates. The
/// ids of CSS chunks come only from the template's own lookup tables: a load
/// site does not prove that a chunk has a CSS asset.
pub open spec fn is_webpack5_enumeration(
    enumeration: ChunkEnumerationView,
    module: &Module,
    runtime: Binding,
    unresolved_mark: Mark,
) -> bool {
    let sites = module_sites(module);
    let js = values_written(sites, runtime, "u"@);
    let css = values_written(sites, runtime, "miniCssF"@);
    &&& enumeration.public_path == module_public_path(module, runtime, unresolved_mark)
    &&& enumeration.relative_imports == Seq::<ImportView>::empty()
    &&& enumeration.assets.len() == (if css.len() == 0 {
        1int
    } else {
        2int
    })
    &&& is_filename_asset(
        enumeration.assets[0],
        ChunkAssetKind::Js,
        assigned_template(js),
        loaded_ids(sites, unresolved_mark),
    )
    &&& css.len() > 0 ==> is_filename_asset(
        enumeration.assets[1],
        ChunkAssetKind::Css,
        assigned_template(css),
        Set::empty(),
    )
}

/// The values listed for an object.
fn listed_values<'a>(writes: &Vec<(Id, Option<&'a Expr>)>, object: &Id) -> (r: Vec<
    Option<&'a Expr>,
>)
    ensures
        r@ == values_listed(writes@, object@),
{
    let mut values: Vec<Option<&'a Expr>> = Vec::new();
    let mut i: usize = 0;
    proof {
        assert(writes@.take(0) =~= Seq::<(Id, Option<&'a Expr>)>::empty());
    }
    while i < writes.len()
        invariant
            i <= writes@.len(),
            values@ == values_listed(writes@.take(i as int), object@),
        decreases writes@.len() - i,
    {
        proof {
            let taken = writes@.take(i + 1);
            assert(taken.drop_last() =~= writes@.take(i as int));
            assert(taken.last() == writes@[i as int]);
        }
        if writes[i].0.same(object) {
            values.push(writes[i].1);
        }
        i = i + 1;
    }
    proof {
        assert(writes@.take(i as int) =~= writes@);
    }
    values
}

proof fn lemma_values_listed_source(writes: Seq<(Id, Option<&Expr>)>, object: Binding)
    requires
        values_listed(writes, object).len() > 0,
    ensures
        exists|i: int| 0 <= i < writes.len() && (#[trigger] writes[i]).0@ == object,
    decreases writes.len(),
{
    let last = writes[writes.len() - 1];
    if last.0@ != object {
        let rest = writes.drop_last();
        lemma_values_listed_source(rest, object);
        let i = choose|i: int| 0 <= i < rest.len() && (#[trigger] rest[i]).0@ == object;
        assert(writes[i].0@ == object);
    }
}

/// Whether all values are known to be functions.
fn all_functions(values: &Vec<Option<&Expr>>) -> (r: bool)
    ensures
        r == (forall|i: int| 0 <= i < values@.len() ==> is_known_function(#[trigger] values@[i])),
{
    let mut i: usize = 0;
    while i < values.len()
        invariant
            i <= values@.len(),
            forall|j: int| 0 <= j < i ==> is_known_function(#[trigger] values@[j]),
        decreases values@.len() - i,
    {
        let known = match values[i] {
            Some(value) => is_function_value(value),
            None => false,
        };
        if !known {
            proof {
                assert(!is_known_function(values@[i as int]));
            }
            return false;
        }
        i = i + 1;
    }
    true
}

/// Whether a list holds two different names for an object.
fn lists_two_properties(props: &Vec<(Id, String)>, object: &Id) -> (r: bool)
    ensures
        r == (exists|a: Seq<char>, b: Seq<char>|
            a != b && #[trigger] lists_property(props@, object@, a) && #[trigger] lists_property(
                props@,
                object@,
                b,
            )),
{
    let mut first: Option<&String> = None;
    let mut i: usize = 0;
    while i < props.len()
        invariant
            i <= props@.len(),
            match first {
                Some(name) => {
                    &&& lists_property(props@, object@, name@)
                    &&& forall|j: int|
                        0 <= j < i && (#[trigger] props@[j]).0@ == object@ ==> props@[j].1@ == name@
                },
                None => forall|j: int| 0 <= j < i ==> (#[trigger] props@[j]).0@ != object@,
            },
        decreases props@.len() - i,
    {
        if props[i].0.same(object) {
            proof {
                assert(lists_property(props@, object@, props@[i as int].1@));
            }
            match first {
                Some(name) => {
                    if *name != props[i].1 {
                        return true;
                    }
                },
                None => {
                    first = Some(&props[i].1);
                },
            }
        }
        i = i + 1;
    }
    false
}

/// Whether an object is a candidate for the runtime object.
fn is_candidate<'a>(
    surface: &RuntimeSurface<'a>,
    id: &Id,
    Ghost(sites): Ghost<Seq<Site<'a>>>,
) -> (r: bool)
    requires
        surface.describes(sites),
    ensures
        r == is_runtime_candidate(sites, id@),
{
    let values = listed_values(&surface.u_assignments, id);
    let two = lists_two_properties(&surface.other_runtime_props, id);
    proof {
        assert(values@ == values_written(sites, id@, "u"@));
        if has_two_runtime_properties(sites, id@) {
            let (a, b) = choose|a: Seq<char>, b: Seq<char>|
                a != b && #[trigger] has_runtime_property(sites, id@, a)
                    && #[trigger] has_runtime_property(sites, id@, b);
            assert(lists_property(surface.other_runtime_props@, id@, a));
            assert(lists_property(surface.other_runtime_props@, id@, b));
        }
        if two {
            let (a, b) = choose|a: Seq<char>, b: Seq<char>|
                a != b && #[trigger] lists_property(surface.other_runtime_props@, id@, a)
                    && #[trigger] lists_property(surface.other_runtime_props@, id@, b);
            assert(has_runtime_property(sites, id@, a));
            assert(has_runtime_property(sites, id@, b));
        }
    }
    values.len() > 0 && has_binding(&surface.function_names, id) && two && all_functions(&values)
}

/// The candidates for the runtime object, each once.
fn runtime_candidates<'a>(
    surface: &RuntimeSurface<'a>,
    Ghost(sites): Ghost<Seq<Site<'a>>>,
) -> (r: Vec<Id>)
    requires
        surface.describes(sites),
    ensures
        forall|id: Binding| #[trigger] lists_id(r@, id) <==> is_runtime_candidate(sites, id),
        forall|i: int, j: int| 0 <= i < j < r@.len() ==> (#[trigger] r@[i])@ != (#[trigger] r@[j])@,
{
    let mut candidates: Vec<Id> = Vec::new();
    let mut k: usize = 0;
    while k < surface.u_assignments.len()
        invariant
            surface.describes(sites),
            k <= surface.u_assignments@.len(),
            forall|i: int|
                0 <= i < candidates@.len() ==> is_runtime_candidate(
                    sites,
                    (#[trigger] candidates@[i])@,
                ),
            forall|i: int|
                0 <= i < k && is_runtime_candidate(sites, (#[trigger] surface.u_assignments@[i]).0@)
                    ==> lists_id(candidates@, surface.u_assignments@[i].0@),
            forall|i: int, j: int|
                0 <= i < j < candidates@.len() ==> (#[trigger] candidates@[i])@ != (
                #[trigger] candidates@[j])@,
        decreases surface.u_assignments@.len() - k,
    {
        let id = &surface.u_assignments[k].0;
        let ghost before = candidates@;
        if !has_binding(&candidates, id) && is_candidate(surface, id, Ghost(sites)) {
            candidates.push(id.copy());
            proof {
                assert(candidates@[before.len() as int]@ == id@);
            }
        }
        proof {
            assert forall|i: int|
                0 <= i < k + 1 && is_runtime_candidate(
                    sites,
                    (#[trigger] surface.u_assignments@[i]).0@,
                ) implies lists_id(candidates@, surface.u_assignments@[i].0@) by {
                let wanted = surface.u_assignments@[i].0@;
                if lists_id(before, wanted) {
                    let j = choose|j: int|
                        0 <= j < before.len() && (#[trigger] before[j])@ == wanted;
                    assert(candidates@[j]@ == wanted);
                }
            }
        }
        k = k + 1;
    }
    proof {
        assert forall|id: Binding| #[trigger]
            lists_id(candidates@, id) <==> is_runtime_candidate(sites, id) by {
            if is_runtime_candidate(sites, id) {
                assert(values_listed(surface.u_assignments@, id).len() > 0);
                lemma_values_listed_source(surface.u_assignments@, id);
            }
        }
    }
    candidates
}

/// Extract the enumeration of a webpack 5 bundle. Anything ambiguous (no
/// candidate or several, or conflicting `.u` assignments) yields nothing.
pub fn extract_webpack5(module: &Module, unresolved_mark: Mark) -> (r: Option<ChunkEnumeration>)
    ensures
        match r {
            Some(enumeration) => exists|runtime: Binding| #[trigger]
                is_webpack5_runtime(module_sites(module), runtime) && is_webpack5_enumeration(
                    enumeration@,
                    module,
                    runtime,
                    unresolved_mark,
                ),
            None => forall|runtime: Binding|
                !#[trigger] is_webpack5_runtime(module_sites(module), runtime),
        },
{
    let surface = RuntimeSurface::collect(module, unresolved_mark);
    let ghost sites = module_sites(module);
    let candidates = runtime_candidates(&surface, Ghost(sites));
    if candidates.len() != 1 {
        proof {
            assert forall|runtime: Binding| !#[trigger] is_webpack5_runtime(sites, runtime) by {
                if is_webpack5_runtime(sites, runtime) {
                    assert(lists_id(candidates@, runtime));
                    assert(lists_id(candidates@, candidates@[0]@));
                    assert(lists_id(candidates@, candidates@[1]@));
                }
            }
        }
        return None;
    }
    let candidate = &candidates[0];
    proof {
        assert(lists_id(candidates@, candidate@));
        assert forall|other: Binding| #[trigger]
            is_runtime_candidate(sites, other) implies other == candidate@ by {
            assert(lists_id(candidates@, other));
        }
    }
    let js = listed_values(&surface.u_assignments, candidate);
    if js.len() != 1 {
        return None;
    }
    let mut assets: Vec<ChunkAssetEnumeration> = Vec::new();
    assets.push(filename_asset(ChunkAssetKind::Js, parse_assigned(&js), &surface.ensure_ids));
    let css = listed_values(&surface.mini_css_assignments, candidate);
    if css.len() > 0 {
        let no_ids: Vec<String> = Vec::new();
        proof {
            assert(texts(no_ids@).to_set() =~= Set::<Seq<char>>::empty());
        }
        assets.push(filename_asset(ChunkAssetKind::Css, parse_assigned(&css), &no_ids));
    }
    let relative_imports: Vec<RelativeImport> = Vec::new();
    proof {
        assert(texts(surface.ensure_ids@).to_set() =~= loaded_ids(sites, unresolved_mark));
        assert(imports_view(relative_imports@) =~= Seq::<ImportView>::empty());
        assert(is_webpack5_runtime(sites, candidate@));
    }
    Some(
        ChunkEnumeration {
            public_path: ScriptPathTrace::collect(module, candidate.copy(), unresolved_mark),
            assets,
            relative_imports,
        },
    )
}

// ---------------------------------------------------------------------------
// Webpack 4
// ---------------------------------------------------------------------------

/// `src` is a script source function of the sites whose anchor is a function
/// binding.
pub open spec fn is_script_src_candidate(sites: Seq<Site>, src: ScriptSrcView) -> bool {
    script_srcs(sites).contains(src) && is_function_name(sites, src.0)
}

/// `src` is the script source function: any other candidate has the same
/// anchor and the same template.
pub open spec fn is_webpack4_script_src(sites: Seq<Site>, src: ScriptSrcView) -> bool {
    &&& is_script_src_candidate(sites, src)
    &&& forall|other: ScriptSrcView| #[trigger]
        is_script_src_candidate(sites, other) ==> other == src
}

/// What the script source function `src` of a webpack 4 bundle enumerates.
pub open spec fn is_webpack4_enumeration(
    enumeration: ChunkEnumerationView,
    module: &Module,
    src: ScriptSrcView,
    unresolved_mark: Mark,
) -> bool {
    &&& enumeration.public_path == module_public_path(module, src.0, unresolved_mark)
    &&& enumeration.relative_imports == Seq::<ImportView>::empty()
    &&& enumeration.assets.len() == 1
    &&& is_filename_asset(
        enumeration.assets[0],
        ChunkAssetKind::Js,
        src.1,
        loaded_ids(module_sites(module), unresolved_mark),
    )
}

/// Whether two script source functions have the same anchor and the same
/// template.
fn same_script_src(a: &(Id, Option<Vec<Segment>>), b: &(Id, Option<Vec<Segment>>)) -> (r: bool)
    ensures
        r == (script_src_view(*a) == script_src_view(*b)),
{
    a.0.same(&b.0) && match (&a.1, &b.1) {
        (Some(x), Some(y)) => same_segments(x, y),
        (None, None) => true,
        _ => false,
    }
}

/// Extract the enumeration of a webpack 4 bundle. Identical candidates count
/// as one; no candidate, or genuinely different ones, yield nothing.
pub fn extract_webpack4(module: &Module, unresolved_mark: Mark) -> (r: Option<ChunkEnumeration>)
    ensures
        match r {
            Some(enumeration) => exists|src: ScriptSrcView| #[trigger]
                is_webpack4_script_src(module_sites(module), src) && is_webpack4_enumeration(
                    enumeration@,
                    module,
                    src,
                    unresolved_mark,
                ),
            None => forall|src: ScriptSrcView|
                !#[trigger] is_webpack4_script_src(module_sites(module), src),
        },
{
    let surface = RuntimeSurface::collect(module, unresolved_mark);
    let ghost sites = module_sites(module);
    let srcs = &surface.jsonp_script_src_fns;
    let ghost views = surface.srcs();
    let mut found: Option<usize> = None;
    let mut i: usize = 0;
    while i < srcs.len()
        invariant
            sites == module_sites(module),
            surface.describes(sites),
            srcs == &surface.jsonp_script_src_fns,
            views == surface.srcs(),
            i <= srcs@.len(),
            match found {
                Some(at) => {
                    &&& at < srcs@.len()
                    &&& is_function_name(sites, views[at as int].0)
                    &&& forall|j: int|
                        0 <= j < i && is_function_name(sites, (#[trigger] views[j]).0) ==> views[j]
                            == views[at as int]
                },
                None => forall|j: int|
                    0 <= j < i ==> !is_function_name(sites, (#[trigger] views[j]).0),
            },
        decreases srcs@.len() - i,
    {
        proof {
            assert(views[i as int] == script_src_view(srcs@[i as int]));
        }
        if has_binding(&surface.function_names, &srcs[i].0) {
            match found {
                Some(at) => {
                    proof {
                        assert(views[at as int] == script_src_view(srcs@[at as int]));
                    }
                    if !same_script_src(&srcs[at], &srcs[i]) {
                        proof {
                            assert(is_script_src_candidate(sites, views[at as int]));
                            assert(is_script_src_candidate(sites, views[i as int]));
                        }
                        return None;
                    }
                },
                None => {
                    found = Some(i);
                },
            }
        }
        i = i + 1;
    }
    let at = match found {
        Some(at) => at,
        None => {
            return None;
        },
    };
    let ghost src = views[at as int];
    proof {
        assert(src == script_src_view(srcs@[at as int]));
        assert(is_script_src_candidate(sites, src));
        assert(is_webpack4_script_src(sites, src));
        assert(texts(surface.ensure_ids@).to_set() =~= loaded_ids(sites, unresolved_mark));
    }
    let template = match &srcs[at].1 {
        Some(segments) => Some(copy_segments(segments)),
        None => None,
    };
    let mut assets: Vec<ChunkAssetEnumeration> = Vec::new();
    assets.push(filename_asset(ChunkAssetKind::Js, template, &surface.ensure_ids));
    let relative_imports: Vec<RelativeImport> = Vec::new();
    proof {
        assert(imports_view(relative_imports@) =~= Seq::<ImportView>::empty());
    }
    Some(
        ChunkEnumeration {
            public_path: ScriptPathTrace::collect(module, srcs[at].0.copy(), unresolved_mark),
            assets,
            relative_imports,
        },
    )
}

// ---------------------------------------------------------------------------
// All formats
// ---------------------------------------------------------------------------

/// `enumeration` is what a module of the given format enumerates.
pub open spec fn is_chunk_enumeration(
    enumeration: ChunkEnumerationView,
    module: &Module,
    format: BundleFormat,
    unresolved_mark: Mark,
) -> bool {
    match format {
        BundleFormat::Webpack5 => exists|runtime: Binding| #[trigger]
            is_webpack5_runtime(module_sites(module), runtime) && is_webpack5_enumeration(
                enumeration,
                module,
                runtime,
                unresolved_mark,
            ),
        BundleFormat::Webpack4 => exists|src: ScriptSrcView| #[trigger]
            is_webpack4_script_src(module_sites(module), src) && is_webpack4_enumeration(
                enumeration,
                module,
                src,
                unresolved_mark,
            ),
        _ => false,
    }
}

/// The module has a runtime of the given format that can be told for certain.
pub open spec fn has_runtime(module: &Module, format: BundleFormat) -> bool {
    match format {
        BundleFormat::Webpack5 => exists|runtime: Binding| #[trigger]
            is_webpack5_runtime(module_sites(module), runtime),
        BundleFormat::Webpack4 => exists|src: ScriptSrcView| #[trigger]
            is_webpack4_script_src(module_sites(module), src),
        _ => false,
    }
}

/// Extract the chunk enumeration for one detected bundle input.
///
/// Only webpack 4/5 runtimes are understood; other formats return `None`.
pub fn extract_chunk_enumeration(
    module: &Module,
    format: BundleFormat,
    unresolved_mark: Mark,
) -> (r: Option<ChunkEnumeration>)
    ensures
        r is Some <==> has_runtime(module, format),
        match r {
            Some(enumeration) => is_chunk_enumeration(
                enumeration@,
                module,
                format,
                unresolved_mark,
            ),
            None => true,
        },
{
    match format {
        BundleFormat::Webpack5 => extract_webpack5(module, unresolved_mark),
        BundleFormat::Webpack4 => extract_webpack4(module, unresolved_mark),
        _ => None,
    }
}

} // verus!
