//! What holds of every enumeration.

use vstd::prelude::*;

use crate::assets::{
    enumerates, has_chunk_ids, is_chunk_id, is_table_id, placeholder, rendered_url, segment_text,
    template_text,
};
use crate::ast::{
    stripped, BinaryOp, Binding, CallExpr, Expr, ExprOrSpread, Mark, Module, ModuleItem, Prop,
};
use crate::facts::{
    merged, ChunkAssetKind, ChunkAssetView, ChunkEnumerationStatus, ChunkEnumerationView,
    ChunkIdSource, ChunkUrlView, ImportView, PublicPathView, RelativeImportKind,
};
use crate::imports::{
    collected, dynamic_references, is_relative, item_references, items_references,
    lemma_collected_in_turn, module_references, recorded, relative_references, static_reference,
};
use crate::origins::{
    count_module, law_public_path_assigned_once, law_script_relative_is_trimmed,
    law_script_relative_leads_to_script, law_script_relative_suffix, leads_to_script,
    public_path_write, trims_to_directory,
};
use crate::prototype::inherits;
use crate::script_path::is_script_relative_suffix;
use crate::surface::{
    bound_runtime, called_member, element_chunk, elements_chunks, ensured_chunk, is_loaded,
    loaded_chunks, loaded_ids, promise_all_elements, property_written_at, values_written,
    ScriptSrcView,
};
use crate::template::{entry_texts, joined, object_map, template_of, SegmentView};
use crate::text::{lemma_precedes_irreflexive, lemma_precedes_transitive, precedes};
use crate::walk::{item_sites, module_sites, Site};
use crate::webpack::{
    assigned_template, enumerates_requests, has_runtime, is_chunk_enumeration, is_filename_asset,
    is_known_function, is_runtime_candidate, is_script_src_candidate, is_webpack4_enumeration,
    is_webpack4_script_src, is_webpack5_enumeration, is_webpack5_runtime, BundleFormat,
};

verus! {

// ---------------------------------------------------------------------------
// Templates
// ---------------------------------------------------------------------------

/// A concatenation is a literal template if and only if both operands are: any
/// part that is not literal makes the whole template dynamic.
pub proof fn law_dynamic_part_makes_template_dynamic(expr: &Expr, param: Binding)
    ensures
        match expr {
            Expr::Bin(bin) => bin.op == BinaryOp::Add ==> (template_of(expr, param) is Some
                <==> template_of(&bin.left, param) is Some && template_of(
                &bin.right,
                param,
            ) is Some),
            _ => true,
        },
{
}

/// Parentheses do not matter to a template.
pub proof fn law_template_without_parens(expr: &Expr, param: Binding)
    ensures
        template_of(expr, param) == template_of(stripped(expr), param),
    decreases expr,
{
    match expr {
        Expr::Paren(inner) => law_template_without_parens(inner, param),
        _ => {},
    }
}

/// How a concatenation is nested does not matter to a template: `(a + b) + c`
/// and `a + (b + c)` have the same one.
pub proof fn law_nesting_does_not_matter(x: &Expr, y: &Expr, param: Binding)
    ensures
        match (x, y) {
            (Expr::Bin(ab_c), Expr::Bin(a_bc)) => match (&*ab_c.left, &*a_bc.right) {
                (Expr::Bin(ab), Expr::Bin(bc)) => ab_c.op == BinaryOp::Add && a_bc.op
                    == BinaryOp::Add && ab.op == BinaryOp::Add && bc.op == BinaryOp::Add && ab.left
                    == a_bc.left && ab.right == bc.left && ab_c.right == bc.right ==> template_of(
                    x,
                    param,
                ) == template_of(y, param),
                _ => true,
            },
            _ => true,
        },
{
    match (x, y) {
        (Expr::Bin(ab_c), Expr::Bin(a_bc)) => match (&*ab_c.left, &*a_bc.right) {
            (Expr::Bin(ab), Expr::Bin(bc)) => {
                let a = template_of(&ab.left, param);
                let b = template_of(&ab.right, param);
                let c = template_of(&bc.right, param);
                lemma_joined_associative(a, b, c);
                assert(ab.op == BinaryOp::Add ==> template_of(&ab_c.left, param) == joined(a, b));
                assert(bc.op == BinaryOp::Add ==> template_of(&a_bc.right, param) == joined(
                    template_of(&bc.left, param),
                    c,
                ));
            },
            _ => {},
        },
        _ => {},
    }
}

proof fn lemma_joined_associative(
    a: Option<Seq<SegmentView>>,
    b: Option<Seq<SegmentView>>,
    c: Option<Seq<SegmentView>>,
)
    ensures
        joined(joined(a, b), c) == joined(a, joined(b, c)),
{
    match (a, b, c) {
        (Some(x), Some(y), Some(z)) => {
            assert((x + y) + z =~= x + (y + z));
        },
        _ => {},
    }
}

/// A lookup table is read as a whole or not at all: one entry whose key or
/// value is not literal leaves no table.
pub proof fn law_table_is_all_literal(props: &Vec<Prop>, n: nat, fallback: bool)
    requires
        n <= props@.len(),
    ensures
        object_map(props, n, fallback) is Some <==> forall|i: int|
            0 <= i < n ==> entry_texts(&#[trigger] props@[i], fallback) is Some,
    decreases n,
{
    if n > 0 {
        law_table_is_all_literal(props, (n - 1) as nat, fallback);
    }
}

/// The entry has the given key.
pub open spec fn has_key(prop: &Prop, key: Seq<char>) -> bool {
    match entry_texts(prop, false) {
        Some((other, _)) => other == key,
        None => false,
    }
}

/// Of several entries for one chunk id the last one counts.
pub proof fn law_last_entry_counts(
    props: &Vec<Prop>,
    n: nat,
    fallback: bool,
    i: int,
    key: Seq<char>,
    value: Seq<char>,
)
    requires
        0 <= i < n <= props@.len(),
        object_map(props, n, fallback) is Some,
        entry_texts(&props@[i], fallback) == Some((key, value)),
        forall|j: int| i < j < n ==> !has_key(&#[trigger] props@[j], key),
    ensures
        object_map(props, n, fallback)->0.contains_key(key),
        object_map(props, n, fallback)->0[key] == value,
    decreases n,
{
    if i < n - 1 {
        law_last_entry_counts(props, (n - 1) as nat, fallback, i, key, value);
    }
}

/// A template renders what its parts render, one after the other; if one part
/// renders nothing, neither does the whole.
pub proof fn law_rendering_of_parts(a: Seq<SegmentView>, b: Seq<SegmentView>, id: Seq<char>)
    ensures
        rendered_url(a + b, id) == (match (rendered_url(a, id), rendered_url(b, id)) {
            (Some(x), Some(y)) => Some(x + y),
            _ => None,
        }),
        template_text(a + b) == template_text(a) + template_text(b),
    decreases b.len(),
{
    if b.len() == 0 {
        assert(a + b =~= a);
        match rendered_url(a, id) {
            Some(x) => {
                assert(x + Seq::<char>::empty() =~= x);
            },
            None => {},
        }
        assert(template_text(a) + template_text(b) =~= template_text(a));
    } else {
        let rest = b.drop_last();
        assert((a + b).drop_last() =~= a + rest);
        assert((a + b).last() == b.last());
        law_rendering_of_parts(a, rest, id);
        match (rendered_url(a, id), rendered_url(rest, id), segment_text(b.last(), id)) {
            (Some(x), Some(y), Some(z)) => {
                assert((x + y) + z =~= x + (y + z));
            },
            _ => {},
        }
        assert(template_text(a + b) =~= template_text(a) + template_text(b));
    }
}

/// What a single segment renders: a literal its text, the chunk id the id, and
/// a table the text of the id, or the id itself where there is a fallback.
/// Its placeholder tells which of them it is.
pub proof fn law_rendering_of_a_segment(segment: SegmentView, id: Seq<char>)
    ensures
        rendered_url(seq![segment], id) == (match segment {
            SegmentView::Lit(text) => Some(text),
            SegmentView::ChunkId => Some(id),
            SegmentView::Table { entries, fallback } => if entries.contains_key(id) {
                Some(entries[id])
            } else if fallback {
                Some(id)
            } else {
                None
            },
        }),
        template_text(seq![segment]) == (match segment {
            SegmentView::Lit(text) => text,
            SegmentView::ChunkId => "[id]"@,
            SegmentView::Table { fallback: true, .. } => "[map|id]"@,
            SegmentView::Table { fallback: false, .. } => "[map]"@,
        }),
{
    let segments = seq![segment];
    let none = segments.drop_last();
    assert(none =~= Seq::<SegmentView>::empty());
    assert(rendered_url(none, id) == Some(Seq::<char>::empty()));
    assert(template_text(none) =~= Seq::<char>::empty());
    assert(segments.last() == segment);
    match segment_text(segment, id) {
        Some(text) => {
            assert(Seq::<char>::empty() + text =~= text);
        },
        None => {},
    }
    assert(template_text(segments) =~= template_text(none) + placeholder(segment));
    assert(template_text(segments) =~= placeholder(segment));
}

/// An id that a table without fallback lacks has no URL: it is dropped, not
/// invented.
pub proof fn law_missing_id_is_dropped(
    segments: Seq<SegmentView>,
    at: int,
    id: Seq<char>,
    urls: Seq<ChunkUrlView>,
    extra_ids: Set<Seq<char>>,
)
    requires
        0 <= at < segments.len(),
        segments[at] matches SegmentView::Table { entries, fallback } && !fallback
            && !entries.contains_key(id),
        enumerates(urls, segments, extra_ids),
    ensures
        rendered_url(segments, id) is None,
        forall|i: int| 0 <= i < urls.len() ==> (#[trigger] urls[i]).chunk_id != id,
{
    lemma_unrendered(segments, at, id);
}

proof fn lemma_unrendered(segments: Seq<SegmentView>, at: int, id: Seq<char>)
    requires
        0 <= at < segments.len(),
        segment_text(segments[at], id) is None,
    ensures
        rendered_url(segments, id) is None,
    decreases segments.len(),
{
    if at < segments.len() - 1 {
        lemma_unrendered(segments.drop_last(), at, id);
    }
}

/// An id that every strict table has, and that is provable, has a URL.
pub proof fn law_complete_id_has_url(
    segments: Seq<SegmentView>,
    id: Seq<char>,
    urls: Seq<ChunkUrlView>,
    extra_ids: Set<Seq<char>>,
)
    requires
        enumerates(urls, segments, extra_ids),
        is_chunk_id(segments, extra_ids, id),
        forall|i: int|
            0 <= i < segments.len() ==> match #[trigger] segments[i] {
                SegmentView::Table { entries, fallback } => fallback || entries.contains_key(id),
                _ => true,
            },
    ensures
        exists|i: int| 0 <= i < urls.len() && (#[trigger] urls[i]).chunk_id == id,
{
    lemma_rendered(segments, id);
}

proof fn lemma_rendered(segments: Seq<SegmentView>, id: Seq<char>)
    requires
        forall|i: int|
            0 <= i < segments.len() ==> match #[trigger] segments[i] {
                SegmentView::Table { entries, fallback } => fallback || entries.contains_key(id),
                _ => true,
            },
    ensures
        rendered_url(segments, id) is Some,
    decreases segments.len(),
{
    if segments.len() > 0 {
        assert(segments.last() == segments[segments.len() - 1]);
        lemma_rendered(segments.drop_last(), id);
    }
}

// ---------------------------------------------------------------------------
// Assets
// ---------------------------------------------------------------------------

/// A template and its ids determine the URLs and their order.
pub proof fn law_urls_are_determined(
    a: Seq<ChunkUrlView>,
    b: Seq<ChunkUrlView>,
    segments: Seq<SegmentView>,
    extra_ids: Set<Seq<char>>,
)
    requires
        enumerates(a, segments, extra_ids),
        enumerates(b, segments, extra_ids),
    ensures
        a == b,
{
    assert forall|i: int| 0 <= i < a.len() implies has_url(b, #[trigger] a[i]) by {
        assert(is_chunk_id(segments, extra_ids, a[i].chunk_id));
        let k = choose|k: int| 0 <= k < b.len() && (#[trigger] b[k]).chunk_id == a[i].chunk_id;
        assert(b[k] == a[i]);
    }
    assert forall|i: int| 0 <= i < b.len() implies has_url(a, #[trigger] b[i]) by {
        assert(is_chunk_id(segments, extra_ids, b[i].chunk_id));
        let k = choose|k: int| 0 <= k < a.len() && (#[trigger] a[k]).chunk_id == b[i].chunk_id;
        assert(a[k] == b[i]);
    }
    lemma_same_lists(a, b);
}

/// The list holds the URL.
spec fn has_url(urls: Seq<ChunkUrlView>, url: ChunkUrlView) -> bool {
    exists|k: int| 0 <= k < urls.len() && #[trigger] urls[k] == url
}

/// The URLs stand in ascending order of their ids.
spec fn in_order(urls: Seq<ChunkUrlView>) -> bool {
    forall|i: int, j: int|
        0 <= i < j < urls.len() ==> precedes(
            (#[trigger] urls[i]).chunk_id,
            (#[trigger] urls[j]).chunk_id,
        )
}

/// Two lists in ascending order that hold the same URLs are the same.
proof fn lemma_same_lists(a: Seq<ChunkUrlView>, b: Seq<ChunkUrlView>)
    requires
        in_order(a),
        in_order(b),
        forall|i: int| 0 <= i < a.len() ==> has_url(b, #[trigger] a[i]),
        forall|i: int| 0 <= i < b.len() ==> has_url(a, #[trigger] b[i]),
    ensures
        a == b,
{
    if a.len() <= b.len() {
        lemma_same_prefix(a, b, a.len() as int);
        lemma_no_longer(a, b);
    } else {
        lemma_same_prefix(b, a, b.len() as int);
        lemma_no_longer(b, a);
    }
    assert(a =~= b);
}

proof fn lemma_no_longer(a: Seq<ChunkUrlView>, b: Seq<ChunkUrlView>)
    requires
        in_order(b),
        forall|i: int| 0 <= i < b.len() ==> has_url(a, #[trigger] b[i]),
        a.len() <= b.len(),
        forall|i: int| 0 <= i < a.len() ==> #[trigger] a[i] == b[i],
    ensures
        a.len() == b.len(),
{
    if a.len() < b.len() {
        let next = b[a.len() as int];
        assert(has_url(a, next));
        let k = choose|k: int| 0 <= k < a.len() && #[trigger] a[k] == next;
        assert(a[k] == b[k]);
        assert(precedes(b[k].chunk_id, next.chunk_id));
        lemma_precedes_irreflexive(next.chunk_id);
    }
}

proof fn lemma_same_prefix(a: Seq<ChunkUrlView>, b: Seq<ChunkUrlView>, n: int)
    requires
        in_order(a),
        in_order(b),
        forall|i: int| 0 <= i < a.len() ==> has_url(b, #[trigger] a[i]),
        forall|i: int| 0 <= i < b.len() ==> has_url(a, #[trigger] b[i]),
        0 <= n <= a.len() <= b.len(),
    ensures
        forall|i: int| 0 <= i < n ==> #[trigger] a[i] == b[i],
    decreases n,
{
    if n > 0 {
        let i = n - 1;
        lemma_same_prefix(a, b, i);
        let x = a[i].chunk_id;
        let y = b[i].chunk_id;
        assert(has_url(b, a[i]));
        assert(has_url(a, b[i]));
        let k = choose|k: int| 0 <= k < b.len() && #[trigger] b[k] == a[i];
        let m = choose|m: int| 0 <= m < a.len() && #[trigger] a[m] == b[i];
        lemma_precedes_irreflexive(x);
        lemma_precedes_irreflexive(y);
        if k < i {
            assert(a[k] == b[k]);
            assert(precedes(a[k].chunk_id, a[i].chunk_id));
        }
        if m < i {
            assert(a[m] == b[m]);
            assert(precedes(b[m].chunk_id, b[i].chunk_id));
        }
        if k > i && m > i {
            assert(precedes(b[i].chunk_id, b[k].chunk_id));
            assert(precedes(a[i].chunk_id, a[m].chunk_id));
            lemma_precedes_transitive(x, y, x);
        }
        assert(a[i] == b[i]);
    }
}

/// A filename function and the known ids determine the asset.
pub proof fn law_asset_is_determined(
    a: ChunkAssetView,
    b: ChunkAssetView,
    kind: ChunkAssetKind,
    template: Option<Seq<SegmentView>>,
    extra_ids: Set<Seq<char>>,
)
    requires
        is_filename_asset(a, kind, template, extra_ids),
        is_filename_asset(b, kind, template, extra_ids),
    ensures
        a == b,
{
    match template {
        Some(segments) => lemma_requests_are_determined(a.urls, b.urls, segments, extra_ids),
        None => {
            assert(a.urls =~= b.urls);
        },
    }
}

proof fn lemma_requests_are_determined(
    a: Seq<ChunkUrlView>,
    b: Seq<ChunkUrlView>,
    segments: Seq<SegmentView>,
    extra_ids: Set<Seq<char>>,
)
    requires
        enumerates_requests(a, segments, extra_ids),
        enumerates_requests(b, segments, extra_ids),
    ensures
        a == b,
{
    assert forall|i: int| 0 <= i < a.len() implies has_url(b, #[trigger] a[i]) by {
        assert(is_chunk_id(segments, extra_ids, a[i].chunk_id));
        let k = choose|k: int| 0 <= k < b.len() && (#[trigger] b[k]).chunk_id == a[i].chunk_id;
        assert(b[k] == a[i]);
    }
    assert forall|i: int| 0 <= i < b.len() implies has_url(a, #[trigger] b[i]) by {
        assert(is_chunk_id(segments, extra_ids, b[i].chunk_id));
        let k = choose|k: int| 0 <= k < a.len() && (#[trigger] a[k]).chunk_id == b[i].chunk_id;
        assert(a[k] == b[i]);
    }
    lemma_same_lists(a, b);
}

/// An id for which a lookup table of the template inherits an entry has no
/// URL, and that is all that the runtime's objects take away: every other URL
/// of the expanded template is enumerated, and nothing else is.
pub proof fn law_inherited_ids_have_no_url(
    asset: ChunkAssetView,
    kind: ChunkAssetKind,
    segments: Seq<SegmentView>,
    extra_ids: Set<Seq<char>>,
    expanded: Seq<ChunkUrlView>,
)
    requires
        is_filename_asset(asset, kind, Some(segments), extra_ids),
        enumerates(expanded, segments, extra_ids),
    ensures
        forall|url: ChunkUrlView| #[trigger]
            asset.urls.contains(url) <==> expanded.contains(url) && !inherits(
                segments,
                url.chunk_id,
            ),
{
    assert forall|url: ChunkUrlView| #[trigger]
        asset.urls.contains(url) <==> expanded.contains(url) && !inherits(
            segments,
            url.chunk_id,
        ) by {
        if asset.urls.contains(url) {
            let i = choose|i: int| 0 <= i < asset.urls.len() && asset.urls[i] == url;
            assert(is_chunk_id(segments, extra_ids, asset.urls[i].chunk_id));
            let k = choose|k: int|
                0 <= k < expanded.len() && (#[trigger] expanded[k]).chunk_id == url.chunk_id;
            assert(expanded[k] == url);
        }
        if expanded.contains(url) && !inherits(segments, url.chunk_id) {
            let i = choose|i: int| 0 <= i < expanded.len() && expanded[i] == url;
            assert(is_chunk_id(segments, extra_ids, expanded[i].chunk_id));
            let k = choose|k: int|
                0 <= k < asset.urls.len() && (#[trigger] asset.urls[k]).chunk_id == url.chunk_id;
            assert(asset.urls[k] == url);
        }
    }
}

/// A dynamic template is reported as such, without a template and without
/// URLs, and nothing else is.
pub proof fn law_dynamic_template_fails_closed(
    asset: ChunkAssetView,
    kind: ChunkAssetKind,
    template: Option<Seq<SegmentView>>,
    extra_ids: Set<Seq<char>>,
)
    requires
        is_filename_asset(asset, kind, template, extra_ids),
    ensures
        asset.status == ChunkEnumerationStatus::DynamicTemplate <==> template is None,
        asset.template is None <==> template is None,
        template is None ==> asset.urls.len() == 0,
{
}

/// A literal template without a static id source is reported as such, without
/// URLs; every URL belongs to an enumerated template.
pub proof fn law_unknown_ids_fail_closed(
    asset: ChunkAssetView,
    kind: ChunkAssetKind,
    template: Option<Seq<SegmentView>>,
    extra_ids: Set<Seq<char>>,
)
    requires
        is_filename_asset(asset, kind, template, extra_ids),
    ensures
        asset.status == ChunkEnumerationStatus::NoStaticChunkIds <==> (template matches Some(
            segments,
        ) && !has_chunk_ids(segments, extra_ids)),
        asset.urls.len() > 0 ==> asset.status == ChunkEnumerationStatus::Enumerated,
{
    match template {
        Some(segments) => {
            if asset.urls.len() > 0 {
                assert(is_chunk_id(segments, extra_ids, asset.urls[0].chunk_id));
            }
        },
        None => {},
    }
}

/// No URL is guessed: each is what the literal template renders for an id
/// that a lookup table of the template or a load site proves and no lookup
/// table inherits, and no id has two URLs.
pub proof fn law_no_url_is_guessed(
    asset: ChunkAssetView,
    kind: ChunkAssetKind,
    template: Option<Seq<SegmentView>>,
    extra_ids: Set<Seq<char>>,
    i: int,
)
    requires
        is_filename_asset(asset, kind, template, extra_ids),
        0 <= i < asset.urls.len(),
    ensures
        template matches Some(segments) && {
            let url = asset.urls[i];
            &&& rendered_url(segments, url.chunk_id) == Some(url.url)
            &&& !inherits(segments, url.chunk_id)
            &&& url.source == ChunkIdSource::FilenameMap <==> is_table_id(segments, url.chunk_id)
            &&& url.source == ChunkIdSource::EnsureCall ==> extra_ids.contains(url.chunk_id)
        },
        forall|j: int|
            0 <= j < asset.urls.len() && j != i ==> (#[trigger] asset.urls[j]).chunk_id
                != asset.urls[i].chunk_id,
{
    lemma_precedes_irreflexive(asset.urls[i].chunk_id);
}

/// More known ids never take a URL away or change it.
pub proof fn law_more_ids_keep_the_urls(
    fewer: Seq<ChunkUrlView>,
    more: Seq<ChunkUrlView>,
    segments: Seq<SegmentView>,
    some_ids: Set<Seq<char>>,
    all_ids: Set<Seq<char>>,
    i: int,
)
    requires
        enumerates(fewer, segments, some_ids),
        enumerates(more, segments, all_ids),
        some_ids.subset_of(all_ids),
        0 <= i < fewer.len(),
    ensures
        more.contains(fewer[i]),
{
    let url = fewer[i];
    assert(is_chunk_id(segments, some_ids, url.chunk_id));
    assert(is_chunk_id(segments, all_ids, url.chunk_id));
    let k = choose|k: int| 0 <= k < more.len() && (#[trigger] more[k]).chunk_id == url.chunk_id;
    assert(more[k] == url);
}

// ---------------------------------------------------------------------------
// Load sites
// ---------------------------------------------------------------------------

/// A chunk id counts as loaded only where the continuation is bound to the
/// very runtime that loads it; where several chunks are awaited together,
/// each of them is loaded by that runtime.
pub proof fn law_load_matches_continuation(call: &CallExpr, unresolved_mark: Mark, id: Seq<char>)
    requires
        loaded_chunks(call, unresolved_mark).contains(id),
    ensures
        call.args@.len() > 0,
        called_member(call) is Some,
        bound_runtime(&call.args@[0].expr) is Some,
        ({
            let runtime = bound_runtime(&call.args@[0].expr)->0;
            let receiver = called_member(call)->0.obj;
            ||| ensured_chunk(stripped(&receiver)) == Some((runtime, id))
            ||| promise_all_elements(&receiver, unresolved_mark) matches Some(elems) && {
                &&& exists|i: int|
                    0 <= i < elems@.len() && element_chunk(&#[trigger] elems@[i], runtime) == Some(
                        id,
                    )
                &&& forall|i: int|
                    0 <= i < elems@.len() ==> element_chunk(&#[trigger] elems@[i], runtime) is Some
            }
        }),
{
    let runtime = bound_runtime(&call.args@[0].expr)->0;
    let receiver = called_member(call)->0.obj;
    match ensured_chunk(stripped(&receiver)) {
        Some(_) => {},
        None => match promise_all_elements(&receiver, unresolved_mark) {
            Some(elems) => lemma_elements_chunks(elems, runtime, elems@.len()),
            None => {},
        },
    }
}

proof fn lemma_elements_chunks(elems: &Vec<Option<ExprOrSpread>>, runtime: Binding, n: nat)
    requires
        n <= elems@.len(),
        elements_chunks(elems, runtime, n) is Some,
    ensures
        forall|i: int| 0 <= i < n ==> element_chunk(&#[trigger] elems@[i], runtime) is Some,
        forall|id: Seq<char>| #[trigger]
            elements_chunks(elems, runtime, n)->0.contains(id) ==> exists|i: int|
                0 <= i < n && element_chunk(&#[trigger] elems@[i], runtime) == Some(id),
    decreases n,
{
    if n > 0 {
        lemma_elements_chunks(elems, runtime, (n - 1) as nat);
        let before = elements_chunks(elems, runtime, (n - 1) as nat)->0;
        let all = elements_chunks(elems, runtime, n)->0;
        assert forall|id: Seq<char>| #[trigger] all.contains(id) implies exists|i: int|
            0 <= i < n && element_chunk(&#[trigger] elems@[i], runtime) == Some(id) by {
            let k = choose|k: int| 0 <= k < all.len() && all[k] == id;
            if k < before.len() {
                assert(before[k] == id);
                assert(before.contains(id));
                let i = choose|i: int|
                    0 <= i < n - 1 && element_chunk(&#[trigger] elems@[i], runtime) == Some(id);
                assert(element_chunk(&elems@[i], runtime) == Some(id));
            } else {
                assert(element_chunk(&elems@[n - 1], runtime) == Some(id));
            }
        }
    }
}

// ---------------------------------------------------------------------------
// Extraction
// ---------------------------------------------------------------------------

/// A module, its format and the mark of its free identifiers determine the
/// enumeration.
pub proof fn law_enumeration_is_determined(
    a: ChunkEnumerationView,
    b: ChunkEnumerationView,
    module: &Module,
    format: BundleFormat,
    unresolved_mark: Mark,
)
    requires
        is_chunk_enumeration(a, module, format, unresolved_mark),
        is_chunk_enumeration(b, module, format, unresolved_mark),
    ensures
        a == b,
{
    let sites = module_sites(module);
    let loaded = loaded_ids(sites, unresolved_mark);
    match format {
        BundleFormat::Webpack5 => {
            let x = choose|x: Binding| #[trigger]
                is_webpack5_runtime(sites, x) && is_webpack5_enumeration(
                    a,
                    module,
                    x,
                    unresolved_mark,
                );
            let y = choose|y: Binding| #[trigger]
                is_webpack5_runtime(sites, y) && is_webpack5_enumeration(
                    b,
                    module,
                    y,
                    unresolved_mark,
                );
            assert(is_runtime_candidate(sites, y));
            let js = values_written(sites, x, "u"@);
            let css = values_written(sites, x, "miniCssF"@);
            law_asset_is_determined(
                a.assets[0],
                b.assets[0],
                ChunkAssetKind::Js,
                assigned_template(js),
                loaded,
            );
            if css.len() > 0 {
                law_asset_is_determined(
                    a.assets[1],
                    b.assets[1],
                    ChunkAssetKind::Css,
                    assigned_template(css),
                    Set::empty(),
                );
            }
            assert(a.assets =~= b.assets);
        },
        BundleFormat::Webpack4 => {
            let x = choose|x: ScriptSrcView| #[trigger]
                is_webpack4_script_src(sites, x) && is_webpack4_enumeration(
                    a,
                    module,
                    x,
                    unresolved_mark,
                );
            let y = choose|y: ScriptSrcView| #[trigger]
                is_webpack4_script_src(sites, y) && is_webpack4_enumeration(
                    b,
                    module,
                    y,
                    unresolved_mark,
                );
            assert(is_script_src_candidate(sites, y));
            law_asset_is_determined(a.assets[0], b.assets[0], ChunkAssetKind::Js, x.1, loaded);
            assert(a.assets =~= b.assets);
        },
        _ => {},
    }
}

/// Only webpack 4 and 5 are enumerated.
pub proof fn law_other_formats_are_not_enumerated(module: &Module, format: BundleFormat)
    requires
        format != BundleFormat::Webpack5,
        format != BundleFormat::Webpack4,
    ensures
        !has_runtime(module, format),
{
}

/// Several candidates for the runtime object of webpack 5, or none, yield
/// nothing.
pub proof fn law_ambiguous_runtime_fails_closed(module: &Module)
    ensures
        (exists|a: Binding, b: Binding|
            a != b && #[trigger] is_runtime_candidate(module_sites(module), a)
                && #[trigger] is_runtime_candidate(module_sites(module), b)) ==> !has_runtime(
            module,
            BundleFormat::Webpack5,
        ),
        (forall|a: Binding| !#[trigger] is_runtime_candidate(module_sites(module), a))
            ==> !has_runtime(module, BundleFormat::Webpack5),
{
}

/// A write that leaves an unknown value in a filename function fails closed:
/// its template is dynamic, and an object with such a write of `.u` is no
/// runtime object.
pub proof fn law_unknown_write_fails_closed(
    sites: Seq<Site>,
    i: int,
    object: Binding,
    name: Seq<char>,
)
    requires
        0 <= i < sites.len(),
        property_written_at(sites[i]) matches Some(write) && write.object == object && write.name
            == name && write.value is None,
    ensures
        values_written(sites, object, name).len() > 0,
        assigned_template(values_written(sites, object, name)) is None,
        name == "u"@ ==> !is_webpack5_runtime(sites, object),
{
    lemma_unknown_value(sites, i, object, name);
    let values = values_written(sites, object, name);
    let k = choose|k: int| 0 <= k < values.len() && (#[trigger] values[k]) is None;
    assert(!is_known_function(values[k]));
}

proof fn lemma_unknown_value(sites: Seq<Site>, i: int, object: Binding, name: Seq<char>)
    requires
        0 <= i < sites.len(),
        property_written_at(sites[i]) matches Some(write) && write.object == object && write.name
            == name && write.value is None,
    ensures
        exists|k: int|
            0 <= k < values_written(sites, object, name).len() && (#[trigger] values_written(
                sites,
                object,
                name,
            )[k]) is None,
    decreases sites.len(),
{
    let values = values_written(sites, object, name);
    if i < sites.len() - 1 {
        let rest = sites.drop_last();
        lemma_unknown_value(rest, i, object, name);
        let before = values_written(rest, object, name);
        let k = choose|k: int| 0 <= k < before.len() && (#[trigger] before[k]) is None;
        assert(values[k] is None);
    } else {
        assert(sites.last() == sites[i]);
        assert(values[values.len() - 1] is None);
    }
}

/// Two different candidates for the script source function of webpack 4, or
/// none, yield nothing; repeated ones count as one.
pub proof fn law_ambiguous_script_src_fails_closed(module: &Module)
    ensures
        has_runtime(module, BundleFormat::Webpack4) <==> (exists|a: ScriptSrcView| #[trigger]
            is_script_src_candidate(module_sites(module), a)) && (forall|
            a: ScriptSrcView,
            b: ScriptSrcView,
        |
            #[trigger] is_script_src_candidate(module_sites(module), a)
                && #[trigger] is_script_src_candidate(module_sites(module), b) ==> a == b),
{
    let sites = module_sites(module);
    if (exists|a: ScriptSrcView| #[trigger] is_script_src_candidate(sites, a)) && (forall|
        a: ScriptSrcView,
        b: ScriptSrcView,
    |
        #[trigger] is_script_src_candidate(sites, a) && #[trigger] is_script_src_candidate(sites, b)
            ==> a == b) {
        let a = choose|a: ScriptSrcView| #[trigger] is_script_src_candidate(sites, a);
        assert(is_webpack4_script_src(sites, a));
    }
}

/// Each enumerated URL of a module has its id from a lookup table of a
/// filename template or from a load site of the module, and a CSS chunk only
/// from the table.
pub proof fn law_ids_are_proven_by_the_module(
    enumeration: ChunkEnumerationView,
    module: &Module,
    format: BundleFormat,
    unresolved_mark: Mark,
    k: int,
    i: int,
)
    requires
        is_chunk_enumeration(enumeration, module, format, unresolved_mark),
        0 <= k < enumeration.assets.len(),
        0 <= i < enumeration.assets[k].urls.len(),
    ensures
        ({
            let asset = enumeration.assets[k];
            let url = asset.urls[i];
            &&& url.source == ChunkIdSource::EnsureCall ==> asset.kind == ChunkAssetKind::Js
                && is_loaded(module_sites(module), unresolved_mark, url.chunk_id)
            &&& asset.kind == ChunkAssetKind::Css ==> url.source == ChunkIdSource::FilenameMap
        }),
{
    let asset = enumeration.assets[k];
    assert(asset.urls[i] == enumeration.assets[k].urls[i]);
}

/// A public path is script-relative only where the module turns the URL of
/// the running script into its directory, and the suffix leads from there to
/// a directory.
pub proof fn law_script_relative_claim_is_proven(
    enumeration: ChunkEnumerationView,
    module: &Module,
    format: BundleFormat,
    unresolved_mark: Mark,
    suffix: Seq<char>,
)
    requires
        is_chunk_enumeration(enumeration, module, format, unresolved_mark),
        enumeration.public_path == PublicPathView::ScriptRelative(suffix),
    ensures
        is_script_relative_suffix(suffix),
        count_module(module, trims_to_directory()) > 0,
        exists|runtime: Binding|
            count_module(module, #[trigger] leads_to_script(runtime)) > 0 && count_module(
                module,
                public_path_write(runtime),
            ) == 1,
{
    let sites = module_sites(module);
    let runtime = match format {
        BundleFormat::Webpack5 => choose|x: Binding| #[trigger]
            is_webpack5_runtime(sites, x) && is_webpack5_enumeration(
                enumeration,
                module,
                x,
                unresolved_mark,
            ),
        _ => (choose|x: ScriptSrcView| #[trigger]
            is_webpack4_script_src(sites, x) && is_webpack4_enumeration(
                enumeration,
                module,
                x,
                unresolved_mark,
            )).0,
    };
    law_script_relative_suffix(module, runtime, unresolved_mark);
    law_script_relative_is_trimmed(module, runtime, unresolved_mark);
    law_script_relative_leads_to_script(module, runtime, unresolved_mark);
    law_public_path_assigned_once(module, runtime, unresolved_mark);
    assert(count_module(module, leads_to_script(runtime)) > 0);
}

// ---------------------------------------------------------------------------
// Merging
// ---------------------------------------------------------------------------

/// Merging yields nothing if and only if neither source produced a fact; it
/// keeps the facts of the runtime, and the relative imports as they are.
pub proof fn law_merge_keeps_both_sources(
    webpack: Option<ChunkEnumerationView>,
    relative_imports: Seq<ImportView>,
)
    ensures
        merged(webpack, relative_imports) is None <==> webpack is None && relative_imports.len()
            == 0,
        match merged(webpack, relative_imports) {
            Some(whole) => {
                &&& whole.relative_imports == relative_imports
                &&& match webpack {
                    Some(part) => whole.public_path == part.public_path && whole.assets
                        == part.assets,
                    None => whole.public_path is NotFound && whole.assets.len() == 0,
                }
            },
            None => true,
        },
{
}

// ---------------------------------------------------------------------------
// Relative imports
// ---------------------------------------------------------------------------

/// The imports are the relative ones among the references, all of them, and
/// each once.
pub proof fn law_imports_are_the_relative_references(references: Seq<ImportView>)
    ensures
        relative_references(references).no_duplicates(),
        forall|import: ImportView| #[trigger]
            relative_references(references).contains(import) <==> is_relative(import.0)
                && references.contains(import),
    decreases references.len(),
{
    if references.len() > 0 {
        let rest = references.drop_last();
        let last = references.last();
        law_imports_are_the_relative_references(rest);
        let before = relative_references(rest);
        let after = relative_references(references);
        assert forall|import: ImportView| #[trigger]
            after.contains(import) <==> is_relative(import.0) && references.contains(import) by {
            assert(references.contains(import) <==> rest.contains(import) || import == last) by {
                if rest.contains(import) {
                    let i = choose|i: int| 0 <= i < rest.len() && rest[i] == import;
                    assert(references[i] == import);
                }
                assert(references[references.len() - 1] == last);
                if references.contains(import) {
                    let i = choose|i: int| 0 <= i < references.len() && references[i] == import;
                    if i < rest.len() {
                        assert(rest[i] == import);
                    }
                }
            }
            if before.contains(import) {
                let i = choose|i: int| 0 <= i < before.len() && before[i] == import;
                assert(after[i] == import);
            }
            if is_relative(last.0) && !before.contains(last) {
                assert(after[before.len() as int] == last);
            }
            if after.contains(import) {
                let i = choose|i: int| 0 <= i < after.len() && after[i] == import;
                if i < before.len() {
                    assert(before[i] == import);
                }
            }
        }
    }
}

/// The imports stand in the order in which the references first occur.
pub proof fn law_imports_keep_the_order(references: Seq<ImportView>, i: int, j: int)
    requires
        0 <= i < j < relative_references(references).len(),
    ensures
        exists|p: int|
            0 <= p < references.len() && #[trigger] references[p] == relative_references(
                references,
            )[i] && !references.take(p + 1).contains(relative_references(references)[j]),
    decreases references.len(),
{
    let rest = references.drop_last();
    let before = relative_references(rest);
    let after = relative_references(references);
    if j < before.len() {
        law_imports_keep_the_order(rest, i, j);
        let p = choose|p: int|
            0 <= p < rest.len() && #[trigger] rest[p] == before[i] && !rest.take(p + 1).contains(
                before[j],
            );
        assert(references.take(p + 1) =~= rest.take(p + 1));
        assert(references[p] == after[i]);
    } else {
        law_imports_are_the_relative_references(rest);
        assert(before.contains(before[i]));
        assert(rest.contains(before[i]));
        let p = choose|p: int| 0 <= p < rest.len() && rest[p] == before[i];
        assert(references[p] == after[i]);
        let start = references.take(p + 1);
        if start.contains(after[j]) {
            let q = choose|q: int| 0 <= q < start.len() && start[q] == after[j];
            assert(rest[q] == after[j]);
            assert(rest.contains(after[j]));
            assert(before.contains(after[j]));
        }
    }
}

/// Recording a reference twice is recording it once.
pub proof fn law_record_is_idempotent(imports: Seq<ImportView>, reference: ImportView)
    ensures
        recorded(recorded(imports, reference), reference) == recorded(imports, reference),
{
    if is_relative(reference.0) && !imports.contains(reference) {
        assert(imports.push(reference)[imports.len() as int] == reference);
    }
}

/// The imports stand in source order: those of the first items come first,
/// and what follows neither moves nor drops them.
pub proof fn law_imports_are_in_source_order(module: &Module, n: nat)
    requires
        n <= module.body@.len(),
    ensures
        relative_references(items_references(&module.body, n)).is_prefix_of(
            relative_references(module_references(module)),
        ),
{
    lemma_items_in_turn(&module.body, n, module.body@.len());
}

proof fn lemma_items_in_turn(v: &Vec<ModuleItem>, n: nat, m: nat)
    requires
        n <= m <= v@.len(),
    ensures
        relative_references(items_references(v, n)).is_prefix_of(
            relative_references(items_references(v, m)),
        ),
    decreases m,
{
    if n < m {
        let before = items_references(v, (m - 1) as nat);
        let item = item_references(&v@[m - 1]);
        lemma_items_in_turn(v, n, (m - 1) as nat);
        lemma_collected_in_turn(Seq::empty(), before, item);
        lemma_collected_keeps(relative_references(before), item);
    }
}

proof fn lemma_collected_keeps(imports: Seq<ImportView>, references: Seq<ImportView>)
    ensures
        imports.is_prefix_of(collected(imports, references)),
    decreases references.len(),
{
    if references.len() > 0 {
        lemma_collected_keeps(imports, references.drop_last());
    }
}

/// Inside an item, the specifier of the declaration comes before those of the
/// dynamic imports.
pub proof fn law_declaration_comes_first(item: &ModuleItem)
    ensures
        forall|i: int|
            0 <= i < item_references(item).len() && (#[trigger] item_references(item)[i]).1
                != RelativeImportKind::DynamicImport ==> i == 0,
{
    lemma_dynamic_kinds(item_sites(item));
    let inside = dynamic_references(item_sites(item));
    assert forall|i: int|
        0 <= i < item_references(item).len() && (#[trigger] item_references(item)[i]).1
            != RelativeImportKind::DynamicImport implies i == 0 by {
        match static_reference(item) {
            Some(reference) => {
                if i > 0 {
                    assert(inside[i - 1] == item_references(item)[i]);
                    assert(inside.contains(inside[i - 1]));
                }
            },
            None => {
                assert(inside.contains(inside[i]));
            },
        }
    }
}

proof fn lemma_dynamic_kinds(sites: Seq<Site>)
    ensures
        forall|import: ImportView| #[trigger]
            dynamic_references(sites).contains(import) ==> import.1
                == RelativeImportKind::DynamicImport,
    decreases sites.len(),
{
    if sites.len() > 0 {
        lemma_dynamic_kinds(sites.drop_last());
        let before = dynamic_references(sites.drop_last());
        let after = dynamic_references(sites);
        assert forall|import: ImportView| #[trigger] after.contains(import) implies import.1
            == RelativeImportKind::DynamicImport by {
            let i = choose|i: int| 0 <= i < after.len() && after[i] == import;
            if i < before.len() {
                assert(before[i] == import);
                assert(before.contains(import));
            }
        }
    }
}

} // verus!
