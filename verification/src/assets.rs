//! The URLs that a literal chunk filename template proves.

use vstd::prelude::*;

use crate::facts::{
    ChunkAssetEnumeration, ChunkAssetKind, ChunkAssetView, ChunkEnumerationStatus, ChunkIdSource,
    ChunkUrl, ChunkUrlView,
};
use crate::template::{entries_map, segments_view, Segment, SegmentView};
use crate::text::{
    lemma_precedes_irreflexive, lemma_precedes_total, lemma_precedes_transitive, precedes,
    text_precedes,
};

verus! {

/// The placeholder of a segment.
pub open spec fn placeholder(segment: SegmentView) -> Seq<char> {
    match segment {
        SegmentView::Lit(text) => text,
        SegmentView::ChunkId => "[id]"@,
        SegmentView::Table { fallback, .. } => if fallback {
            "[map|id]"@
        } else {
            "[map]"@
        },
    }
}

/// The placeholder rendering of a template: the placeholders of its segments,
/// one after the other.
pub open spec fn template_text(segments: Seq<SegmentView>) -> Seq<char>
    decreases segments.len(),
{
    if segments.len() == 0 {
        Seq::empty()
    } else {
        template_text(segments.drop_last()) + placeholder(segments.last())
    }
}

/// Render a template with placeholders.
pub fn render_template(segments: &[Segment]) -> (r: String)
    ensures
        r@ == template_text(segments_view(segments@)),
{
    let mut text = String::new();
    let mut i: usize = 0;
    proof {
        assert(segments_view(segments@).take(0) =~= Seq::<SegmentView>::empty());
    }
    while i < segments.len()
        invariant
            i <= segments@.len(),
            text@ == template_text(segments_view(segments@).take(i as int)),
        decreases segments@.len() - i,
    {
        let part: &str = match &segments[i] {
            Segment::Lit(value) => value.as_str(),
            Segment::ChunkId => "[id]",
            Segment::Table { fallback, .. } => if *fallback {
                "[map|id]"
            } else {
                "[map]"
            },
        };
        text.append(part);
        proof {
            let view = segments_view(segments@);
            assert(view.take(i + 1).drop_last() =~= view.take(i as int));
            assert(view.take(i + 1).last() == segments@[i as int]@);
        }
        i = i + 1;
    }
    proof {
        assert(segments_view(segments@).take(i as int) =~= segments_view(segments@));
    }
    text
}

/// The text of a segment for a chunk id; nothing if the segment is a table
/// that lacks the id and has no fallback.
pub open spec fn segment_text(segment: SegmentView, id: Seq<char>) -> Option<Seq<char>> {
    match segment {
        SegmentView::Lit(text) => Some(text),
        SegmentView::ChunkId => Some(id),
        SegmentView::Table { entries, fallback } => if entries.contains_key(id) {
            Some(entries[id])
        } else if fallback {
            Some(id)
        } else {
            None
        },
    }
}

/// The URL that a template renders for a chunk id: the texts of its segments,
/// one after the other; nothing if some segment has no text.
pub open spec fn rendered_url(segments: Seq<SegmentView>, id: Seq<char>) -> Option<Seq<char>>
    decreases segments.len(),
{
    if segments.len() == 0 {
        Some(Seq::empty())
    } else {
        match (rendered_url(segments.drop_last(), id), segment_text(segments.last(), id)) {
            (Some(url), Some(text)) => Some(url + text),
            _ => None,
        }
    }
}

proof fn lemma_rendered_url_fails(segments: Seq<SegmentView>, id: Seq<char>, i: int)
    requires
        0 <= i <= segments.len(),
        rendered_url(segments.take(i), id) is None,
    ensures
        rendered_url(segments, id) is None,
    decreases segments.len(),
{
    if i == segments.len() {
        assert(segments.take(i) =~= segments);
    } else {
        assert(segments.drop_last().take(i) =~= segments.take(i));
        lemma_rendered_url_fails(segments.drop_last(), id, i);
    }
}

/// Render the URL of a chunk id.
pub fn render_url(segments: &[Segment], id: &String) -> (r: Option<String>)
    ensures
        match r {
            Some(url) => rendered_url(segments_view(segments@), id@) == Some(url@),
            None => rendered_url(segments_view(segments@), id@) is None,
        },
{
    let ghost view = segments_view(segments@);
    let mut url = String::new();
    let mut i: usize = 0;
    proof {
        assert(view.take(0) =~= Seq::<SegmentView>::empty());
    }
    while i < segments.len()
        invariant
            view == segments_view(segments@),
            i <= segments@.len(),
            rendered_url(view.take(i as int), id@) == Some(url@),
        decreases segments@.len() - i,
    {
        proof {
            assert(view.take(i + 1).drop_last() =~= view.take(i as int));
            assert(view.take(i + 1).last() == segments@[i as int]@);
        }
        match &segments[i] {
            Segment::Lit(value) => {
                url.append(value.as_str());
            },
            Segment::ChunkId => {
                url.append(id.as_str());
            },
            Segment::Table { entries, fallback } => match entries.get(id) {
                Some(value) => {
                    url.append(value.as_str());
                },
                None => {
                    if *fallback {
                        url.append(id.as_str());
                    } else {
                        proof {
                            lemma_rendered_url_fails(view, id@, i + 1);
                        }
                        return None;
                    }
                },
            },
        }
        i = i + 1;
    }
    proof {
        assert(view.take(i as int) =~= view);
    }
    Some(url)
}

// ---------------------------------------------------------------------------
// Ordered sets of chunk ids
// ---------------------------------------------------------------------------

/// The texts of a list of strings.
pub open spec fn texts(ids: Seq<String>) -> Seq<Seq<char>> {
    ids.map_values(|id: String| id@)
}

/// The texts stand in strictly ascending order.
pub open spec fn ascending(ids: Seq<Seq<char>>) -> bool {
    forall|i: int, j: int| 0 <= i < j < ids.len() ==> precedes(#[trigger] ids[i], #[trigger] ids[j])
}

/// The position at which an id stands, or at which it would have to be
/// inserted, in ascending order.
fn position(ids: &Vec<String>, id: &String) -> (p: usize)
    requires
        ascending(texts(ids@)),
    ensures
        p <= ids@.len(),
        forall|i: int| 0 <= i < p ==> precedes(#[trigger] texts(ids@)[i], id@),
        forall|i: int| p <= i < ids@.len() ==> !precedes(#[trigger] texts(ids@)[i], id@),
{
    let mut low: usize = 0;
    let mut high: usize = ids.len();
    while low < high
        invariant
            ascending(texts(ids@)),
            low <= high <= ids@.len(),
            forall|i: int| 0 <= i < low ==> precedes(#[trigger] texts(ids@)[i], id@),
            forall|i: int| high <= i < ids@.len() ==> !precedes(#[trigger] texts(ids@)[i], id@),
        decreases high - low,
    {
        let mid: usize = low + (high - low) / 2;
        let ghost at = texts(ids@)[mid as int];
        if text_precedes(ids[mid].as_str(), id.as_str()) {
            proof {
                assert forall|i: int| 0 <= i < mid + 1 implies precedes(
                    #[trigger] texts(ids@)[i],
                    id@,
                ) by {
                    if i < mid {
                        lemma_precedes_transitive(texts(ids@)[i], at, id@);
                    }
                }
            }
            low = mid + 1;
        } else {
            proof {
                assert forall|i: int| mid <= i < ids@.len() implies !precedes(
                    #[trigger] texts(ids@)[i],
                    id@,
                ) by {
                    if i > mid && precedes(texts(ids@)[i], id@) {
                        lemma_precedes_transitive(at, texts(ids@)[i], id@);
                    }
                }
            }
            high = mid;
        }
    }
    low
}

/// Whether an id stands in an ascending list.
fn has_id(ids: &Vec<String>, id: &String) -> (r: bool)
    requires
        ascending(texts(ids@)),
    ensures
        r == texts(ids@).contains(id@),
{
    let p = position(ids, id);
    if p < ids.len() && ids[p] == *id {
        proof {
            assert(texts(ids@)[p as int] == id@);
        }
        true
    } else {
        proof {
            if texts(ids@).contains(id@) {
                let i = choose|i: int| 0 <= i < texts(ids@).len() && texts(ids@)[i] == id@;
                lemma_precedes_irreflexive(id@);
                if i > p {
                    let first = texts(ids@)[p as int];
                    assert(precedes(first, texts(ids@)[i]));
                    assert(!precedes(texts(ids@)[p as int], id@));
                }
            }
        }
        false
    }
}

/// Enter an id into an ascending list, unless it stands there already.
fn add_id(ids: &mut Vec<String>, id: &String)
    requires
        ascending(texts(old(ids)@)),
    ensures
        ascending(texts(final(ids)@)),
        forall|t: Seq<char>| #[trigger]
            texts(final(ids)@).contains(t) <==> texts(old(ids)@).contains(t) || t == id@,
{
    let p = position(ids, id);
    let ghost before = texts(ids@);
    if p < ids.len() && ids[p] == *id {
        proof {
            assert(before[p as int] == id@);
        }
        return ;
    }
    proof {
        assert forall|i: int| p <= i < before.len() implies precedes(id@, #[trigger] before[i]) by {
            lemma_precedes_total(id@, before[i]);
            lemma_precedes_total(id@, before[p as int]);
            if i > p {
                assert(precedes(before[p as int], before[i]));
                lemma_precedes_transitive(id@, before[p as int], before[i]);
            }
        }
    }
    ids.insert(p, id.clone());
    proof {
        let after = texts(ids@);
        assert(after =~= before.insert(p as int, id@));
        assert forall|t: Seq<char>| #[trigger] after.contains(t) <==> before.contains(t) || t
            == id@ by {
            if before.contains(t) {
                let i = choose|i: int| 0 <= i < before.len() && before[i] == t;
                if i < p {
                    assert(after[i] == t);
                } else {
                    assert(after[i + 1] == t);
                }
            }
            if t == id@ {
                assert(after[p as int] == t);
            }
            if after.contains(t) && t != id@ {
                let i = choose|i: int| 0 <= i < after.len() && after[i] == t;
                if i < p {
                    assert(before[i] == t);
                } else {
                    assert(before[i - 1] == t);
                }
            }
        }
    }
}

// ---------------------------------------------------------------------------
// Enumerating
// ---------------------------------------------------------------------------

/// `id` is a key of a lookup table of the template.
pub open spec fn is_table_id(segments: Seq<SegmentView>, id: Seq<char>) -> bool {
    exists|i: int|
        0 <= i < segments.len() && match #[trigger] segments[i] {
            SegmentView::Table { entries, .. } => entries.contains_key(id),
            _ => false,
        }
}

/// `id` is a provable chunk id: a key of a lookup table of the template, or
/// one of the ids that are known from elsewhere.
pub open spec fn is_chunk_id(
    segments: Seq<SegmentView>,
    extra_ids: Set<Seq<char>>,
    id: Seq<char>,
) -> bool {
    is_table_id(segments, id) || extra_ids.contains(id)
}

/// Some chunk id is provable.
pub open spec fn has_chunk_ids(segments: Seq<SegmentView>, extra_ids: Set<Seq<char>>) -> bool {
    exists|id: Seq<char>| is_chunk_id(segments, extra_ids, id)
}

/// Where a provable chunk id comes from.
pub open spec fn id_source(segments: Seq<SegmentView>, id: Seq<char>) -> ChunkIdSource {
    if is_table_id(segments, id) {
        ChunkIdSource::FilenameMap
    } else {
        ChunkIdSource::EnsureCall
    }
}

/// `urls` are the URLs of all provable chunk ids for which the template
/// renders one, in ascending order of the ids, and no others.
pub open spec fn enumerates(
    urls: Seq<ChunkUrlView>,
    segments: Seq<SegmentView>,
    extra_ids: Set<Seq<char>>,
) -> bool {
    &&& forall|i: int, j: int|
        0 <= i < j < urls.len() ==> precedes(
            (#[trigger] urls[i]).chunk_id,
            (#[trigger] urls[j]).chunk_id,
        )
    &&& forall|i: int|
        0 <= i < urls.len() ==> {
            let url = #[trigger] urls[i];
            &&& is_chunk_id(segments, extra_ids, url.chunk_id)
            &&& rendered_url(segments, url.chunk_id) == Some(url.url)
            &&& url.source == id_source(segments, url.chunk_id)
        }
    &&& forall|id: Seq<char>|
        #![trigger is_chunk_id(segments, extra_ids, id)]
        is_chunk_id(segments, extra_ids, id) && rendered_url(segments, id) is Some ==> exists|
            i: int,
        |
            0 <= i < urls.len() && (#[trigger] urls[i]).chunk_id == id
}

/// `asset` is what a literal template enumerates.
pub open spec fn is_template_asset(
    asset: ChunkAssetView,
    kind: ChunkAssetKind,
    segments: Seq<SegmentView>,
    extra_ids: Set<Seq<char>>,
) -> bool {
    &&& asset.kind == kind
    &&& asset.template == Some(template_text(segments))
    &&& asset.status == (if has_chunk_ids(segments, extra_ids) {
        ChunkEnumerationStatus::Enumerated
    } else {
        ChunkEnumerationStatus::NoStaticChunkIds
    })
    &&& enumerates(asset.urls, segments, extra_ids)
}

/// `asset` is what a dynamic template enumerates.
pub open spec fn is_dynamic_asset(asset: ChunkAssetView, kind: ChunkAssetKind) -> bool {
    &&& asset.kind == kind
    &&& asset.template is None
    &&& asset.status == ChunkEnumerationStatus::DynamicTemplate
    &&& asset.urls.len() == 0
}

/// The keys of the lookup tables of a template, in ascending order.
fn table_ids(segments: &Vec<Segment>) -> (ids: Vec<String>)
    ensures
        ascending(texts(ids@)),
        forall|id: Seq<char>| #[trigger]
            texts(ids@).contains(id) <==> is_table_id(segments_view(segments@), id),
{
    let ghost view = segments_view(segments@);
    let mut ids: Vec<String> = Vec::new();
    let mut i: usize = 0;
    proof {
        assert(texts(ids@) =~= Seq::<Seq<char>>::empty());
    }
    while i < segments.len()
        invariant
            view == segments_view(segments@),
            i <= segments@.len(),
            ascending(texts(ids@)),
            forall|id: Seq<char>| #[trigger]
                texts(ids@).contains(id) <==> is_table_id(view.take(i as int), id),
        decreases segments@.len() - i,
    {
        let ghost before = texts(ids@);
        let ghost prefix = view.take(i as int);
        let ghost next = view.take(i + 1);
        proof {
            assert(next =~= prefix.push(segments@[i as int]@));
        }
        match &segments[i] {
            Segment::Table { entries, .. } => {
                let mut j: usize = 0;
                while j < entries.entries.len()
                    invariant
                        j <= entries.entries@.len(),
                        ascending(texts(ids@)),
                        forall|id: Seq<char>| #[trigger]
                            texts(ids@).contains(id) <==> before.contains(id)
                                || entries_map(
                                entries.entries@.take(j as int),
                            ).contains_key(id),
                    decreases entries.entries@.len() - j,
                {
                    proof {
                        let taken = entries.entries@.take(j + 1);
                        assert(taken.drop_last() =~= entries.entries@.take(j as int));
                        assert(taken.last() == entries.entries@[j as int]);
                    }
                    add_id(&mut ids, &entries.entries[j].0);
                    j = j + 1;
                }
                proof {
                    assert(entries.entries@.take(j as int) =~= entries.entries@);
                }
            },
            _ => {},
        }
        proof {
            assert forall|id: Seq<char>| #[trigger] texts(ids@).contains(id) <==> is_table_id(
                next,
                id,
            ) by {
                if is_table_id(prefix, id) {
                    let k = choose|k: int|
                        0 <= k < prefix.len() && match #[trigger] prefix[k] {
                            SegmentView::Table { entries, .. } => entries.contains_key(id),
                            _ => false,
                        };
                    assert(next[k] == prefix[k]);
                }
                assert(next[i as int] == segments@[i as int]@);
                if is_table_id(next, id) {
                    let k = choose|k: int|
                        0 <= k < next.len() && match #[trigger] next[k] {
                            SegmentView::Table { entries, .. } => entries.contains_key(id),
                            _ => false,
                        };
                    if k < i {
                        assert(prefix[k] == next[k]);
                    }
                }
                assert(before.contains(id) <==> is_table_id(prefix, id));
            }
        }
        i = i + 1;
    }
    proof {
        assert(view.take(i as int) =~= view);
    }
    ids
}

/// Expand a literal template over its provable chunk ids.
///
/// `extra_ids` carries literal `.e(id)` load-site ids (JS chunks only). An id
/// missing from a strict (no-fallback) lookup table is dropped entirely: the
/// runtime would render `"undefined"` there, which is not a real URL.
pub fn enumerate_asset(
    kind: ChunkAssetKind,
    segments: Vec<Segment>,
    extra_ids: &Vec<String>,
) -> (r: ChunkAssetEnumeration)
    ensures
        is_template_asset(r@, kind, segments_view(segments@), texts(extra_ids@).to_set()),
{
    let ghost view = segments_view(segments@);
    let ghost extra = texts(extra_ids@).to_set();
    let map_ids = table_ids(&segments);
    let mut all_ids = table_ids(&segments);
    let mut i: usize = 0;
    while i < extra_ids.len()
        invariant
            i <= extra_ids@.len(),
            ascending(texts(all_ids@)),
            forall|id: Seq<char>| #[trigger]
                texts(all_ids@).contains(id) <==> is_table_id(view, id) || texts(
                    extra_ids@,
                ).take(i as int).contains(id),
        decreases extra_ids@.len() - i,
    {
        let ghost prefix = texts(extra_ids@).take(i as int);
        let ghost next = texts(extra_ids@).take(i + 1);
        proof {
            assert(next =~= prefix.push(extra_ids@[i as int]@));
            assert forall|id: Seq<char>| #[trigger]
                next.contains(id) <==> prefix.contains(id) || id == extra_ids@[i as int]@ by {
                if prefix.contains(id) {
                    let k = choose|k: int| 0 <= k < prefix.len() && prefix[k] == id;
                    assert(next[k] == id);
                }
                assert(next[i as int] == extra_ids@[i as int]@);
                if next.contains(id) {
                    let k = choose|k: int| 0 <= k < next.len() && next[k] == id;
                    if k < i {
                        assert(prefix[k] == id);
                    }
                }
            }
        }
        add_id(&mut all_ids, &extra_ids[i]);
        i = i + 1;
    }
    proof {
        assert(texts(extra_ids@).take(i as int) =~= texts(extra_ids@));
        assert forall|id: Seq<char>| #[trigger]
            texts(all_ids@).contains(id) <==> is_chunk_id(view, extra, id) by {}
    }
    let template = render_template(segments.as_slice());
    if all_ids.len() == 0 {
        let urls: Vec<ChunkUrl> = Vec::new();
        let asset = ChunkAssetEnumeration {
            kind,
            status: ChunkEnumerationStatus::NoStaticChunkIds,
            template: Some(template),
            urls,
        };
        proof {
            assert forall|id: Seq<char>| !#[trigger] is_chunk_id(view, extra, id) by {
                assert(!texts(all_ids@).contains(id));
            }
        }
        return asset;
    }
    proof {
        let first = texts(all_ids@)[0];
        assert(texts(all_ids@).contains(first));
        assert(is_chunk_id(view, extra, first));
    }
    let mut urls: Vec<ChunkUrl> = Vec::new();
    let mut k: usize = 0;
    while k < all_ids.len()
        invariant
            view == segments_view(segments@),
            k <= all_ids@.len(),
            ascending(texts(all_ids@)),
            ascending(texts(map_ids@)),
            forall|id: Seq<char>| #[trigger]
                texts(all_ids@).contains(id) <==> is_chunk_id(view, extra, id),
            forall|id: Seq<char>| #[trigger]
                texts(map_ids@).contains(id) <==> is_table_id(view, id),
            forall|a: int, b: int|
                0 <= a < b < urls@.len() ==> precedes(
                    (#[trigger] urls@[a]).chunk_id@,
                    (#[trigger] urls@[b]).chunk_id@,
                ),
            forall|a: int, b: int|
                0 <= a < urls@.len() && k <= b < all_ids@.len() ==> precedes(
                    (#[trigger] urls@[a]).chunk_id@,
                    (#[trigger] all_ids@[b])@,
                ),
            forall|a: int|
                0 <= a < urls@.len() ==> {
                    let url = (#[trigger] urls@[a])@;
                    &&& is_chunk_id(view, extra, url.chunk_id)
                    &&& rendered_url(view, url.chunk_id) == Some(url.url)
                    &&& url.source == id_source(view, url.chunk_id)
                },
            forall|b: int|
                0 <= b < k && rendered_url(view, (#[trigger] all_ids@[b])@) is Some ==> exists|
                    a: int,
                |
                    0 <= a < urls@.len() && (#[trigger] urls@[a]).chunk_id@ == all_ids@[b]@,
        decreases all_ids@.len() - k,
    {
        let id = &all_ids[k];
        let ghost before = urls@;
        proof {
            assert(texts(all_ids@)[k as int] == id@);
            assert(texts(all_ids@).contains(id@));
        }
        let rendered = render_url(segments.as_slice(), id);
        match rendered {
            Some(url) => {
                let source = if has_id(&map_ids, id) {
                    ChunkIdSource::FilenameMap
                } else {
                    ChunkIdSource::EnsureCall
                };
                urls.push(ChunkUrl { chunk_id: id.clone(), url, source });
                proof {
                    assert(urls@.last().chunk_id@ == id@);
                }
            },
            None => {},
        }
        proof {
            assert forall|a: int, b: int|
                0 <= a < urls@.len() && k + 1 <= b < all_ids@.len() implies precedes(
                (#[trigger] urls@[a]).chunk_id@,
                (#[trigger] all_ids@[b])@,
            ) by {
                assert(texts(all_ids@)[b] == all_ids@[b]@);
                if a < before.len() {
                    assert(urls@[a] == before[a]);
                }
            }
            assert forall|b: int|
                0 <= b < k + 1 && rendered_url(view, (#[trigger] all_ids@[b])@) is Some implies (
            exists|a: int|
                0 <= a < urls@.len() && (#[trigger] urls@[a]).chunk_id@ == all_ids@[b]@) by {
                if b < k {
                    let a = choose|a: int|
                        0 <= a < before.len() && (#[trigger] before[a]).chunk_id@ == all_ids@[b]@;
                    assert(urls@[a] == before[a]);
                } else {
                    assert(urls@[urls@.len() - 1].chunk_id@ == id@);
                }
            }
        }
        k = k + 1;
    }
    let asset = ChunkAssetEnumeration {
        kind,
        status: ChunkEnumerationStatus::Enumerated,
        template: Some(template),
        urls,
    };
    proof {
        let view_urls = asset@.urls;
        assert forall|id: Seq<char>|
            #![trigger is_chunk_id(view, extra, id)]
            is_chunk_id(view, extra, id) && rendered_url(view, id) is Some implies exists|i: int|
            0 <= i < view_urls.len() && (#[trigger] view_urls[i]).chunk_id == id by {
            assert(texts(all_ids@).contains(id));
            let b = choose|b: int| 0 <= b < texts(all_ids@).len() && texts(all_ids@)[b] == id;
            assert(all_ids@[b]@ == id);
            let a = choose|a: int|
                0 <= a < urls@.len() && (#[trigger] urls@[a]).chunk_id@ == all_ids@[b]@;
            assert(view_urls[a].chunk_id == id);
        }
    }
    asset
}

/// The enumeration of a dynamic template: no template and no URLs.
pub fn dynamic_asset(kind: ChunkAssetKind) -> (r: ChunkAssetEnumeration)
    ensures
        is_dynamic_asset(r@, kind),
{
    ChunkAssetEnumeration {
        kind,
        status: ChunkEnumerationStatus::DynamicTemplate,
        template: None,
        urls: Vec::new(),
    }
}

} // verus!
