//! What an enumeration reports.

use vstd::prelude::*;

verus! {

/// Statically extracted chunk-reference surface of one input.
///
/// Carries two independent sources, both of which report nothing that is not
/// proven:
/// - `assets`: the chunk filename tables of a webpack 4/5 runtime.
/// - `relative_imports`: literal relative ESM module specifiers (native code
///   splitting), where the specifier *is* the chunk URL.
///
/// No enumeration at all means that neither source produced anything.
#[derive(Debug, Clone, PartialEq, Eq)]
pub struct ChunkEnumeration {
    pub public_path: PublicPathFact,
    pub assets: Vec<ChunkAssetEnumeration>,
    pub relative_imports: Vec<RelativeImport>,
}

/// One literal relative module specifier imported by the bundle. For native
/// ESM code splitting the specifier is the exact relative URL of a sibling
/// chunk; `public_path` does not apply: resolve it against the entry URL.
#[derive(Debug, Clone, PartialEq, Eq)]
pub struct RelativeImport {
    /// The specifier verbatim (e.g. `./bbbb2222.js`).
    pub specifier: String,
    pub kind: RelativeImportKind,
}

#[derive(Debug, Clone, Copy, PartialEq, Eq, Hash, Structural)]
pub enum RelativeImportKind {
    /// `import ... from "./x"`.
    Import,
    /// `export ... from "./x"` / `export * from "./x"`.
    ExportFrom,
    /// `import("./x")`: a dynamic import (a genuine lazy chunk).
    DynamicImport,
}

/// What could be proven about `__webpack_require__.p`.
#[derive(Debug, Clone, PartialEq, Eq)]
pub enum PublicPathFact {
    /// Exactly one assignment, with a string literal as its value.
    Static(String),
    /// A single `<script directory> + "<literal suffix>"` assignment. The
    /// base originates at a script URL and passed through the replacement of
    /// the file name by the directory. The suffix is non-empty, relative, and
    /// ends in `/`. Consumers may resolve `suffix + chunkUrl` against the
    /// entry URL.
    ScriptRelative(String),
    /// Assigned, but not provable to a single literal or script-relative
    /// value. The filename template remains useful, but the complete request
    /// URL cannot be resolved statically.
    RuntimeComputed,
    /// No assignment found.
    NotFound,
}

/// One asset-kind enumeration (JS chunks, or mini-css-extract CSS chunks).
#[derive(Debug, Clone, PartialEq, Eq)]
pub struct ChunkAssetEnumeration {
    pub kind: ChunkAssetKind,
    pub status: ChunkEnumerationStatus,
    /// Placeholder rendering of the filename template, for debugging (`[id]`
    /// for the chunk id, `[map]` for a lookup table, `[map|id]` for a lookup
    /// with an id fallback). `None` when the template is dynamic. Not
    /// machine-parseable; `urls` is the contract.
    pub template: Option<String>,
    /// Relative URLs exactly as the template renders them. `public_path` is
    /// deliberately not prepended.
    pub urls: Vec<ChunkUrl>,
}

#[derive(Debug, Clone, Copy, PartialEq, Eq, Structural)]
pub enum ChunkAssetKind {
    Js,
    Css,
}

#[derive(Debug, Clone, Copy, PartialEq, Eq, Structural)]
pub enum ChunkEnumerationStatus {
    /// Literal template with at least one static chunk-id source.
    Enumerated,
    /// Literal template, but no static lookup table and no literal `.e(id)`
    /// load sites: the ids cannot be known statically.
    NoStaticChunkIds,
    /// The filename function is not a pure literal template.
    DynamicTemplate,
}

/// One enumerated chunk URL.
#[derive(Debug, Clone, PartialEq, Eq)]
pub struct ChunkUrl {
    pub chunk_id: String,
    pub url: String,
    pub source: ChunkIdSource,
}

/// Where a chunk id was proven from.
#[derive(Debug, Clone, Copy, PartialEq, Eq, Structural)]
pub enum ChunkIdSource {
    /// A key of a lookup table inside the filename template itself.
    FilenameMap,
    /// A literal argument of a generated, binding-correlated
    /// `X.e(id).then(X.bind(...))` async chunk load.
    EnsureCall,
}

// ---------------------------------------------------------------------------
// Models
// ---------------------------------------------------------------------------

/// A relative import: its specifier and its kind.
pub type ImportView = (Seq<char>, RelativeImportKind);

impl View for RelativeImport {
    type V = ImportView;

    open spec fn view(&self) -> ImportView {
        (self.specifier@, self.kind)
    }
}

/// A public path fact, with the texts it carries.
pub enum PublicPathView {
    Static(Seq<char>),
    ScriptRelative(Seq<char>),
    RuntimeComputed,
    NotFound,
}

impl View for PublicPathFact {
    type V = PublicPathView;

    open spec fn view(&self) -> PublicPathView {
        match self {
            PublicPathFact::Static(path) => PublicPathView::Static(path@),
            PublicPathFact::ScriptRelative(suffix) => PublicPathView::ScriptRelative(suffix@),
            PublicPathFact::RuntimeComputed => PublicPathView::RuntimeComputed,
            PublicPathFact::NotFound => PublicPathView::NotFound,
        }
    }
}

impl PublicPathFact {
    /// A copy of the fact.
    pub fn copy(&self) -> (r: PublicPathFact)
        ensures
            r@ == self@,
    {
        match self {
            PublicPathFact::Static(path) => PublicPathFact::Static(path.clone()),
            PublicPathFact::ScriptRelative(suffix) => PublicPathFact::ScriptRelative(
                suffix.clone(),
            ),
            PublicPathFact::RuntimeComputed => PublicPathFact::RuntimeComputed,
            PublicPathFact::NotFound => PublicPathFact::NotFound,
        }
    }
}

/// A chunk URL, with the texts it carries.
pub struct ChunkUrlView {
    pub chunk_id: Seq<char>,
    pub url: Seq<char>,
    pub source: ChunkIdSource,
}

impl View for ChunkUrl {
    type V = ChunkUrlView;

    open spec fn view(&self) -> ChunkUrlView {
        ChunkUrlView { chunk_id: self.chunk_id@, url: self.url@, source: self.source }
    }
}

/// An asset enumeration, with the texts it carries.
pub struct ChunkAssetView {
    pub kind: ChunkAssetKind,
    pub status: ChunkEnumerationStatus,
    pub template: Option<Seq<char>>,
    pub urls: Seq<ChunkUrlView>,
}

impl View for ChunkAssetEnumeration {
    type V = ChunkAssetView;

    open spec fn view(&self) -> ChunkAssetView {
        ChunkAssetView {
            kind: self.kind,
            status: self.status,
            template: match self.template {
                Some(text) => Some(text@),
                None => None,
            },
            urls: self.urls@.map_values(|url: ChunkUrl| url@),
        }
    }
}

/// An enumeration, with the texts it carries.
pub struct ChunkEnumerationView {
    pub public_path: PublicPathView,
    pub assets: Seq<ChunkAssetView>,
    pub relative_imports: Seq<ImportView>,
}

/// The relative imports of a list, each taken by what it is.
pub open spec fn imports_view(imports: Seq<RelativeImport>) -> Seq<ImportView> {
    imports.map_values(|import: RelativeImport| import@)
}

impl View for ChunkEnumeration {
    type V = ChunkEnumerationView;

    open spec fn view(&self) -> ChunkEnumerationView {
        ChunkEnumerationView {
            public_path: self.public_path@,
            assets: self.assets@.map_values(|asset: ChunkAssetEnumeration| asset@),
            relative_imports: imports_view(self.relative_imports@),
        }
    }
}

/// An enumeration that may be absent, with the texts it carries.
pub open spec fn enumeration_view(
    enumeration: Option<ChunkEnumeration>,
) -> Option<ChunkEnumerationView> {
    match enumeration {
        Some(enumeration) => Some(enumeration@),
        None => None,
    }
}

// ---------------------------------------------------------------------------
// Merging
// ---------------------------------------------------------------------------

/// A webpack surface together with the relative imports of the same input.
pub open spec fn merged(
    webpack: Option<ChunkEnumerationView>,
    relative_imports: Seq<ImportView>,
) -> Option<ChunkEnumerationView> {
    match webpack {
        Some(enumeration) => Some(ChunkEnumerationView { relative_imports, ..enumeration }),
        None => if relative_imports.len() > 0 {
            Some(
                ChunkEnumerationView {
                    public_path: PublicPathView::NotFound,
                    assets: Seq::empty(),
                    relative_imports,
                },
            )
        } else {
            None
        },
    }
}

/// Merge a detected webpack runtime surface with format-independent literal
/// relative ESM references. Absence means that neither source produced a
/// fact.
pub fn merge(
    webpack: Option<ChunkEnumeration>,
    relative_imports: Vec<RelativeImport>,
) -> (r: Option<ChunkEnumeration>)
    ensures
        enumeration_view(r) == merged(
            enumeration_view(webpack),
            imports_view(relative_imports@),
        ),
{
    match webpack {
        Some(enumeration) => {
            let mut enumeration = enumeration;
            enumeration.relative_imports = relative_imports;
            Some(enumeration)
        },
        None => {
            if relative_imports.len() > 0 {
                let assets: Vec<ChunkAssetEnumeration> = Vec::new();
                proof {
                    assert(assets@.map_values(|asset: ChunkAssetEnumeration| asset@)
                        =~= Seq::<ChunkAssetView>::empty());
                }
                Some(
                    ChunkEnumeration {
                        public_path: PublicPathFact::NotFound,
                        assets,
                        relative_imports,
                    },
                )
            } else {
                None
            }
        },
    }
}

} // verus!
