//! Literal relative ESM specifiers.

use vstd::prelude::*;

use crate::ast::{
    only_string_argument, single_string_argument, CallExpr, Callee, Module, ModuleItem,
};
use crate::facts::{imports_view, ImportView, RelativeImport, RelativeImportKind};
use crate::text::{begins_with, str_view, text_eq};
use crate::walk::{item_sites, walk_item, Site};

verus! {

/// The specifier is relative.
pub open spec fn is_relative(specifier: Seq<char>) -> bool {
    "./"@.is_prefix_of(specifier) || "../"@.is_prefix_of(specifier)
}

/// Whether a specifier is relative.
pub fn is_relative_specifier(specifier: &str) -> (r: bool)
    ensures
        r == is_relative(specifier@),
{
    begins_with(specifier, "./") || begins_with(specifier, "../")
}

// ---------------------------------------------------------------------------
// References
// ---------------------------------------------------------------------------

/// The specifier of a static import or export-from declaration.
pub open spec fn static_reference(item: &ModuleItem) -> Option<ImportView> {
    match item {
        ModuleItem::Import(Some(src), _) => Some((src@, RelativeImportKind::Import)),
        ModuleItem::ExportNamed(Some(Some(src)), _) => Some((src@, RelativeImportKind::ExportFrom)),
        ModuleItem::ExportAll(Some(src), _) => Some((src@, RelativeImportKind::ExportFrom)),
        _ => None,
    }
}

/// The specifier of a call `import("...")` with a single string literal.
pub open spec fn dynamic_reference(call: &CallExpr) -> Option<ImportView> {
    match (&call.callee, only_string_argument(call)) {
        (Callee::Import, Some(specifier)) => Some((specifier, RelativeImportKind::DynamicImport)),
        _ => None,
    }
}

/// The specifiers of the dynamic imports among the sites, in order.
pub open spec fn dynamic_references(sites: Seq<Site>) -> Seq<ImportView>
    decreases sites.len(),
{
    if sites.len() == 0 {
        Seq::empty()
    } else {
        let before = dynamic_references(sites.drop_last());
        match sites.last() {
            Site::Call(call) => match dynamic_reference(call) {
                Some(reference) => before.push(reference),
                None => before,
            },
            _ => before,
        }
    }
}

/// The literal specifiers of a module item: that of a static declaration, then
/// those of the dynamic imports inside it, in source order.
pub open spec fn item_references(item: &ModuleItem) -> Seq<ImportView> {
    let inside = dynamic_references(item_sites(item));
    match static_reference(item) {
        Some(reference) => seq![reference] + inside,
        None => inside,
    }
}

/// The literal specifiers of the first `n` items of a module, in source order.
pub open spec fn items_references(v: &Vec<ModuleItem>, n: nat) -> Seq<ImportView>
    decreases n,
{
    if n == 0 || n > v@.len() {
        Seq::empty()
    } else {
        items_references(v, (n - 1) as nat) + item_references(&v@[n - 1])
    }
}

/// The literal specifiers of a module, in source order.
pub open spec fn module_references(module: &Module) -> Seq<ImportView> {
    items_references(&module.body, module.body@.len())
}

// ---------------------------------------------------------------------------
// Collecting
// ---------------------------------------------------------------------------

/// The imports after one more reference: a relative one is added, unless it
/// stands there already.
pub open spec fn recorded(imports: Seq<ImportView>, reference: ImportView) -> Seq<ImportView> {
    if is_relative(reference.0) && !imports.contains(reference) {
        imports.push(reference)
    } else {
        imports
    }
}

/// The imports after some more references, one after the other.
pub open spec fn collected(imports: Seq<ImportView>, references: Seq<ImportView>) -> Seq<ImportView>
    decreases references.len(),
{
    if references.len() == 0 {
        imports
    } else {
        recorded(collected(imports, references.drop_last()), references.last())
    }
}

/// The relative ones among the references, each at its first occurrence.
pub open spec fn relative_references(references: Seq<ImportView>) -> Seq<ImportView> {
    collected(Seq::empty(), references)
}

/// The relative imports found so far. No import stands there twice.
#[derive(Debug)]
pub struct SpecifierCollector {
    pub imports: Vec<RelativeImport>,
}

impl View for SpecifierCollector {
    type V = Seq<ImportView>;

    open spec fn view(&self) -> Seq<ImportView> {
        imports_view(self.imports@)
    }
}

impl SpecifierCollector {
    /// Each import is relative, and none stands there twice.
    pub open spec fn wf(&self) -> bool {
        &&& self@.no_duplicates()
        &&& forall|i: int| 0 <= i < self@.len() ==> is_relative((#[trigger] self@[i]).0)
    }

    /// A collector that has found nothing.
    pub fn new() -> (r: SpecifierCollector)
        ensures
            r@ == Seq::<ImportView>::empty(),
            r.wf(),
    {
        let r = SpecifierCollector { imports: Vec::new() };
        proof {
            assert(r@ =~= Seq::<ImportView>::empty());
        }
        r
    }

    /// Whether the import has been found already.
    fn seen(&self, specifier: &str, kind: RelativeImportKind) -> (r: bool)
        ensures
            r == self@.contains((specifier@, kind)),
    {
        let mut i: usize = 0;
        while i < self.imports.len()
            invariant
                i <= self.imports@.len(),
                forall|j: int| 0 <= j < i ==> (#[trigger] self@[j]) != (specifier@, kind),
            decreases self.imports@.len() - i,
        {
            proof {
                assert(self@[i as int] == self.imports@[i as int]@);
            }
            if self.imports[i].kind == kind && text_eq(
                self.imports[i].specifier.as_str(),
                specifier,
            ) {
                return true;
            }
            i = i + 1;
        }
        false
    }

    /// Record a specifier; one that is no literal text, is not relative or
    /// has been found already is left out.
    pub fn record(&mut self, specifier: Option<&str>, kind: RelativeImportKind)
        ensures
            final(self)@ == (match str_view(specifier) {
                Some(text) => recorded(old(self)@, (text, kind)),
                None => old(self)@,
            }),
            old(self).wf() ==> final(self).wf(),
    {
        let text = match specifier {
            Some(text) => text,
            None => {
                return ;
            },
        };
        if !is_relative_specifier(text) {
            return ;
        }
        if !self.seen(text, kind) {
            let import = RelativeImport { specifier: text.to_string(), kind };
            self.imports.push(import);
            proof {
                assert(self@ =~= old(self)@.push((text@, kind)));
            }
        }
    }

    /// The imports found, in the order in which they were found.
    pub fn into_imports(self) -> (r: Vec<RelativeImport>)
        ensures
            imports_view(r@) == self@,
    {
        self.imports
    }

    /// Record the specifier of a dynamic import.
    fn visit_call_expr(&mut self, call: &CallExpr)
        ensures
            final(self)@ == (match dynamic_reference(call) {
                Some(reference) => recorded(old(self)@, reference),
                None => old(self)@,
            }),
            old(self).wf() ==> final(self).wf(),
    {
        match &call.callee {
            Callee::Import => {
                self.record(single_string_argument(call), RelativeImportKind::DynamicImport);
            },
            _ => {},
        }
    }

    /// Record the specifier of a static import or export-from declaration.
    fn visit_declaration(&mut self, item: &ModuleItem)
        ensures
            final(self)@ == (match static_reference(item) {
                Some(reference) => recorded(old(self)@, reference),
                None => old(self)@,
            }),
            old(self).wf() ==> final(self).wf(),
    {
        match item {
            ModuleItem::Import(Some(src), _) => {
                self.record(Some(src.as_str()), RelativeImportKind::Import);
            },
            ModuleItem::ExportNamed(Some(Some(src)), _) => {
                self.record(Some(src.as_str()), RelativeImportKind::ExportFrom);
            },
            ModuleItem::ExportAll(Some(src), _) => {
                self.record(Some(src.as_str()), RelativeImportKind::ExportFrom);
            },
            _ => {},
        }
    }

    /// Record the specifiers of a module item.
    fn visit_item(&mut self, item: &ModuleItem)
        ensures
            final(self)@ == collected(old(self)@, item_references(item)),
            old(self).wf() ==> final(self).wf(),
    {
        let ghost before = self@;
        self.visit_declaration(item);
        let mut sites: Vec<Site> = Vec::new();
        walk_item(item, &mut sites);
        let ghost head = match static_reference(item) {
            Some(reference) => seq![reference],
            None => Seq::empty(),
        };
        proof {
            assert(sites@ =~= item_sites(item));
            assert(sites@.take(0) =~= Seq::<Site>::empty());
            assert(head + dynamic_references(sites@.take(0)) =~= head);
            assert(head.len() > 0 ==> head.drop_last() =~= Seq::<ImportView>::empty());
            assert(collected(before, Seq::empty()) == before);
        }
        let mut k: usize = 0;
        while k < sites.len()
            invariant
                k <= sites@.len(),
                self@ == collected(before, head + dynamic_references(sites@.take(k as int))),
                old(self).wf() ==> self.wf(),
            decreases sites@.len() - k,
        {
            let ghost inside = dynamic_references(sites@.take(k as int));
            proof {
                let taken = sites@.take(k + 1);
                assert(taken.drop_last() =~= sites@.take(k as int));
                assert(taken.last() == sites@[k as int]);
            }
            match &sites[k] {
                Site::Call(call) => {
                    self.visit_call_expr(call);
                    proof {
                        match dynamic_reference(call) {
                            Some(reference) => {
                                let all = head + inside.push(reference);
                                assert(all.drop_last() =~= head + inside);
                                assert(all.last() == reference);
                            },
                            None => {},
                        }
                    }
                },
                _ => {},
            }
            k = k + 1;
        }
        proof {
            assert(sites@.take(k as int) =~= sites@);
            assert(item_references(item) =~= head + dynamic_references(sites@));
        }
    }
}

/// Collect the literal *relative* module specifiers that the input imports
/// statically or by `import()`. For native ESM code splitting each such
/// specifier is the exact relative URL of a sibling chunk.
///
/// Only string literals are collected; `import(expr)`, `import("./" + x)` and
/// specifiers that are not relative (bare packages, absolute URLs,
/// protocol-relative ones) are ignored. Each specifier is listed once for each
/// of its kinds, so a URL used both eagerly and lazily retains both facts; the
/// order is source order.
pub fn collect_relative_import_specifiers(module: &Module) -> (r: Vec<RelativeImport>)
    ensures
        imports_view(r@) == relative_references(module_references(module)),
{
    let mut collector = SpecifierCollector::new();
    let mut i: usize = 0;
    while i < module.body.len()
        invariant
            i <= module.body@.len(),
            collector@ == relative_references(items_references(&module.body, i as nat)),
        decreases module.body@.len() - i,
    {
        proof {
            lemma_collected_in_turn(
                Seq::empty(),
                items_references(&module.body, i as nat),
                item_references(&module.body@[i as int]),
            );
        }
        collector.visit_item(&module.body[i]);
        i = i + 1;
    }
    collector.into_imports()
}

/// Collecting some references and then others is collecting both in turn.
pub proof fn lemma_collected_in_turn(
    imports: Seq<ImportView>,
    first: Seq<ImportView>,
    second: Seq<ImportView>,
)
    ensures
        collected(imports, first + second) == collected(collected(imports, first), second),
    decreases second.len(),
{
    if second.len() == 0 {
        assert(first + second =~= first);
    } else {
        assert((first + second).drop_last() =~= first + second.drop_last());
        lemma_collected_in_turn(imports, first, second.drop_last());
    }
}

} // verus!
