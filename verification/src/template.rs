//! Chunk filename templates.
//!
//! A filename function concatenates string literals, the chunk id and object
//! literal lookups keyed by the chunk id. A function of that shape is a
//! literal template; any other part makes it dynamic. So does a sum that may
//! add up numbers, and an async function or a generator, whose calls return
//! something else than the concatenation.

use vstd::prelude::*;

use crate::ast::{
    ident_is, is_ident_of, member_prop_is, names_prop, string_literal, string_text, strip_parens,
    stripped, ArrowExpr, ArrowFunctionBody, BinaryOp, Binding, Expr, Function, Id, Ident, Lit,
    MemberExpr, MemberProp, Param, Pat, Prop, PropName, Stmt, Tpl,
};
use crate::number::{integer_of, integer_string, integer_text, integer_value};
use crate::prototype::{has_prototype_key, spells_prototype};
use crate::text::text_view;

verus! {

/// A lookup table of a template: chunk ids and their texts, in source order.
/// Of two entries for one chunk id the later one counts.
#[derive(Debug)]
pub struct ChunkTable {
    pub entries: Vec<(String, String)>,
}

/// The mapping that a list of entries spells out.
pub open spec fn entries_map(entries: Seq<(String, String)>) -> Map<Seq<char>, Seq<char>>
    decreases entries.len(),
{
    if entries.len() == 0 {
        Map::empty()
    } else {
        entries_map(entries.drop_last()).insert(entries.last().0@, entries.last().1@)
    }
}

impl View for ChunkTable {
    type V = Map<Seq<char>, Seq<char>>;

    open spec fn view(&self) -> Map<Seq<char>, Seq<char>> {
        entries_map(self.entries@)
    }
}

/// A table that may be absent, by its mapping.
pub open spec fn table_view(table: Option<ChunkTable>) -> Option<Map<Seq<char>, Seq<char>>> {
    match table {
        Some(table) => Some(table@),
        None => None,
    }
}

/// A key of the mapping stands in the list of entries.
proof fn lemma_entries_map_keys(entries: Seq<(String, String)>, key: Seq<char>)
    ensures
        entries_map(entries).contains_key(key) <==> exists|i: int|
            0 <= i < entries.len() && #[trigger] entries[i].0@ == key,
    decreases entries.len(),
{
    if entries.len() > 0 {
        let rest = entries.drop_last();
        lemma_entries_map_keys(rest, key);
        if entries_map(entries).contains_key(key) {
            if entries.last().0@ == key {
                assert(entries[entries.len() - 1].0@ == key);
            } else {
                let i = choose|i: int| 0 <= i < rest.len() && #[trigger] rest[i].0@ == key;
                assert(entries[i].0@ == key);
            }
        }
        if exists|i: int| 0 <= i < entries.len() && #[trigger] entries[i].0@ == key {
            let i = choose|i: int| 0 <= i < entries.len() && #[trigger] entries[i].0@ == key;
            if i < rest.len() {
                assert(rest[i].0@ == key);
            }
        }
    }
}

impl ChunkTable {
    /// A table without entries.
    pub fn new() -> (r: ChunkTable)
        ensures
            r@ == Map::<Seq<char>, Seq<char>>::empty(),
    {
        ChunkTable { entries: Vec::new() }
    }

    /// Enter a text for a chunk id, in place of an earlier one.
    pub fn insert(&mut self, key: String, value: String)
        ensures
            final(self)@ == old(self)@.insert(key@, value@),
    {
        self.entries.push((key, value));
        proof {
            assert(self.entries@.drop_last() == old(self).entries@);
        }
    }

    /// The text for a chunk id.
    pub fn get(&self, key: &String) -> (r: Option<&String>)
        ensures
            match r {
                Some(value) => self@.contains_key(key@) && self@[key@] == value@,
                None => !self@.contains_key(key@),
            },
    {
        let mut n: usize = self.entries.len();
        proof {
            assert(self.entries@.take(n as int) == self.entries@);
        }
        while n > 0
            invariant
                n <= self.entries@.len(),
                self@.contains_key(key@) == entries_map(self.entries@.take(n as int)).contains_key(
                    key@,
                ),
                self@.contains_key(key@) ==> self@[key@] == entries_map(
                    self.entries@.take(n as int),
                )[key@],
            decreases n,
        {
            proof {
                let taken = self.entries@.take(n as int);
                assert(taken.drop_last() == self.entries@.take(n - 1));
                assert(taken.last() == self.entries@[n - 1]);
            }
            if self.entries[n - 1].0 == *key {
                return Some(&self.entries[n - 1].1);
            }
            n = n - 1;
        }
        None
    }

    /// Whether each entry of this table that counts is an entry of `other`.
    fn within(&self, other: &ChunkTable) -> (r: bool)
        ensures
            r == self@.submap_of(other@),
    {
        let mut i: usize = 0;
        while i < self.entries.len()
            invariant
                i <= self.entries@.len(),
                forall|j: int|
                    0 <= j < i ==> {
                        let key = #[trigger] self.entries@[j].0@;
                        &&& other@.contains_key(key)
                        &&& other@[key] == self@[key]
                    },
            decreases self.entries@.len() - i,
        {
            let ghost key = self.entries@[i as int].0@;
            proof {
                lemma_entries_map_keys(self.entries@, key);
            }
            match (self.get(&self.entries[i].0), other.get(&self.entries[i].0)) {
                (Some(mine), Some(theirs)) => {
                    if *mine != *theirs {
                        proof {
                            assert(self@.dom().contains(key) && other@[key] != self@[key]);
                        }
                        return false;
                    }
                },
                _ => {
                    proof {
                        assert(self@.dom().contains(key));
                        assert(!other@.dom().contains(key));
                    }
                    return false;
                },
            }
            i = i + 1;
        }
        proof {
            assert forall|key: Seq<char>| #[trigger]
                self@.dom().contains(key) implies other@.dom().contains(key) && self@[key]
                == other@[key] by {
                lemma_entries_map_keys(self.entries@, key);
                let j = choose|j: int|
                    0 <= j < self.entries@.len() && #[trigger] self.entries@[j].0@ == key;
                assert(self.entries@[j].0@ == key);
            }
        }
        true
    }

    /// Whether two tables are the same mapping.
    pub fn same(&self, other: &ChunkTable) -> (r: bool)
        ensures
            r == (self@ == other@),
    {
        let r = self.within(other) && other.within(self);
        proof {
            if r {
                assert forall|key: Seq<char>|
                    self@.dom().contains(key) == other@.dom().contains(key) by {}
                assert(self@ =~= other@);
            }
        }
        r
    }

    /// A copy of the table.
    pub fn copy(&self) -> (r: ChunkTable)
        ensures
            r@ == self@,
    {
        let mut entries: Vec<(String, String)> = Vec::new();
        let mut i: usize = 0;
        while i < self.entries.len()
            invariant
                i == entries@.len(),
                i <= self.entries@.len(),
                entries@ == self.entries@.take(i as int),
            decreases self.entries@.len() - i,
        {
            entries.push((self.entries[i].0.clone(), self.entries[i].1.clone()));
            i = i + 1;
        }
        proof {
            assert(self.entries@.take(i as int) == self.entries@);
        }
        ChunkTable { entries }
    }
}

/// One segment of a literal chunk filename template.
#[derive(Debug)]
pub enum Segment {
    Lit(String),
    ChunkId,
    Table {
        entries: ChunkTable,
        /// `{...}[chunkId] || chunkId`: ids absent from the table render as
        /// themselves instead of excluding the id, as do those whose entry
        /// counts as false.
        fallback: bool,
    },
}

/// What a segment is: its texts and its mapping.
pub enum SegmentView {
    Lit(Seq<char>),
    ChunkId,
    Table { entries: Map<Seq<char>, Seq<char>>, fallback: bool },
}

impl View for Segment {
    type V = SegmentView;

    open spec fn view(&self) -> SegmentView {
        match self {
            Segment::Lit(text) => SegmentView::Lit(text@),
            Segment::ChunkId => SegmentView::ChunkId,
            Segment::Table { entries, fallback } => SegmentView::Table {
                entries: entries@,
                fallback: *fallback,
            },
        }
    }
}

/// The segments of a template, each taken by what it is.
pub open spec fn segments_view(segments: Seq<Segment>) -> Seq<SegmentView> {
    segments.map_values(|segment: Segment| segment@)
}

impl Segment {
    /// Whether two segments are the same.
    pub fn same(&self, other: &Segment) -> (r: bool)
        ensures
            r == (self@ == other@),
    {
        match (self, other) {
            (Segment::Lit(a), Segment::Lit(b)) => *a == *b,
            (Segment::ChunkId, Segment::ChunkId) => true,
            (
                Segment::Table { entries: a, fallback: f },
                Segment::Table { entries: b, fallback: g },
            ) => *f == *g && a.same(b),
            _ => false,
        }
    }

    /// A copy of the segment.
    pub fn copy(&self) -> (r: Segment)
        ensures
            r@ == self@,
    {
        match self {
            Segment::Lit(text) => Segment::Lit(text.clone()),
            Segment::ChunkId => Segment::ChunkId,
            Segment::Table { entries, fallback } => Segment::Table {
                entries: entries.copy(),
                fallback: *fallback,
            },
        }
    }
}

/// Whether two templates have the same segments.
pub fn same_segments(a: &Vec<Segment>, b: &Vec<Segment>) -> (r: bool)
    ensures
        r == (segments_view(a@) == segments_view(b@)),
{
    if a.len() != b.len() {
        proof {
            assert(segments_view(a@).len() != segments_view(b@).len());
        }
        return false;
    }
    let mut i: usize = 0;
    while i < a.len()
        invariant
            i <= a@.len() == b@.len(),
            forall|j: int| 0 <= j < i ==> (#[trigger] a@[j])@ == b@[j]@,
        decreases a@.len() - i,
    {
        if !a[i].same(&b[i]) {
            proof {
                assert(segments_view(a@)[i as int] != segments_view(b@)[i as int]);
            }
            return false;
        }
        i = i + 1;
    }
    proof {
        assert(segments_view(a@) =~= segments_view(b@));
    }
    true
}

/// A copy of the segments of a template.
pub fn copy_segments(segments: &Vec<Segment>) -> (r: Vec<Segment>)
    ensures
        segments_view(r@) == segments_view(segments@),
{
    let mut r: Vec<Segment> = Vec::new();
    let mut i: usize = 0;
    while i < segments.len()
        invariant
            i == r@.len(),
            i <= segments@.len(),
            forall|j: int| 0 <= j < i ==> (#[trigger] r@[j])@ == segments@[j]@,
        decreases segments@.len() - i,
    {
        r.push(segments[i].copy());
        i = i + 1;
    }
    proof {
        assert(segments_view(r@) =~= segments_view(segments@));
    }
    r
}

// ---------------------------------------------------------------------------
// Filename functions
// ---------------------------------------------------------------------------

/// The expression that a body returns, if a return is all there is in it.
pub open spec fn returned_expr<'a>(stmts: &'a Vec<Stmt>) -> Option<&'a Expr> {
    if stmts@.len() == 1 {
        match &stmts@[0] {
            Stmt::Return(Some(arg)) => Some(stripped(arg)),
            _ => None,
        }
    } else {
        None
    }
}

/// The binding of the only parameter, if it is a plain identifier.
pub open spec fn only_param(params: &Vec<Param>) -> Option<Binding> {
    if params@.len() == 1 {
        match &params@[0].pat {
            Pat::Ident(ident) => Some(ident.binding()),
            _ => None,
        }
    } else {
        None
    }
}

/// The parameter and the returned expression of a one-parameter arrow
/// function whose body is a single expression.
pub open spec fn arrow_shape<'a>(arrow: &'a ArrowExpr) -> Option<(Binding, &'a Expr)> {
    match (
        only_param(&arrow.params),
        match &arrow.body {
            ArrowFunctionBody::Expr(inner) => Some(stripped(inner)),
            ArrowFunctionBody::FunctionBody(stmts) => returned_expr(stmts),
        },
    ) {
        (Some(param), Some(body)) => Some((param, body)),
        _ => None,
    }
}

/// The parameter and the returned expression of a one-parameter function
/// whose body is a single return.
pub open spec fn function_shape<'a>(function: &'a Function) -> Option<(Binding, &'a Expr)> {
    match (
        only_param(&function.params),
        match &function.body {
            Some(stmts) => returned_expr(stmts),
            None => None,
        },
    ) {
        (Some(param), Some(body)) => Some((param, body)),
        _ => None,
    }
}

/// The parameter and the returned expression of a filename function.
pub open spec fn filename_fn_shape<'a>(expr: &'a Expr) -> Option<(Binding, &'a Expr)> {
    match stripped(expr) {
        Expr::Arrow(arrow) => arrow_shape(arrow),
        Expr::Fn(function) => function_shape(function),
        _ => None,
    }
}

/// The parts of a split function, by what they are.
pub open spec fn parts_view<'a>(parts: Option<(Id, &'a Expr)>) -> Option<(Binding, &'a Expr)> {
    match parts {
        Some((param, body)) => Some((param@, body)),
        None => None,
    }
}

/// The expression that a body returns, if a return is all there is in it.
pub fn single_return_expr<'a>(stmts: &'a Vec<Stmt>) -> (r: Option<&'a Expr>)
    ensures
        r == returned_expr(stmts),
{
    if stmts.len() != 1 {
        return None;
    }
    match &stmts[0] {
        Stmt::Return(Some(arg)) => Some(strip_parens(arg)),
        _ => None,
    }
}

/// The id of the only parameter, if it is a plain identifier.
fn only_param_id(params: &Vec<Param>) -> (r: Option<Id>)
    ensures
        match r {
            Some(id) => only_param(params) == Some(id@),
            None => only_param(params) is None,
        },
{
    if params.len() != 1 {
        return None;
    }
    match &params[0].pat {
        Pat::Ident(ident) => Some(ident.to_id()),
        _ => None,
    }
}

/// Split a one-parameter arrow function with a single-expression body into
/// its parameter and the returned expression.
pub fn arrow_parts<'a>(arrow: &'a ArrowExpr) -> (r: Option<(Id, &'a Expr)>)
    ensures
        parts_view(r) == arrow_shape(arrow),
{
    let param = match only_param_id(&arrow.params) {
        Some(param) => param,
        None => {
            return None;
        },
    };
    match &arrow.body {
        ArrowFunctionBody::Expr(inner) => Some((param, strip_parens(inner))),
        ArrowFunctionBody::FunctionBody(stmts) => match single_return_expr(stmts) {
            Some(body) => Some((param, body)),
            None => None,
        },
    }
}

/// Split a one-parameter function with a single-return body into its
/// parameter and the returned expression.
pub fn function_parts<'a>(function: &'a Function) -> (r: Option<(Id, &'a Expr)>)
    ensures
        parts_view(r) == function_shape(function),
{
    let param = match only_param_id(&function.params) {
        Some(param) => param,
        None => {
            return None;
        },
    };
    match &function.body {
        Some(stmts) => match single_return_expr(stmts) {
            Some(body) => Some((param, body)),
            None => None,
        },
        None => None,
    }
}

/// Split a candidate filename function into its parameter and the returned
/// expression.
pub fn filename_fn_parts<'a>(expr: &'a Expr) -> (r: Option<(Id, &'a Expr)>)
    ensures
        parts_view(r) == filename_fn_shape(expr),
{
    match strip_parens(expr) {
        Expr::Arrow(arrow) => arrow_parts(arrow),
        Expr::Fn(function) => function_parts(function),
        _ => None,
    }
}

// ---------------------------------------------------------------------------
// Literal parts
// ---------------------------------------------------------------------------

/// The text of a literal chunk id or table value: a string, or a number that
/// is a non-negative integer.
pub open spec fn literal_text(expr: &Expr) -> Option<Seq<char>> {
    match stripped(expr) {
        Expr::Lit(Lit::Str(Some(text))) => Some(text@),
        Expr::Lit(Lit::Num(bits)) => integer_text(*bits),
        _ => None,
    }
}

/// The text of a literal chunk id or table value.
pub fn literal_string(expr: &Expr) -> (r: Option<String>)
    ensures
        text_view(r) == literal_text(expr),
{
    match strip_parens(expr) {
        Expr::Lit(Lit::Str(Some(text))) => Some(text.clone()),
        Expr::Lit(Lit::Num(bits)) => integer_string(*bits),
        _ => None,
    }
}

/// The literal counts as false in a condition: it is the empty text or the
/// number zero.
pub open spec fn is_falsy(expr: &Expr) -> bool {
    match stripped(expr) {
        Expr::Lit(Lit::Str(Some(text))) => text@.len() == 0,
        Expr::Lit(Lit::Num(bits)) => integer_value(*bits) == Some(0nat),
        _ => false,
    }
}

/// Whether the literal counts as false in a condition.
pub fn counts_as_false(expr: &Expr) -> (r: bool)
    ensures
        r == is_falsy(expr),
{
    match strip_parens(expr) {
        Expr::Lit(Lit::Str(Some(text))) => text.as_str().is_empty(),
        Expr::Lit(Lit::Num(bits)) => match integer_of(*bits) {
            Some(n) => n == 0,
            None => false,
        },
        _ => false,
    }
}

/// The text of a literal key of an object literal.
pub open spec fn key_text(key: &PropName) -> Option<Seq<char>> {
    match key {
        PropName::Ident(sym) => Some(sym@),
        PropName::Str(Some(text)) => Some(text@),
        PropName::Num(bits) => integer_text(*bits),
        _ => None,
    }
}

fn key_string(key: &PropName) -> (r: Option<String>)
    ensures
        text_view(r) == key_text(key),
{
    match key {
        PropName::Ident(sym) => Some(sym.clone()),
        PropName::Str(Some(text)) => Some(text.clone()),
        PropName::Num(bits) => integer_string(*bits),
        _ => None,
    }
}

/// The key and the text of a member of an object literal, if both its key and
/// its value are literal. Where the lookup has a fallback to the key, a value
/// that counts as false has the key for its text.
pub open spec fn entry_texts(prop: &Prop, fallback: bool) -> Option<(Seq<char>, Seq<char>)> {
    match prop {
        Prop::KeyValue(key_value) => match (
            key_text(&key_value.key),
            literal_text(&key_value.value),
        ) {
            (Some(key), Some(value)) => if fallback && is_falsy(&key_value.value) {
                Some((key, key))
            } else {
                Some((key, value))
            },
            _ => None,
        },
        Prop::Other(_) => None,
    }
}

/// The mapping that the first `n` members of an object literal spell out, if
/// each of them is a literal entry.
pub open spec fn object_map(props: &Vec<Prop>, n: nat, fallback: bool) -> Option<
    Map<Seq<char>, Seq<char>>,
>
    decreases n,
{
    if n == 0 || n > props@.len() {
        Some(Map::empty())
    } else {
        match (
            object_map(props, (n - 1) as nat, fallback),
            entry_texts(&props@[n - 1], fallback),
        ) {
            (Some(map), Some((key, value))) => Some(map.insert(key, value)),
            _ => None,
        }
    }
}

/// A member that is no literal entry leaves the whole table without one.
proof fn lemma_object_map_fails(props: &Vec<Prop>, i: nat, n: nat, fallback: bool)
    requires
        i <= n <= props@.len(),
        object_map(props, i, fallback) is None,
    ensures
        object_map(props, n, fallback) is None,
    decreases n,
{
    if i < n {
        lemma_object_map_fails(props, i, (n - 1) as nat, fallback);
    }
}

/// Read an object literal as a table from chunk ids to literal texts. Any
/// non-literal key or value fails the whole table. Where the lookup has a
/// fallback to the chunk id, an entry that counts as false is the chunk id.
pub fn object_literal_entries(props: &Vec<Prop>, fallback: bool) -> (r: Option<ChunkTable>)
    ensures
        table_view(r) == object_map(props, props@.len(), fallback),
{
    let mut table = ChunkTable::new();
    let mut i: usize = 0;
    while i < props.len()
        invariant
            i <= props@.len(),
            object_map(props, i as nat, fallback) == Some(table@),
        decreases props@.len() - i,
    {
        let entry = match &props[i] {
            Prop::KeyValue(key_value) => match (
                key_string(&key_value.key),
                literal_string(&key_value.value),
            ) {
                (Some(key), Some(value)) => if fallback && counts_as_false(&key_value.value) {
                    Some((key.clone(), key))
                } else {
                    Some((key, value))
                },
                _ => None,
            },
            Prop::Other(_) => None,
        };
        match entry {
            Some((key, value)) => {
                table.insert(key, value);
            },
            None => {
                proof {
                    lemma_object_map_fails(props, (i + 1) as nat, props@.len(), fallback);
                }
                return None;
            },
        }
        i = i + 1;
    }
    Some(table)
}

/// The mapping of `{...literal entries...}[chunkId]`, with or without a
/// fallback to the chunk id.
pub open spec fn lookup_map(expr: &Expr, param: Binding, fallback: bool) -> Option<
    Map<Seq<char>, Seq<char>>,
> {
    match stripped(expr) {
        Expr::Member(member) => match (stripped(&member.obj), &member.prop) {
            (Expr::Object(props), MemberProp::Computed(key)) => if is_ident_of(key, param) {
                object_map(props, props@.len(), fallback)
            } else {
                None
            },
            _ => None,
        },
        _ => None,
    }
}

/// Match `{...literal entries...}[chunkId]` and return its table.
pub fn map_lookup_entries(expr: &Expr, param: &Id, fallback: bool) -> (r: Option<ChunkTable>)
    ensures
        table_view(r) == lookup_map(expr, param@, fallback),
{
    match strip_parens(expr) {
        Expr::Member(member) => match (strip_parens(&member.obj), &member.prop) {
            (Expr::Object(props), MemberProp::Computed(key)) => if ident_is(key, param) {
                object_literal_entries(props, fallback)
            } else {
                None
            },
            _ => None,
        },
        _ => None,
    }
}

// ---------------------------------------------------------------------------
// Templates
// ---------------------------------------------------------------------------

/// Two templates, one after the other; nothing if either is dynamic.
pub open spec fn joined(
    a: Option<Seq<SegmentView>>,
    b: Option<Seq<SegmentView>>,
) -> Option<Seq<SegmentView>> {
    match (a, b) {
        (Some(a), Some(b)) => Some(a + b),
        _ => None,
    }
}

/// A template of one segment.
pub open spec fn one_segment(segment: SegmentView) -> Option<Seq<SegmentView>> {
    Some(seq![segment])
}

/// A template that is one lookup table; nothing if there is no table.
pub open spec fn table_segment(
    entries: Option<Map<Seq<char>, Seq<char>>>,
    fallback: bool,
) -> Option<Seq<SegmentView>> {
    match entries {
        Some(entries) => one_segment(SegmentView::Table { entries, fallback }),
        None => None,
    }
}

/// The literal template that an expression over the chunk id parameter is,
/// or nothing if the expression is dynamic: a concatenation of string
/// literals, the parameter, and literal lookups keyed by the parameter.
pub open spec fn template_of(expr: &Expr, param: Binding) -> Option<Seq<SegmentView>>
    decreases expr, 0nat,
{
    match expr {
        Expr::Paren(inner) => template_of(inner, param),
        Expr::Lit(Lit::Str(Some(text))) => one_segment(SegmentView::Lit(text@)),
        Expr::Ident(ident) => if ident.binding() == param {
            one_segment(SegmentView::ChunkId)
        } else {
            None
        },
        Expr::Bin(bin) => match bin.op {
            BinaryOp::Add => joined(template_of(&bin.left, param), template_of(&bin.right, param)),
            BinaryOp::LogicalOr => if is_ident_of(&bin.right, param) {
                table_segment(lookup_map(&bin.left, param, true), true)
            } else {
                None
            },
            _ => None,
        },
        Expr::Member(_) => table_segment(lookup_map(expr, param, false), false),
        Expr::Tpl(tpl) => tpl_template(tpl, param, tpl.quasis@.len()),
        _ => None,
    }
}

/// The template of the first `n` literal parts of a template literal, each
/// with the expression that follows it.
pub open spec fn tpl_template(tpl: &Tpl, param: Binding, n: nat) -> Option<Seq<SegmentView>>
    decreases tpl, n,
{
    if n == 0 || n > tpl.quasis@.len() {
        Some(Seq::empty())
    } else {
        joined(
            joined(
                tpl_template(tpl, param, (n - 1) as nat),
                match tpl.quasis@[n - 1] {
                    Some(cooked) => one_segment(SegmentView::Lit(cooked@)),
                    None => None,
                },
            ),
            if n <= tpl.exprs@.len() {
                template_of(&tpl.exprs@[n - 1], param)
            } else {
                Some(Seq::empty())
            },
        )
    }
}

proof fn lemma_tpl_template_fails(tpl: &Tpl, param: Binding, i: nat, n: nat)
    requires
        i <= n <= tpl.quasis@.len(),
        tpl_template(tpl, param, i) is None,
    ensures
        tpl_template(tpl, param, n) is None,
    decreases n,
{
    if i < n {
        lemma_tpl_template_fails(tpl, param, i, (n - 1) as nat);
    }
}

/// The segments of a template that may be dynamic, by what they are.
pub open spec fn template_view(segments: Option<Vec<Segment>>) -> Option<Seq<SegmentView>> {
    match segments {
        Some(segments) => Some(segments_view(segments@)),
        None => None,
    }
}

fn one(segment: Segment) -> (r: Option<Vec<Segment>>)
    ensures
        template_view(r) == one_segment(segment@),
{
    let mut segments: Vec<Segment> = Vec::new();
    segments.push(segment);
    proof {
        assert(segments_view(segments@) =~= seq![segment@]);
    }
    Some(segments)
}

fn one_table(entries: Option<ChunkTable>, fallback: bool) -> (r: Option<Vec<Segment>>)
    ensures
        template_view(r) == table_segment(table_view(entries), fallback),
{
    match entries {
        Some(entries) => one(Segment::Table { entries, fallback }),
        None => None,
    }
}

/// Two templates, one after the other; `None` if either is dynamic.
pub fn join(a: Option<Vec<Segment>>, b: Option<Vec<Segment>>) -> (r: Option<Vec<Segment>>)
    ensures
        template_view(r) == joined(template_view(a), template_view(b)),
{
    match (a, b) {
        (Some(a), Some(b)) => {
            let mut segments = a;
            let mut rest = b;
            segments.append(&mut rest);
            proof {
                assert(segments_view(segments@) =~= segments_view(a@) + segments_view(b@));
            }
            Some(segments)
        },
        _ => None,
    }
}

/// Fold a concatenation into the segments of a literal template. The result
/// is `None` (dynamic) when some part is not a string literal, the chunk id
/// parameter, or a literal lookup keyed by that parameter. Every sum is
/// folded like a concatenation; `sums_concatenate` tells whether it is one.
pub fn parse_segments(expr: &Expr, param: &Id) -> (r: Option<Vec<Segment>>)
    ensures
        template_view(r) == template_of(expr, param@),
    decreases expr, 0nat,
{
    match expr {
        Expr::Paren(inner) => parse_segments(inner, param),
        Expr::Lit(Lit::Str(Some(text))) => one(Segment::Lit(text.clone())),
        Expr::Ident(ident) => if ident.to_id().same(param) {
            one(Segment::ChunkId)
        } else {
            None
        },
        Expr::Bin(bin) => match bin.op {
            BinaryOp::Add => {
                let left = match parse_segments(&bin.left, param) {
                    Some(left) => left,
                    None => {
                        return None;
                    },
                };
                let right = parse_segments(&bin.right, param);
                join(Some(left), right)
            },
            BinaryOp::LogicalOr => {
                if ident_is(&bin.right, param) {
                    one_table(map_lookup_entries(&bin.left, param, true), true)
                } else {
                    None
                }
            },
            _ => None,
        },
        Expr::Member(_) => one_table(map_lookup_entries(expr, param, false), false),
        Expr::Tpl(tpl) => parse_tpl(tpl, param),
        _ => None,
    }
}

/// Interleave the literal parts and the expressions of a template literal.
fn parse_tpl(tpl: &Tpl, param: &Id) -> (r: Option<Vec<Segment>>)
    ensures
        template_view(r) == tpl_template(tpl, param@, tpl.quasis@.len()),
    decreases tpl, 1nat,
{
    let mut segments: Vec<Segment> = Vec::new();
    let mut i: usize = 0;
    proof {
        assert(segments_view(segments@) =~= Seq::<SegmentView>::empty());
    }
    while i < tpl.quasis.len()
        invariant
            i <= tpl.quasis@.len(),
            template_view(Some(segments)) == tpl_template(tpl, param@, i as nat),
        decreases tpl.quasis@.len() - i,
    {
        let quasi = match &tpl.quasis[i] {
            Some(cooked) => one(Segment::Lit(cooked.clone())),
            None => None,
        };
        let part = if i < tpl.exprs.len() {
            parse_segments(&tpl.exprs[i], param)
        } else {
            proof {
                assert(segments_view(Seq::<Segment>::empty()) =~= Seq::<SegmentView>::empty());
            }
            Some(Vec::new())
        };
        match join(join(Some(segments), quasi), part) {
            Some(next) => {
                segments = next;
            },
            None => {
                proof {
                    lemma_tpl_template_fails(tpl, param@, (i + 1) as nat, tpl.quasis@.len());
                }
                return None;
            },
        }
        i = i + 1;
    }
    Some(segments)
}

// ---------------------------------------------------------------------------
// Sums
// ---------------------------------------------------------------------------

/// The members of the object literal in `{...}[chunkId]`.
pub open spec fn lookup_props<'a>(expr: &'a Expr, param: Binding) -> Option<&'a Vec<Prop>> {
    match stripped(expr) {
        Expr::Member(member) => match (stripped(&member.obj), &member.prop) {
            (Expr::Object(props), MemberProp::Computed(key)) => if is_ident_of(key, param) {
                Some(props)
            } else {
                None
            },
            _ => None,
        },
        _ => None,
    }
}

/// The member of an object literal has a text for its value.
pub open spec fn has_text_value(prop: &Prop) -> bool {
    match prop {
        Prop::KeyValue(key_value) => string_text(&key_value.value) is Some,
        Prop::Other(_) => false,
    }
}

/// The table has nothing but texts for its values.
pub open spec fn has_only_texts(props: &Vec<Prop>) -> bool {
    forall|i: int| 0 <= i < props@.len() ==> has_text_value(&#[trigger] props@[i])
}

/// The object of `X.p`, the public path of a plain identifier.
pub open spec fn path_object(member: &MemberExpr) -> Option<Binding> {
    match &*member.obj {
        Expr::Ident(object) => if names_prop(&member.prop, "p"@) {
            Some(object.binding())
        } else {
            None
        },
        _ => None,
    }
}

/// The value of the expression is surely a text, and no number: a string or
/// template literal, a lookup of nothing but texts, a public path, or a sum
/// with such an operand. The chunk id may be a number.
pub open spec fn is_text(expr: &Expr, param: Binding) -> bool
    decreases expr,
{
    match expr {
        Expr::Paren(inner) => is_text(inner, param),
        Expr::Lit(lit) => lit is Str,
        Expr::Tpl(_) => true,
        Expr::Bin(bin) => bin.op == BinaryOp::Add && (is_text(&bin.left, param) || is_text(
            &bin.right,
            param,
        )),
        Expr::Member(member) => match lookup_props(expr, param) {
            Some(props) => has_only_texts(props),
            None => path_object(member) is Some,
        },
        _ => false,
    }
}

/// Every sum in a template is a concatenation: one of its operands is surely a
/// text. Two numbers would be added up instead.
pub open spec fn only_concatenates(expr: &Expr, param: Binding) -> bool
    decreases expr, 0nat,
{
    match expr {
        Expr::Paren(inner) => only_concatenates(inner, param),
        Expr::Bin(bin) => bin.op == BinaryOp::Add ==> {
            &&& only_concatenates(&bin.left, param)
            &&& only_concatenates(&bin.right, param)
            &&& is_text(&bin.left, param) || is_text(&bin.right, param)
        },
        Expr::Tpl(tpl) => tpl_only_concatenates(tpl, param, tpl.exprs@.len()),
        _ => true,
    }
}

/// Every sum in the first `n` expressions of a template literal is a
/// concatenation.
pub open spec fn tpl_only_concatenates(tpl: &Tpl, param: Binding, n: nat) -> bool
    decreases tpl, n,
{
    if n == 0 || n > tpl.exprs@.len() {
        true
    } else {
        tpl_only_concatenates(tpl, param, (n - 1) as nat) && only_concatenates(
            &tpl.exprs@[n - 1],
            param,
        )
    }
}

/// The object of `X.p`.
pub fn public_path_object<'a>(member: &'a MemberExpr) -> (r: Option<&'a Ident>)
    ensures
        match r {
            Some(object) => path_object(member) == Some(object.binding()),
            None => path_object(member) is None,
        },
{
    match &*member.obj {
        Expr::Ident(object) => if member_prop_is(&member.prop, "p") {
            Some(object)
        } else {
            None
        },
        _ => None,
    }
}

/// Whether a table has nothing but texts for its values.
fn are_text_values(props: &Vec<Prop>) -> (r: bool)
    ensures
        r == has_only_texts(props),
{
    let mut i: usize = 0;
    while i < props.len()
        invariant
            i <= props@.len(),
            forall|j: int| 0 <= j < i ==> has_text_value(&#[trigger] props@[j]),
        decreases props@.len() - i,
    {
        let text = match &props[i] {
            Prop::KeyValue(key_value) => string_literal(&key_value.value).is_some(),
            Prop::Other(_) => false,
        };
        if !text {
            proof {
                assert(!has_text_value(&props@[i as int]));
            }
            return false;
        }
        i = i + 1;
    }
    true
}

/// Whether the value of the expression is surely a text.
pub fn is_surely_text(expr: &Expr, param: &Id) -> (r: bool)
    ensures
        r == is_text(expr, param@),
    decreases expr,
{
    match expr {
        Expr::Paren(inner) => is_surely_text(inner, param),
        Expr::Lit(lit) => matches!(lit, Lit::Str(_)),
        Expr::Tpl(_) => true,
        Expr::Bin(bin) => bin.op == BinaryOp::Add && (is_surely_text(&bin.left, param)
            || is_surely_text(&bin.right, param)),
        Expr::Member(member) => match (strip_parens(&member.obj), &member.prop) {
            (Expr::Object(props), MemberProp::Computed(key)) => ident_is(key, param)
                && are_text_values(props),
            _ => public_path_object(member).is_some(),
        },
        _ => false,
    }
}

/// Whether every sum in a template is a concatenation.
pub fn sums_concatenate(expr: &Expr, param: &Id) -> (r: bool)
    ensures
        r == only_concatenates(expr, param@),
    decreases expr, 0nat,
{
    match expr {
        Expr::Paren(inner) => sums_concatenate(inner, param),
        Expr::Bin(bin) => bin.op != BinaryOp::Add || (sums_concatenate(&bin.left, param)
            && sums_concatenate(&bin.right, param) && (is_surely_text(&bin.left, param)
            || is_surely_text(&bin.right, param))),
        Expr::Tpl(tpl) => tpl_sums_concatenate(tpl, param),
        _ => true,
    }
}

fn tpl_sums_concatenate(tpl: &Tpl, param: &Id) -> (r: bool)
    ensures
        r == tpl_only_concatenates(tpl, param@, tpl.exprs@.len()),
    decreases tpl, 1nat,
{
    let mut i: usize = 0;
    while i < tpl.exprs.len()
        invariant
            i <= tpl.exprs@.len(),
            tpl_only_concatenates(tpl, param@, i as nat),
        decreases tpl.exprs@.len() - i,
    {
        if !sums_concatenate(&tpl.exprs[i], param) {
            proof {
                lemma_tpl_adds(tpl, param@, (i + 1) as nat, tpl.exprs@.len());
            }
            return false;
        }
        i = i + 1;
    }
    true
}

proof fn lemma_tpl_adds(tpl: &Tpl, param: Binding, i: nat, n: nat)
    requires
        i <= n <= tpl.exprs@.len(),
        !tpl_only_concatenates(tpl, param, i),
    ensures
        !tpl_only_concatenates(tpl, param, n),
    decreases n,
{
    if i < n {
        lemma_tpl_adds(tpl, param, i, (n - 1) as nat);
    }
}

// ---------------------------------------------------------------------------
// Templates of filename functions
// ---------------------------------------------------------------------------

/// A call of the function returns what its body returns: it is neither async
/// nor a generator.
pub open spec fn is_plain_function(expr: &Expr) -> bool {
    match stripped(expr) {
        Expr::Arrow(arrow) => !arrow.is_async && !arrow.is_generator,
        Expr::Fn(function) => !function.is_async && !function.is_generator,
        _ => false,
    }
}

/// The template that a function with the given body renders. It is dynamic
/// where a call does not return what the body returns, where numbers may be
/// added up, and where a table spells out a `__proto__` key.
pub open spec fn proven_template(
    template: Option<Seq<SegmentView>>,
    body: &Expr,
    param: Binding,
    plain: bool,
) -> Option<Seq<SegmentView>> {
    match template {
        Some(segments) => if plain && only_concatenates(body, param) && !has_prototype_key(
            segments,
        ) {
            Some(segments)
        } else {
            None
        },
        None => None,
    }
}

/// The template that a function with the given body renders, if it is not
/// dynamic.
pub fn prove_template(
    template: Option<Vec<Segment>>,
    body: &Expr,
    param: &Id,
    plain: bool,
) -> (r: Option<Vec<Segment>>)
    ensures
        template_view(r) == proven_template(template_view(template), body, param@, plain),
{
    match template {
        Some(segments) => if plain && sums_concatenate(body, param) && !spells_prototype(
            &segments,
        ) {
            Some(segments)
        } else {
            None
        },
        None => None,
    }
}

/// The literal template of a filename function.
pub open spec fn filename_template(expr: &Expr) -> Option<Seq<SegmentView>> {
    match filename_fn_shape(expr) {
        Some((param, body)) => proven_template(
            template_of(body, param),
            body,
            param,
            is_plain_function(expr),
        ),
        None => None,
    }
}

/// Parse a filename function (`(chunkId) => expr` or
/// `function (chunkId) { return expr; }`) into the segments of a literal
/// template. `None` means that the template is not statically evaluable.
pub fn parse_filename_fn(expr: &Expr) -> (r: Option<Vec<Segment>>)
    ensures
        template_view(r) == filename_template(expr),
{
    let plain = match strip_parens(expr) {
        Expr::Arrow(arrow) => !arrow.is_async && !arrow.is_generator,
        Expr::Fn(function) => !function.is_async && !function.is_generator,
        _ => false,
    };
    match filename_fn_parts(expr) {
        Some((param, body)) => prove_template(parse_segments(body, &param), body, &param, plain),
        None => None,
    }
}

} // verus!
