//! Which filename functions are literal templates.
//!
//! The laws say of each expression what template it is, in terms of its
//! operands, and that nothing but a part that is not literal makes it dynamic.

use vstd::prelude::*;

use crate::ast::{
    stripped, BinaryOp, Binding, Expr, Lit, MemberExpr, MemberProp, Node, Prop, PropName, Tpl,
};
use crate::evaluation::{evaluated, looked_up, tpl_text, Request};
use crate::number::{decimal, denotes, integer_value, law_integers_have_a_text};
use crate::origins::{count_expr, count_exprs, count_member, Property};
use crate::prototype::{has_prototype_key, table_has};
use crate::reading::{is_binding, is_literal_with, law_literals};
use crate::template::{
    entry_texts, filename_fn_shape, filename_template, has_text_value, is_falsy, is_text, joined,
    key_text, literal_text, lookup_map, lookup_props, object_map, only_concatenates, template_of,
    tpl_only_concatenates, tpl_template, SegmentView,
};

verus! {

// ---------------------------------------------------------------------------
// Tables
// ---------------------------------------------------------------------------

/// The key of an object literal has the given text.
pub open spec fn is_key_with(key: &PropName, text: Seq<char>) -> bool {
    match key {
        PropName::Ident(sym) => sym@ == text,
        PropName::Str(Some(value)) => value@ == text,
        PropName::Num(bits) => exists|n: nat|
            n <= 9007199254740992 && denotes(*bits, n as int) && text == #[trigger] decimal(n),
        _ => false,
    }
}

/// The literal is the empty string or the number zero.
pub open spec fn is_empty_or_zero(expr: &Expr) -> bool {
    match stripped(expr) {
        Expr::Lit(Lit::Str(Some(value))) => value@.len() == 0,
        Expr::Lit(Lit::Num(bits)) => denotes(*bits, 0),
        _ => false,
    }
}

/// The member of an object literal has a literal key and a literal value.
pub open spec fn is_literal_entry(prop: &Prop) -> bool {
    match prop {
        Prop::KeyValue(key_value) => (exists|key: Seq<char>|
            is_key_with(&key_value.key, key)) && exists|text: Seq<char>|
            is_literal_with(&key_value.value, text),
        Prop::Other(_) => false,
    }
}

/// Keys are read from identifiers, strings and integers.
pub proof fn law_keys(key: &PropName, text: Seq<char>)
    ensures
        key_text(key) == Some(text) <==> is_key_with(key, text),
{
    match key {
        PropName::Num(bits) => {
            if is_key_with(key, text) {
                let n = choose|n: nat|
                    n <= 9007199254740992 && denotes(*bits, n as int) && text
                        == #[trigger] decimal(n);
                law_integers_have_a_text(*bits, n);
            }
            match integer_value(*bits) {
                Some(n) => law_integers_have_a_text(*bits, n),
                None => law_integers_have_a_text(*bits, 0),
            }
        },
        _ => {},
    }
}

/// An entry of a table has the text of its key and that of its value; where
/// the lookup falls back to the key, an empty string and a zero have the text
/// of the key. Nothing else is an entry.
pub proof fn law_table_entries(prop: &Prop, fallback: bool, key: Seq<char>, text: Seq<char>)
    ensures
        entry_texts(prop, fallback) == Some((key, text)) <==> match prop {
            Prop::KeyValue(key_value) => is_key_with(&key_value.key, key) && if fallback
                && is_empty_or_zero(&key_value.value) {
                text == key
            } else {
                is_literal_with(&key_value.value, text)
            },
            Prop::Other(_) => false,
        },
{
    match prop {
        Prop::KeyValue(key_value) => {
            law_keys(&key_value.key, key);
            law_literals(&key_value.value, text);
            lemma_falsy(&key_value.value);
            match literal_text(&key_value.value) {
                Some(own) => law_literals(&key_value.value, own),
                None => {},
            }
        },
        Prop::Other(_) => {},
    }
}

proof fn lemma_falsy(expr: &Expr)
    ensures
        is_falsy(expr) == is_empty_or_zero(expr),
        is_falsy(expr) ==> literal_text(expr) is Some,
{
    match stripped(expr) {
        Expr::Lit(Lit::Num(bits)) => law_integers_have_a_text(*bits, 0),
        _ => {},
    }
}

proof fn lemma_literal_entry(prop: &Prop, fallback: bool)
    ensures
        entry_texts(prop, fallback) is Some <==> is_literal_entry(prop),
{
    match prop {
        Prop::KeyValue(key_value) => {
            match key_text(&key_value.key) {
                Some(key) => law_keys(&key_value.key, key),
                None => {},
            }
            match literal_text(&key_value.value) {
                Some(text) => law_literals(&key_value.value, text),
                None => {},
            }
            if is_literal_entry(prop) {
                let key = choose|key: Seq<char>| is_key_with(&key_value.key, key);
                law_keys(&key_value.key, key);
                let text = choose|text: Seq<char>| is_literal_with(&key_value.value, text);
                law_literals(&key_value.value, text);
            }
        },
        Prop::Other(_) => {},
    }
}

/// A table is read if and only if each of its members has a literal key and a
/// literal value, whatever kind of literal.
pub proof fn law_tables_are_read(props: &Vec<Prop>, n: nat, fallback: bool)
    requires
        n <= props@.len(),
    ensures
        object_map(props, n, fallback) is Some <==> forall|i: int|
            0 <= i < n ==> is_literal_entry(&#[trigger] props@[i]),
    decreases n,
{
    if n > 0 {
        law_tables_are_read(props, (n - 1) as nat, fallback);
        lemma_literal_entry(&props@[n - 1], fallback);
        if object_map(props, n, fallback) is Some {
            assert forall|i: int| 0 <= i < n implies is_literal_entry(&#[trigger] props@[i]) by {}
        }
    }
}

/// Each key of a table is that of a member of the object literal, and its text
/// is the one that such a member gives it.
pub proof fn law_tables_have_no_other_keys(
    props: &Vec<Prop>,
    n: nat,
    fallback: bool,
    key: Seq<char>,
)
    requires
        n <= props@.len(),
        object_map(props, n, fallback) is Some,
        object_map(props, n, fallback)->0.contains_key(key),
    ensures
        exists|i: int|
            0 <= i < n && entry_texts(&#[trigger] props@[i], fallback) == Some(
                (key, object_map(props, n, fallback)->0[key]),
            ),
    decreases n,
{
    if n > 0 {
        let before = object_map(props, (n - 1) as nat, fallback)->0;
        let (own, text) = entry_texts(&props@[n - 1], fallback)->0;
        if own == key {
            assert(entry_texts(&props@[n - 1], fallback) == Some(
                (key, object_map(props, n, fallback)->0[key]),
            ));
        } else {
            law_tables_have_no_other_keys(props, (n - 1) as nat, fallback, key);
        }
    }
}

// ---------------------------------------------------------------------------
// Parts of a template
// ---------------------------------------------------------------------------

/// The members of the object literal in `{...}[param]`.
pub open spec fn looked_up_in<'a>(expr: &'a Expr, param: Binding) -> Option<&'a Vec<Prop>> {
    match stripped(expr) {
        Expr::Member(MemberExpr { obj, prop: MemberProp::Computed(key) }) => match stripped(obj) {
            Expr::Object(props) => if is_binding(key, param) {
                Some(props)
            } else {
                None
            },
            _ => None,
        },
        _ => None,
    }
}

/// What a single part of a template is: a string literal is its text, the
/// parameter is the chunk id, and a lookup of the parameter in a table is the
/// table, with `|| param` behind it also for the ids that it lacks. Nothing
/// else but concatenations and template literals is a template.
pub proof fn law_parts_of_a_template(expr: &Expr, param: Binding)
    ensures
        match expr {
            Expr::Paren(inner) => template_of(expr, param) == template_of(inner, param),
            Expr::Lit(Lit::Str(Some(value))) => template_of(expr, param) == Some(
                seq![SegmentView::Lit(value@)],
            ),
            Expr::Ident(_) => template_of(expr, param) == (if is_binding(expr, param) {
                Some(seq![SegmentView::ChunkId])
            } else {
                None
            }),
            Expr::Member(_) => template_of(expr, param) == (match looked_up_in(expr, param) {
                Some(props) => match object_map(props, props@.len(), false) {
                    Some(entries) => Some(seq![SegmentView::Table { entries, fallback: false }]),
                    None => None,
                },
                None => None,
            }),
            Expr::Bin(bin) => bin.op == BinaryOp::LogicalOr ==> template_of(expr, param) == (match (
                looked_up_in(&bin.left, param),
                is_binding(&bin.right, param),
            ) {
                (Some(props), true) => match object_map(props, props@.len(), true) {
                    Some(entries) => Some(seq![SegmentView::Table { entries, fallback: true }]),
                    None => None,
                },
                _ => None,
            }),
            Expr::Tpl(_) => true,
            _ => template_of(expr, param) is None,
        },
        expr matches Expr::Bin(bin) && bin.op != BinaryOp::Add && bin.op != BinaryOp::LogicalOr
            ==> template_of(expr, param) is None,
{
}

// ---------------------------------------------------------------------------
// Template literals
// ---------------------------------------------------------------------------

/// The expression concatenates the first `n` literal parts of a template
/// literal, each with the expression that follows it.
pub open spec fn spells_out(expr: &Expr, tpl: &Tpl, n: nat) -> bool
    decreases n, 1nat,
{
    if n == 0 || n > tpl.quasis@.len() {
        false
    } else if n <= tpl.exprs@.len() {
        match expr {
            Expr::Bin(bin) => bin.op == BinaryOp::Add && *bin.right == tpl.exprs@[n - 1]
                && spells_out_literal(&bin.left, tpl, n),
            _ => false,
        }
    } else {
        spells_out_literal(expr, tpl, n)
    }
}

/// The expression concatenates the first `n` literal parts of a template
/// literal, without the expression that follows the last one.
pub open spec fn spells_out_literal(expr: &Expr, tpl: &Tpl, n: nat) -> bool
    decreases n, 0nat,
{
    if n == 0 || n > tpl.quasis@.len() {
        false
    } else if n == 1 {
        *expr == Expr::Lit(Lit::Str(tpl.quasis@[0]))
    } else {
        match expr {
            Expr::Bin(bin) => bin.op == BinaryOp::Add && *bin.right == Expr::Lit(
                Lit::Str(tpl.quasis@[n - 1]),
            ) && spells_out(&bin.left, tpl, (n - 1) as nat),
            _ => false,
        }
    }
}

proof fn lemma_spells_out(expr: &Expr, tpl: &Tpl, param: Binding, n: nat)
    requires
        spells_out(expr, tpl, n),
    ensures
        template_of(expr, param) == tpl_template(tpl, param, n),
    decreases n,
{
    let before = tpl_template(tpl, param, (n - 1) as nat);
    let quasi = tpl.quasis@[n - 1];
    let literal = match quasi {
        Some(text) => Some(seq![SegmentView::Lit(text@)]),
        None => None,
    };
    let head = joined(before, literal);
    let front: Expr = if n <= tpl.exprs@.len() {
        match expr {
            Expr::Bin(bin) => *bin.left,
            _ => *expr,
        }
    } else {
        *expr
    };
    assert(spells_out_literal(&front, tpl, n));
    assert(template_of(&front, param) == head) by {
        if n == 1 {
            assert(before == Some(Seq::<SegmentView>::empty()));
            match literal {
                Some(one) => {
                    assert(Seq::<SegmentView>::empty() + one =~= one);
                },
                None => {},
            }
            assert(template_of(&front, param) == literal);
        } else {
            match front {
                Expr::Bin(bin) => {
                    lemma_spells_out(&bin.left, tpl, param, (n - 1) as nat);
                    assert(template_of(&bin.right, param) == literal);
                },
                _ => {},
            }
        }
    }
    if n <= tpl.exprs@.len() {
        assert(template_of(expr, param) == joined(
            template_of(&front, param),
            template_of(&tpl.exprs@[n - 1], param),
        ));
    } else {
        match head {
            Some(segments) => {
                assert(segments + Seq::<SegmentView>::empty() =~= segments);
            },
            None => {},
        }
    }
}

/// A template literal has the same template as the concatenation of its parts.
pub proof fn law_template_literal_is_a_concatenation(
    literal: &Expr,
    concatenation: &Expr,
    param: Binding,
)
    requires
        literal matches Expr::Tpl(tpl) && spells_out(concatenation, tpl, tpl.quasis@.len()),
    ensures
        template_of(literal, param) == template_of(concatenation, param),
{
    match literal {
        Expr::Tpl(tpl) => lemma_spells_out(concatenation, tpl, param, tpl.quasis@.len()),
        _ => {},
    }
}

proof fn lemma_tpl_is_literal(tpl: &Tpl, param: Binding, n: nat)
    requires
        n <= tpl.quasis@.len(),
    ensures
        tpl_template(tpl, param, n) is Some <==> forall|i: int|
            0 <= i < n ==> (#[trigger] tpl.quasis@[i]) is Some && (i < tpl.exprs@.len()
                ==> template_of(&tpl.exprs@[i], param) is Some),
    decreases n,
{
    if n > 0 {
        lemma_tpl_is_literal(tpl, param, (n - 1) as nat);
        if tpl_template(tpl, param, n) is Some {
            assert(tpl.quasis@[n - 1] is Some);
            assert forall|i: int| 0 <= i < n implies (#[trigger] tpl.quasis@[i]) is Some && (i
                < tpl.exprs@.len() ==> template_of(&tpl.exprs@[i], param) is Some) by {}
        } else {
            assert(tpl_template(tpl, param, (n - 1) as nat) is None || tpl.quasis@[n - 1] is None
                || (n <= tpl.exprs@.len() && template_of(&tpl.exprs@[n - 1], param) is None));
            if tpl_template(tpl, param, (n - 1) as nat) is Some {
                assert(!((tpl.quasis@[n - 1]) is Some && (n - 1 < tpl.exprs@.len() ==> template_of(
                    &tpl.exprs@[n - 1],
                    param,
                ) is Some)));
            }
        }
    }
}

/// A template literal is a literal template if and only if each of its literal
/// parts has a text and each of its expressions is a literal template, of
/// whatever kind.
pub proof fn law_template_literals(expr: &Expr, param: Binding)
    ensures
        match expr {
            Expr::Tpl(tpl) => template_of(expr, param) is Some <==> forall|i: int|
                0 <= i < tpl.quasis@.len() ==> (#[trigger] tpl.quasis@[i]) is Some && (i
                    < tpl.exprs@.len() ==> template_of(&tpl.exprs@[i], param) is Some),
            _ => true,
        },
{
    match expr {
        Expr::Tpl(tpl) => lemma_tpl_is_literal(tpl, param, tpl.quasis@.len()),
        _ => {},
    }
}

// ---------------------------------------------------------------------------
// Nothing else makes a template dynamic
// ---------------------------------------------------------------------------

/// An object literal with a member whose key or value is not literal.
pub open spec fn object_beyond_literals() -> Property {
    |node: Node|
        match node {
            Node::Expr(Expr::Object(props)) => exists|i: int|
                0 <= i < props@.len() && !is_literal_entry(&#[trigger] props@[i]),
            _ => false,
        }
}

proof fn lemma_table_of_literals(expr: &Expr, param: Binding, fallback: bool)
    requires
        count_expr(expr, object_beyond_literals()) == 0,
        looked_up_in(expr, param) is Some,
    ensures
        lookup_map(expr, param, fallback) is Some,
    decreases expr,
{
    match expr {
        Expr::Paren(inner) => lemma_table_of_literals(inner, param, fallback),
        Expr::Member(member) => {
            let p = object_beyond_literals();
            assert(count_expr(&member.obj, p) <= count_member(member, p));
            lemma_counted_object(&member.obj);
            let props = looked_up_in(expr, param)->0;
            assert(!p(Node::Expr(*stripped(&member.obj))));
            law_tables_are_read(props, props@.len(), fallback);
        },
        _ => {},
    }
}

proof fn lemma_counted_object(expr: &Expr)
    requires
        count_expr(expr, object_beyond_literals()) == 0,
    ensures
        !(object_beyond_literals())(Node::Expr(*stripped(expr))),
    decreases expr,
{
    match expr {
        Expr::Paren(inner) => lemma_counted_object(inner),
        _ => {},
    }
}

proof fn lemma_exprs_count(v: &Vec<Expr>, i: int, n: nat, p: Property)
    requires
        0 <= i < n <= v@.len(),
    ensures
        count_expr(&v@[i], p) <= count_exprs(v, n, p),
    decreases n,
{
    if i < n - 1 {
        lemma_exprs_count(v, i, (n - 1) as nat, p);
    }
}

/// An expression that has a literal value in some call is a literal template,
/// unless one of its tables has a member that is not literal: whatever is made
/// of literals, the chunk id and lookups is no dynamic template.
pub proof fn law_literal_values_have_templates(expr: &Expr, request: Request)
    requires
        request.public_path is None,
        evaluated(expr, request) is Some,
        count_expr(expr, object_beyond_literals()) == 0,
    ensures
        template_of(expr, request.param) is Some,
    decreases expr, 0nat,
{
    match expr {
        Expr::Paren(inner) => law_literal_values_have_templates(inner, request),
        Expr::Bin(bin) => match bin.op {
            BinaryOp::Add => {
                law_literal_values_have_templates(&bin.left, request);
                law_literal_values_have_templates(&bin.right, request);
            },
            BinaryOp::LogicalOr => {
                assert(looked_up(&bin.left, request) !is Unknown);
                assert(looked_up_in(&bin.left, request.param) == lookup_props(
                    &bin.left,
                    request.param,
                ));
                lemma_table_of_literals(&bin.left, request.param, true);
            },
            _ => {},
        },
        Expr::Member(member) => {
            assert(looked_up(expr, request) is Found);
            assert(looked_up_in(expr, request.param) == lookup_props(expr, request.param));
            lemma_table_of_literals(expr, request.param, false);
        },
        Expr::Tpl(tpl) => {
            lemma_tpl_values(tpl, request, tpl.quasis@.len());
        },
        _ => {},
    }
}

proof fn lemma_tpl_values(tpl: &Tpl, request: Request, n: nat)
    requires
        request.public_path is None,
        n <= tpl.quasis@.len(),
        tpl_text(tpl, request, n) is Some,
        count_exprs(&tpl.exprs, tpl.exprs@.len(), object_beyond_literals()) == 0,
    ensures
        tpl_template(tpl, request.param, n) is Some,
    decreases tpl, n,
{
    if n > 0 {
        lemma_tpl_values(tpl, request, (n - 1) as nat);
        if n <= tpl.exprs@.len() {
            lemma_exprs_count(&tpl.exprs, n - 1, tpl.exprs@.len(), object_beyond_literals());
            law_literal_values_have_templates(&tpl.exprs@[n - 1], request);
        }
    }
}

// ---------------------------------------------------------------------------
// Sums
// ---------------------------------------------------------------------------

/// A sum is a concatenation if and only if its operands are, and one of them
/// is surely a text. Apart from sums there is nothing that could be added up.
pub proof fn law_concatenations(expr: &Expr, param: Binding)
    ensures
        match expr {
            Expr::Paren(inner) => only_concatenates(expr, param) == only_concatenates(inner, param),
            Expr::Bin(bin) => only_concatenates(expr, param) <==> (bin.op == BinaryOp::Add
                ==> only_concatenates(&bin.left, param) && only_concatenates(&bin.right, param) && (
            is_text(&bin.left, param) || is_text(&bin.right, param))),
            Expr::Tpl(tpl) => only_concatenates(expr, param) <==> forall|i: int|
                0 <= i < tpl.exprs@.len() ==> only_concatenates(&#[trigger] tpl.exprs@[i], param),
            _ => only_concatenates(expr, param),
        },
{
    match expr {
        Expr::Tpl(tpl) => lemma_tpl_concatenates(tpl, param, tpl.exprs@.len()),
        _ => {},
    }
}

proof fn lemma_tpl_concatenates(tpl: &Tpl, param: Binding, n: nat)
    requires
        n <= tpl.exprs@.len(),
    ensures
        tpl_only_concatenates(tpl, param, n) <==> forall|i: int|
            0 <= i < n ==> only_concatenates(&#[trigger] tpl.exprs@[i], param),
    decreases n,
{
    if n > 0 {
        lemma_tpl_concatenates(tpl, param, (n - 1) as nat);
        if tpl_only_concatenates(tpl, param, n) {
            assert forall|i: int| 0 <= i < n implies only_concatenates(
                &#[trigger] tpl.exprs@[i],
                param,
            ) by {}
        } else if tpl_only_concatenates(tpl, param, (n - 1) as nat) {
            assert(!only_concatenates(&tpl.exprs@[n - 1], param));
        }
    }
}

/// The member of an object literal has a string literal for its value.
pub open spec fn has_string_value(prop: &Prop) -> bool {
    match prop {
        Prop::KeyValue(key_value) => match stripped(&key_value.value) {
            Expr::Lit(Lit::Str(Some(_))) => true,
            _ => false,
        },
        Prop::Other(_) => false,
    }
}

/// Surely a text is: a string literal, a template literal, a lookup in a table
/// of nothing but string literals, a public path, and a sum with such an
/// operand. The chunk id is not, for it may be a number.
pub proof fn law_sure_texts(expr: &Expr, param: Binding)
    ensures
        match expr {
            Expr::Paren(inner) => is_text(expr, param) == is_text(inner, param),
            Expr::Lit(lit) => is_text(expr, param) <==> lit is Str,
            Expr::Tpl(_) => is_text(expr, param),
            Expr::Bin(bin) => is_text(expr, param) <==> bin.op == BinaryOp::Add && (is_text(
                &bin.left,
                param,
            ) || is_text(&bin.right, param)),
            Expr::Member(member) => match looked_up_in(expr, param) {
                Some(props) => is_text(expr, param) <==> forall|i: int|
                    0 <= i < props@.len() ==> has_string_value(&#[trigger] props@[i]),
                None => is_text(expr, param) <==> (*member.obj is Ident && (
                member.prop matches MemberProp::Ident(sym) && sym@ == "p"@)),
            },
            _ => !is_text(expr, param),
        },
{
    match expr {
        Expr::Member(member) => match looked_up_in(expr, param) {
            Some(props) => {
                assert(lookup_props(expr, param) == Some(props));
                assert forall|i: int| 0 <= i < props@.len() implies (has_text_value(
                    &#[trigger] props@[i],
                ) <==> has_string_value(&props@[i])) by {}
            },
            None => {
                assert(lookup_props(expr, param) is None);
            },
        },
        _ => {},
    }
}

// ---------------------------------------------------------------------------
// Filename functions
// ---------------------------------------------------------------------------

/// The function is neither async nor a generator.
pub open spec fn returns_its_value(expr: &Expr) -> bool {
    match stripped(expr) {
        Expr::Arrow(arrow) => !arrow.is_async && !arrow.is_generator,
        Expr::Fn(function) => !function.is_async && !function.is_generator,
        _ => false,
    }
}

/// A filename function has the template of what it returns, unless a call does
/// not return it, a sum may add up numbers, or a table spells out a
/// `__proto__` key.
pub proof fn law_templates_of_filename_functions(function: &Expr, param: Binding, body: &Expr)
    requires
        filename_fn_shape(function) == Some((param, body)),
    ensures
        returns_its_value(function) && only_concatenates(body, param) && (template_of(
            body,
            param,
        ) matches Some(segments) ==> forall|i: int|
            0 <= i < segments.len() ==> match #[trigger] segments[i] {
                SegmentView::Table { entries, .. } => !entries.contains_key("__proto__"@),
                _ => true,
            }) ==> filename_template(function) == template_of(body, param),
        filename_template(function) is Some ==> returns_its_value(function) && only_concatenates(
            body,
            param,
        ) && filename_template(function) == template_of(body, param),
{
    match template_of(body, param) {
        Some(segments) => {
            if has_prototype_key(segments) {
                let i = choose|i: int|
                    0 <= i < segments.len() && table_has(
                        #[trigger] segments[i],
                        "__proto__"@,
                    );
                assert(segments[i] is Table);
            }
        },
        None => {},
    }
}

} // verus!
