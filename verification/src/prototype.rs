//! What every object inherits.
//!
//! A lookup in an object literal reaches beyond the entries that are spelled
//! out: a name such as `constructor` finds a property of the prototype, and
//! `__proto__` is no entry at all but the prototype itself.

use vstd::prelude::*;

use crate::number::{decimal, law_decimal_is_canonical};
use crate::template::{segments_view, Segment, SegmentView};
use crate::text::text_eq;

verus! {

/// `name` is a property that an object literal inherits.
pub open spec fn is_inherited_name(name: Seq<char>) -> bool {
    ||| name == "__proto__"@
    ||| name == "constructor"@
    ||| name == "hasOwnProperty"@
    ||| name == "isPrototypeOf"@
    ||| name == "propertyIsEnumerable"@
    ||| name == "toLocaleString"@
    ||| name == "toString"@
    ||| name == "valueOf"@
    ||| name == "__defineGetter__"@
    ||| name == "__defineSetter__"@
    ||| name == "__lookupGetter__"@
    ||| name == "__lookupSetter__"@
}

/// Whether a name is a property that an object literal inherits.
pub fn names_inherited(name: &str) -> (r: bool)
    ensures
        r == is_inherited_name(name@),
{
    text_eq(name, "__proto__") || text_eq(name, "constructor") || text_eq(name, "hasOwnProperty")
        || text_eq(name, "isPrototypeOf") || text_eq(name, "propertyIsEnumerable") || text_eq(
        name,
        "toLocaleString",
    ) || text_eq(name, "toString") || text_eq(name, "valueOf") || text_eq(name, "__defineGetter__")
        || text_eq(name, "__defineSetter__") || text_eq(name, "__lookupGetter__") || text_eq(
        name,
        "__lookupSetter__",
    )
}

/// The segment is a lookup table with an entry for `id`.
pub open spec fn table_has(segment: SegmentView, id: Seq<char>) -> bool {
    match segment {
        SegmentView::Table { entries, .. } => entries.contains_key(id),
        _ => false,
    }
}

/// Some lookup table of the template spells out a `__proto__` key, which makes
/// no entry.
pub open spec fn has_prototype_key(segments: Seq<SegmentView>) -> bool {
    exists|i: int| 0 <= i < segments.len() && table_has(#[trigger] segments[i], "__proto__"@)
}

/// Some lookup table of the template has no entry for `id`, but inherits one.
pub open spec fn inherits(segments: Seq<SegmentView>, id: Seq<char>) -> bool {
    &&& is_inherited_name(id)
    &&& exists|i: int|
        0 <= i < segments.len() && (#[trigger] segments[i]) is Table && !table_has(segments[i], id)
}

/// Whether some lookup table of the template spells out a `__proto__` key.
pub fn spells_prototype(segments: &Vec<Segment>) -> (r: bool)
    ensures
        r == has_prototype_key(segments_view(segments@)),
{
    let ghost view = segments_view(segments@);
    let key = "__proto__".to_owned();
    let mut i: usize = 0;
    while i < segments.len()
        invariant
            view == segments_view(segments@),
            key@ == "__proto__"@,
            i <= segments@.len(),
            forall|j: int| 0 <= j < i ==> !table_has(#[trigger] view[j], "__proto__"@),
        decreases segments@.len() - i,
    {
        proof {
            assert(view[i as int] == segments@[i as int]@);
        }
        match &segments[i] {
            Segment::Table { entries, .. } => {
                if entries.get(&key).is_some() {
                    return true;
                }
            },
            _ => {},
        }
        i = i + 1;
    }
    false
}

/// Whether some lookup table of the template inherits an entry for `id`.
pub fn reaches_prototype(segments: &Vec<Segment>, id: &String) -> (r: bool)
    ensures
        r == inherits(segments_view(segments@), id@),
{
    let ghost view = segments_view(segments@);
    if !names_inherited(id.as_str()) {
        return false;
    }
    let mut i: usize = 0;
    while i < segments.len()
        invariant
            view == segments_view(segments@),
            is_inherited_name(id@),
            i <= segments@.len(),
            forall|j: int|
                0 <= j < i && (#[trigger] view[j]) is Table ==> table_has(view[j], id@),
        decreases segments@.len() - i,
    {
        proof {
            assert(view[i as int] == segments@[i as int]@);
        }
        match &segments[i] {
            Segment::Table { entries, .. } => {
                if entries.get(id).is_none() {
                    return true;
                }
            },
            _ => {},
        }
        i = i + 1;
    }
    false
}

/// The properties of the prototype of every object literal.
pub open spec fn inherited_names() -> Seq<Seq<char>> {
    seq![
        "__proto__"@,
        "constructor"@,
        "hasOwnProperty"@,
        "isPrototypeOf"@,
        "propertyIsEnumerable"@,
        "toLocaleString"@,
        "toString"@,
        "valueOf"@,
        "__defineGetter__"@,
        "__defineSetter__"@,
        "__lookupGetter__"@,
        "__lookupSetter__"@,
    ]
}

/// What an object literal inherits are the properties of its prototype, and
/// nothing else.
pub proof fn law_inherited_names(name: Seq<char>)
    ensures
        is_inherited_name(name) <==> inherited_names().contains(name),
{
    let names = inherited_names();
    assert(names[0] == "__proto__"@);
    assert(names[1] == "constructor"@);
    assert(names[2] == "hasOwnProperty"@);
    assert(names[3] == "isPrototypeOf"@);
    assert(names[4] == "propertyIsEnumerable"@);
    assert(names[5] == "toLocaleString"@);
    assert(names[6] == "toString"@);
    assert(names[7] == "valueOf"@);
    assert(names[8] == "__defineGetter__"@);
    assert(names[9] == "__defineSetter__"@);
    assert(names[10] == "__lookupGetter__"@);
    assert(names[11] == "__lookupSetter__"@);
    if names.contains(name) {
        let k = choose|k: int| 0 <= k < names.len() && names[k] == name;
        assert(0 <= k < 12);
    }
}

/// No number is the name of an inherited property: a numbered chunk is never
/// left out on that account.
pub proof fn law_numbers_are_not_inherited(n: nat)
    ensures
        !is_inherited_name(decimal(n)),
{
    law_decimal_is_canonical(n);
    reveal_strlit("__proto__");
    reveal_strlit("constructor");
    reveal_strlit("hasOwnProperty");
    reveal_strlit("isPrototypeOf");
    reveal_strlit("propertyIsEnumerable");
    reveal_strlit("toLocaleString");
    reveal_strlit("toString");
    reveal_strlit("valueOf");
    reveal_strlit("__defineGetter__");
    reveal_strlit("__defineSetter__");
    reveal_strlit("__lookupGetter__");
    reveal_strlit("__lookupSetter__");
    assert('0' <= decimal(n)[0] <= '9');
}

} // verus!
