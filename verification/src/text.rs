//! Text operations: equality, prefixes, and the order of texts by code point.

use vstd::prelude::*;

verus! {

/// A text that may be absent, by its characters.
pub open spec fn text_view(text: Option<String>) -> Option<Seq<char>> {
    match text {
        Some(text) => Some(text@),
        None => None,
    }
}

/// A borrowed text that may be absent, by its characters.
pub open spec fn str_view(text: Option<&str>) -> Option<Seq<char>> {
    match text {
        Some(text) => Some(text@),
        None => None,
    }
}

/// The characters of `s`, one by one.
pub fn chars_of(s: &str) -> (v: Vec<char>)
    ensures
        v@ == s@,
{
    let mut v: Vec<char> = Vec::new();
    for c in it: s.chars()
        invariant
            v@ == it.seq().take(it.index()),
            it.seq() == s@,
    {
        v.push(c);
    }
    v
}

/// Whether two texts are the same.
pub fn text_eq(a: &str, b: &str) -> (r: bool)
    ensures
        r == (a@ == b@),
{
    let x = a.as_bytes();
    let y = b.as_bytes();
    if x.len() != y.len() {
        return false;
    }
    let mut i: usize = 0;
    while i < x.len()
        invariant
            x@ == vstd::utf8::encode_utf8(a@),
            y@ == vstd::utf8::encode_utf8(b@),
            i <= x@.len() == y@.len(),
            forall|j: int| 0 <= j < i ==> x@[j] == y@[j],
        decreases x@.len() - i,
    {
        if x[i] != y[i] {
            return false;
        }
        i = i + 1;
    }
    proof {
        assert(x@ =~= y@);
        vstd::utf8::encode_utf8_decode_utf8(a@);
        vstd::utf8::encode_utf8_decode_utf8(b@);
    }
    true
}

/// Whether `s` begins with `prefix`.
pub fn begins_with(s: &str, prefix: &str) -> (r: bool)
    ensures
        r == prefix@.is_prefix_of(s@),
{
    let text = chars_of(s);
    let head = chars_of(prefix);
    if head.len() > text.len() {
        return false;
    }
    let mut i: usize = 0;
    while i < head.len()
        invariant
            text@ == s@,
            head@ == prefix@,
            i <= head@.len() <= text@.len(),
            forall|j: int| 0 <= j < i ==> head@[j] == text@[j],
        decreases head@.len() - i,
    {
        if head[i] != text[i] {
            proof {
                assert(s@.subrange(0, prefix@.len() as int)[i as int] == s@[i as int]);
            }
            return false;
        }
        i = i + 1;
    }
    proof {
        assert(s@.subrange(0, prefix@.len() as int) == prefix@);
    }
    true
}

/// `needle` occurs in `s` at position `at`.
pub open spec fn occurs_at(s: Seq<char>, needle: Seq<char>, at: int) -> bool {
    &&& 0 <= at <= s.len() - needle.len()
    &&& s.subrange(at, at + needle.len()) == needle
}

/// `needle` occurs somewhere in `s`.
pub open spec fn occurs_in(s: Seq<char>, needle: Seq<char>) -> bool {
    exists|at: int| occurs_at(s, needle, at)
}

/// Whether `needle` occurs in `s`.
pub fn contains_text(s: &str, needle: &str) -> (r: bool)
    ensures
        r == occurs_in(s@, needle@),
{
    let text = chars_of(s);
    let part = chars_of(needle);
    if part.len() > text.len() {
        return false;
    }
    let last: usize = text.len() - part.len();
    let mut at: usize = 0;
    loop
        invariant
            text@ == s@,
            part@ == needle@,
            at <= last,
            last == text@.len() - part@.len(),
            forall|j: int| 0 <= j < at ==> !occurs_at(s@, needle@, j),
        decreases last - at,
    {
        let mut i: usize = 0;
        while i < part.len() && text[at + i] == part[i]
            invariant
                i <= part@.len(),
                at + part@.len() <= text@.len(),
                text@.len() == text.len(),
                forall|j: int| 0 <= j < i ==> text@[at + j] == part@[j],
            decreases part@.len() - i,
        {
            i = i + 1;
        }
        if i == part.len() {
            proof {
                assert(s@.subrange(at as int, at + needle@.len()) == needle@);
                assert(occurs_at(s@, needle@, at as int));
            }
            return true;
        }
        proof {
            assert(s@.subrange(at as int, at + needle@.len())[i as int] == s@[at + i]);
            assert(!occurs_at(s@, needle@, at as int));
        }
        if at == last {
            return false;
        }
        at = at + 1;
    }
}

/// `a` and `b` agree before position `n`, where `a` ends or has the smaller
/// code point.
pub open spec fn precedes_at(a: Seq<char>, b: Seq<char>, n: int) -> bool {
    &&& 0 <= n < b.len()
    &&& n <= a.len()
    &&& forall|i: int| 0 <= i < n ==> a[i] == b[i]
    &&& n == a.len() || a[n] < b[n]
}

/// The order of texts: `a` comes strictly before `b`, comparing code point by
/// code point.
pub open spec fn precedes(a: Seq<char>, b: Seq<char>) -> bool {
    exists|n: int| precedes_at(a, b, n)
}

/// Whether `a` comes strictly before `b`.
pub fn text_precedes(a: &str, b: &str) -> (r: bool)
    ensures
        r == precedes(a@, b@),
{
    let a = chars_of(a);
    let b = chars_of(b);
    let mut i: usize = 0;
    while i < a.len() && i < b.len() && a[i] == b[i]
        invariant
            i <= a@.len(),
            i <= b@.len(),
            forall|j: int| 0 <= j < i ==> a@[j] == b@[j],
        decreases a@.len() - i,
    {
        i = i + 1;
    }
    if i < b.len() && (i == a.len() || a[i] < b[i]) {
        proof {
            assert(precedes_at(a@, b@, i as int));
        }
        true
    } else {
        proof {
            assert forall|n: int| !precedes_at(a@, b@, n) by {
                if precedes_at(a@, b@, n) {
                    if n < i {
                        assert(a@[n] == b@[n]);
                    } else if n > i {
                        assert(a@[i as int] == b@[i as int]);
                    }
                }
            }
        }
        false
    }
}

/// No text comes before itself.
pub proof fn lemma_precedes_irreflexive(a: Seq<char>)
    ensures
        !precedes(a, a),
{
}

/// The order of texts is transitive.
pub proof fn lemma_precedes_transitive(a: Seq<char>, b: Seq<char>, c: Seq<char>)
    requires
        precedes(a, b),
        precedes(b, c),
    ensures
        precedes(a, c),
{
    let m = choose|n: int| precedes_at(a, b, n);
    let n = choose|n: int| precedes_at(b, c, n);
    if m < n {
        assert(b[m] == c[m]);
        assert(precedes_at(a, c, m));
    } else {
        assert(precedes_at(a, c, n));
    }
}

/// The position at which two texts part.
proof fn lemma_first_difference(a: Seq<char>, b: Seq<char>, from: int) -> (n: int)
    requires
        0 <= from <= a.len(),
        from <= b.len(),
        forall|i: int| 0 <= i < from ==> a[i] == b[i],
    ensures
        from <= n <= a.len(),
        n <= b.len(),
        forall|i: int| 0 <= i < n ==> a[i] == b[i],
        n == a.len() || n == b.len() || a[n] != b[n],
    decreases a.len() - from,
{
    if from == a.len() || from == b.len() || a[from] != b[from] {
        from
    } else {
        lemma_first_difference(a, b, from + 1)
    }
}

/// Of two different texts one comes before the other.
pub proof fn lemma_precedes_total(a: Seq<char>, b: Seq<char>)
    ensures
        precedes(a, b) || a == b || precedes(b, a),
{
    let n = lemma_first_difference(a, b, 0);
    if n == a.len() && n == b.len() {
        assert(a == b);
    } else if n < b.len() && (n == a.len() || a[n] < b[n]) {
        assert(precedes_at(a, b, n));
    } else {
        assert(precedes_at(b, a, n));
    }
}

/// Texts are ordered like the words of a dictionary: the first difference
/// decides, and a text comes before its continuations.
pub proof fn law_order_of_texts(
    start: Seq<char>,
    c: char,
    d: char,
    x: Seq<char>,
    y: Seq<char>,
)
    ensures
        c < d ==> precedes(start.push(c) + x, start.push(d) + y),
        c < d ==> !precedes(start.push(d) + y, start.push(c) + x),
        precedes(start, start.push(c) + x),
        !precedes(start.push(c) + x, start),
{
    let a = start.push(c) + x;
    let b = start.push(d) + y;
    let n = start.len() as int;
    assert(precedes_at(start, a, n));
    if precedes(a, start) {
        let m = choose|m: int| precedes_at(a, start, m);
        assert(a[m] == start[m]);
    }
    if c < d {
        assert(precedes_at(a, b, n));
        if precedes(b, a) {
            lemma_precedes_transitive(a, b, a);
            lemma_precedes_irreflexive(a);
        }
    }
}

} // verus!
