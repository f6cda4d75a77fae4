//! Number literals that are chunk ids.
//!
//! A number is held as the bits of its double-precision value, so that its
//! value can be spoken of exactly.

use vstd::arithmetic::power2::{
    lemma2_to64, lemma2_to64_rest, lemma_pow2_adds, lemma_pow2_pos,
    lemma_pow2_strictly_increases, lemma_pow2_unfold, pow2,
};
use vstd::prelude::*;

use crate::text::text_view;

verus! {

/// The largest integer up to which every integer has a double of its own.
pub const MAX_SAFE: u64 = 9007199254740992;

/// The weight of the lowest exponent bit of a double.
pub const EXPONENT_WEIGHT: u64 = 0x10_0000_0000_0000;

/// The weight of the sign bit of a double.
pub const SIGN_WEIGHT: u64 = 0x8000_0000_0000_0000;

/// The biased exponent of a double.
pub open spec fn exponent_field(bits: u64) -> int {
    (bits as int / EXPONENT_WEIGHT as int) % 2048
}

/// The fraction field of a double.
pub open spec fn fraction_field(bits: u64) -> int {
    bits as int % EXPONENT_WEIGHT as int
}

/// Whether the sign bit of a double is set.
pub open spec fn is_negative(bits: u64) -> bool {
    bits as int / SIGN_WEIGHT as int == 1
}

/// The significand of a double: its value is the significand times two to
/// the power of `scale`.
pub open spec fn significand(bits: u64) -> int {
    if exponent_field(bits) == 0 {
        fraction_field(bits)
    } else {
        fraction_field(bits) + EXPONENT_WEIGHT
    }
}

/// The power of two by which the significand of a double is scaled.
pub open spec fn scale(bits: u64) -> int {
    if exponent_field(bits) == 0 {
        -1074
    } else {
        exponent_field(bits) - 1075
    }
}

/// `m` times two to the power of `e` is `n`.
pub open spec fn scaled(m: int, e: int, n: int) -> bool {
    if e >= 0 {
        m * pow2(e as nat) == n
    } else {
        m == n * pow2((-e) as nat)
    }
}

/// The double with these bits is a finite number whose value is `n`.
pub open spec fn denotes(bits: u64, n: int) -> bool {
    &&& exponent_field(bits) != 2047
    &&& scaled(
        if is_negative(bits) {
            -significand(bits)
        } else {
            significand(bits)
        },
        scale(bits),
        n,
    )
}

/// The non-negative integer up to `MAX_SAFE` that a double denotes, if it
/// denotes one.
pub open spec fn integer_value(bits: u64) -> Option<nat> {
    if exists|n: nat| n <= MAX_SAFE && denotes(bits, n as int) {
        Some(choose|n: nat| n <= MAX_SAFE && denotes(bits, n as int))
    } else {
        None
    }
}

/// The decimal digit `d`.
pub open spec fn digit(d: nat) -> char {
    (48 + d) as char
}

/// The decimal notation of `n`, without leading zeros.
pub open spec fn decimal(n: nat) -> Seq<char>
    decreases n,
{
    if n < 10 {
        seq![digit(n)]
    } else {
        decimal(n / 10).push(digit(n % 10))
    }
}

/// The text of a number literal that is a non-negative integer.
pub open spec fn integer_text(bits: u64) -> Option<Seq<char>> {
    match integer_value(bits) {
        Some(n) => Some(decimal(n)),
        None => None,
    }
}

proof fn lemma_scaled_unique(m: int, e: int, a: int, b: int)
    requires
        scaled(m, e, a),
        scaled(m, e, b),
    ensures
        a == b,
{
    if e < 0 {
        let p = pow2((-e) as nat);
        lemma_pow2_pos((-e) as nat);
        assert(a == b) by (nonlinear_arith)
            requires
                a * p == b * p,
                p > 0,
        ;
    }
}

proof fn lemma_scaled_halve(m: int, e: int, n: int)
    requires
        m >= 0,
        e < 0,
    ensures
        m % 2 == 0 ==> (scaled(m, e, n) <==> scaled(m / 2, e + 1, n)),
        m % 2 != 0 ==> !scaled(m, e, n),
{
    let k = (-e) as nat;
    let p = pow2(k);
    let q = pow2((k - 1) as nat);
    lemma_pow2_unfold(k);
    assert(p == 2 * q);
    assert(n * p == 2 * (n * q)) by (nonlinear_arith)
        requires
            p == 2 * q,
    ;
    if e + 1 == 0 {
        lemma2_to64();
        assert(q == 1);
        assert(n * q == n);
        assert((m / 2) * q == m / 2);
    }
}

proof fn lemma_scaled_double(m: int, e: int, n: int)
    requires
        e > 0,
    ensures
        scaled(m, e, n) <==> scaled(2 * m, e - 1, n),
{
    lemma_pow2_unfold(e as nat);
    let p = pow2(e as nat);
    let q = pow2((e - 1) as nat);
    assert(m * p == (2 * m) * q) by (nonlinear_arith)
        requires
            p == 2 * q,
    ;
}

/// The integer `m` times two to the power of `e`, if it is one and does not
/// exceed `MAX_SAFE`.
fn scaled_integer(m: u64, e: i64) -> (r: Option<u64>)
    requires
        0 < m <= MAX_SAFE,
        -1100 <= e <= 1100,
    ensures
        match r {
            Some(n) => n <= MAX_SAFE && scaled(m as int, e as int, n as int),
            None => forall|n: int| 0 <= n <= MAX_SAFE ==> !scaled(m as int, e as int, n),
        },
{
    let mut m2: u64 = m;
    let mut e2: i64 = e;
    while e2 < 0
        invariant
            0 < m2 <= MAX_SAFE,
            -1100 <= e2 <= 1100,
            forall|n: int| scaled(m as int, e as int, n) <==> scaled(m2 as int, e2 as int, n),
        decreases -e2,
    {
        proof {
            assert forall|n: int|
                m2 % 2 == 0 implies (scaled(m2 as int, e2 as int, n) <==> scaled(
                m2 as int / 2,
                e2 + 1,
                n,
            )) by {
                lemma_scaled_halve(m2 as int, e2 as int, n);
            }
            assert forall|n: int| m2 % 2 != 0 implies !scaled(m2 as int, e2 as int, n) by {
                lemma_scaled_halve(m2 as int, e2 as int, n);
            }
        }
        if m2 % 2 != 0 {
            return None;
        }
        m2 = m2 / 2;
        e2 = e2 + 1;
    }
    while e2 > 0
        invariant
            0 < m2 <= MAX_SAFE,
            0 <= e2 <= 1100,
            forall|n: int| scaled(m as int, e as int, n) <==> scaled(m2 as int, e2 as int, n),
        decreases e2,
    {
        proof {
            assert forall|n: int|
                scaled(m2 as int, e2 as int, n) <==> scaled(2 * m2, e2 - 1, n) by {
                lemma_scaled_double(m2 as int, e2 as int, n);
            }
        }
        if m2 > MAX_SAFE / 2 {
            proof {
                assert forall|n: int| 0 <= n <= MAX_SAFE implies !scaled(m as int, e as int, n) by {
                    let q = pow2((e2 - 1) as nat);
                    lemma_pow2_pos((e2 - 1) as nat);
                    assert(2 * m2 * q >= 2 * m2) by (nonlinear_arith)
                        requires
                            q >= 1,
                            m2 > 0,
                    ;
                }
            }
            return None;
        }
        m2 = 2 * m2;
        e2 = e2 - 1;
    }
    proof {
        lemma2_to64();
        assert(m2 as int * pow2(0) == m2);
        assert(scaled(m2 as int, 0, m2 as int));
    }
    Some(m2)
}

/// The non-negative integer that a number literal denotes, if it denotes one
/// that is not above `MAX_SAFE`.
pub fn integer_of(bits: u64) -> (r: Option<u64>)
    ensures
        match r {
            Some(n) => integer_value(bits) == Some(n as nat),
            None => integer_value(bits) is None,
        },
{
    let negative: bool = bits / SIGN_WEIGHT == 1;
    let exponent: u64 = (bits / EXPONENT_WEIGHT) % 2048;
    let fraction: u64 = bits % EXPONENT_WEIGHT;
    if exponent == 2047 {
        return None;
    }
    let m: u64 = if exponent == 0 { fraction } else { fraction + EXPONENT_WEIGHT };
    let e: i64 = if exponent == 0 { -1074 } else { exponent as i64 - 1075 };
    proof {
        assert(m == significand(bits));
        assert(e == scale(bits));
    }
    if m == 0 {
        proof {
            lemma_pow2_pos(1074);
            assert(0 * pow2(1074) == 0);
            assert(denotes(bits, 0nat as int));
            let n = choose|n: nat| n <= MAX_SAFE && denotes(bits, n as int);
            lemma_scaled_unique(0, scale(bits), 0, n as int);
        }
        return Some(0);
    }
    if negative {
        proof {
            assert forall|n: nat| n <= MAX_SAFE implies !denotes(bits, n as int) by {
                if e >= 0 {
                    let p = pow2(e as nat);
                    lemma_pow2_pos(e as nat);
                    assert(-m * p < 0) by (nonlinear_arith)
                        requires
                            m > 0,
                            p > 0,
                    ;
                } else {
                    let p = pow2((-e) as nat);
                    assert(n * p >= 0) by (nonlinear_arith);
                }
            }
        }
        return None;
    }
    let r = scaled_integer(m, e);
    proof {
        match r {
            Some(k) => {
                assert(denotes(bits, (k as nat) as int));
                let n = choose|n: nat| n <= MAX_SAFE && denotes(bits, n as int);
                lemma_scaled_unique(m as int, e as int, k as int, n as int);
            },
            None => {},
        }
    }
    r
}

/// The text of the digit `d`.
fn digit_text(d: u64) -> (r: &'static str)
    requires
        d < 10,
    ensures
        r@ == seq![digit(d as nat)],
{
    proof {
        reveal_strlit("0");
        reveal_strlit("1");
        reveal_strlit("2");
        reveal_strlit("3");
        reveal_strlit("4");
        reveal_strlit("5");
        reveal_strlit("6");
        reveal_strlit("7");
        reveal_strlit("8");
        reveal_strlit("9");
    }
    match d {
        0 => "0",
        1 => "1",
        2 => "2",
        3 => "3",
        4 => "4",
        5 => "5",
        6 => "6",
        7 => "7",
        8 => "8",
        _ => "9",
    }
}

/// The decimal notation of `n`.
pub fn decimal_string(n: u64) -> (r: String)
    ensures
        r@ == decimal(n as nat),
    decreases n,
{
    if n < 10 {
        digit_text(n).to_owned()
    } else {
        let mut s = decimal_string(n / 10);
        s.append(digit_text(n % 10));
        s
    }
}

/// Render a number literal as the canonical text of a non-negative integer.
/// Any other number has no such text.
pub fn integer_string(bits: u64) -> (r: Option<String>)
    ensures
        text_view(r) == integer_text(bits),
{
    match integer_of(bits) {
        Some(n) => Some(decimal_string(n)),
        None => None,
    }
}

// ---------------------------------------------------------------------------
// Laws
// ---------------------------------------------------------------------------

/// A number has one value.
pub proof fn law_number_has_one_value(bits: u64, a: int, b: int)
    requires
        denotes(bits, a),
        denotes(bits, b),
    ensures
        a == b,
{
    let m = if is_negative(bits) {
        -significand(bits)
    } else {
        significand(bits)
    };
    lemma_scaled_unique(m, scale(bits), a, b);
}

/// The text of a number is made of digits, without a leading zero.
pub proof fn law_decimal_is_canonical(n: nat)
    ensures
        decimal(n).len() > 0,
        forall|i: int| 0 <= i < decimal(n).len() ==> '0' <= #[trigger] decimal(n)[i] <= '9',
        decimal(n)[0] == '0' ==> n == 0,
    decreases n,
{
    if n >= 10 {
        law_decimal_is_canonical(n / 10);
    }
}

/// Different integers have different texts.
pub proof fn law_decimal_tells_integers_apart(a: nat, b: nat)
    requires
        decimal(a) == decimal(b),
    ensures
        a == b,
    decreases a,
{
    law_decimal_is_canonical(a / 10);
    law_decimal_is_canonical(b / 10);
    if a >= 10 && b >= 10 {
        assert(decimal(a).drop_last() =~= decimal(a / 10));
        assert(decimal(b).drop_last() =~= decimal(b / 10));
        law_decimal_tells_integers_apart(a / 10, b / 10);
        assert(decimal(a).last() == digit(a % 10));
        assert(decimal(b).last() == digit(b % 10));
    } else if a < 10 && b < 10 {
        assert(decimal(a)[0] == digit(a));
        assert(decimal(b)[0] == digit(b));
    } else if a >= 10 {
        assert(decimal(a).len() == decimal(a / 10).len() + 1);
    } else {
        assert(decimal(b).len() == decimal(b / 10).len() + 1);
    }
}

/// Two numbers are the same chunk id if and only if they are the same
/// integer, however they are written.
pub proof fn law_same_text_same_integer(x: u64, y: u64)
    requires
        integer_value(x) is Some,
        integer_value(y) is Some,
    ensures
        integer_text(x) == integer_text(y) <==> integer_value(x) == integer_value(y),
{
    if integer_text(x) == integer_text(y) {
        law_decimal_tells_integers_apart(integer_value(x)->0, integer_value(y)->0);
    }
}

/// A number has a text if and only if it is an integer from zero up to two to
/// the power of 53, and the text is that of the integer.
pub proof fn law_integers_have_a_text(bits: u64, n: nat)
    ensures
        n <= 9007199254740992 && denotes(bits, n as int) <==> integer_value(bits) == Some(n),
        integer_value(bits) == Some(n) ==> integer_text(bits) == Some(decimal(n)),
        integer_value(bits) is None ==> integer_text(bits) is None,
{
    if n <= MAX_SAFE && denotes(bits, n as int) {
        let m = choose|m: nat| m <= MAX_SAFE && denotes(bits, m as int);
        law_number_has_one_value(bits, m as int, n as int);
    }
}

/// The bits of a positive double: the one with the exponent `k` that lies
/// `f` steps above two to the power of `k`.
proof fn lemma_bits_of_a_double(bits: u64, k: nat, f: int)
    requires
        k < 1024,
        0 <= f < EXPONENT_WEIGHT,
        bits == (1023 + k) * EXPONENT_WEIGHT + f,
    ensures
        !is_negative(bits),
        exponent_field(bits) == 1023 + k,
        fraction_field(bits) == f,
{
}

/// The value of a positive double: `m` is its significand and `k` its
/// exponent.
proof fn lemma_value_of_a_double(m: int, k: nat, n: int)
    ensures
        scaled(m, k - 52, n) <==> m * pow2(k) == n * EXPONENT_WEIGHT,
{
    lemma2_to64_rest();
    assert(pow2(52) == EXPONENT_WEIGHT);
    if k >= 52 {
        let q = pow2((k - 52) as nat);
        lemma_pow2_adds((k - 52) as nat, 52);
        assert(m * pow2(k) == (m * q) * pow2(52)) by (nonlinear_arith)
            requires
                pow2(k) == q * pow2(52),
        ;
        assert(m * q == n <==> (m * q) * pow2(52) == n * pow2(52)) by (nonlinear_arith)
            requires
                pow2(52) > 0,
        ;
    } else {
        let q = pow2((52 - k) as nat);
        lemma_pow2_adds(k, (52 - k) as nat);
        lemma_pow2_pos(k);
        assert(n * pow2(52) == (n * q) * pow2(k)) by (nonlinear_arith)
            requires
                pow2(52) == pow2(k) * q,
        ;
        assert(m == n * q <==> m * pow2(k) == (n * q) * pow2(k)) by (nonlinear_arith)
            requires
                pow2(k) > 0,
        ;
    }
}

proof fn lemma_encoding_denotes(bits: u64, n: nat, k: nat)
    requires
        n <= MAX_SAFE,
        pow2(k) <= n < pow2(k + 1),
        (bits - (1023 + k) * EXPONENT_WEIGHT) * pow2(k) == (n - pow2(k)) * EXPONENT_WEIGHT,
    ensures
        denotes(bits, n as int),
{
    let p = pow2(k);
    let f = bits - (1023 + k) * EXPONENT_WEIGHT;
    lemma_small_exponent(n, k);
    lemma_pow2_unfold(k + 1);
    lemma_pow2_pos(k);
    assert(0 <= f < EXPONENT_WEIGHT) by (nonlinear_arith)
        requires
            f * p == (n - p) * EXPONENT_WEIGHT,
            p <= n < 2 * p,
            p > 0,
    ;
    lemma_bits_of_a_double(bits, k, f);
    lemma_value_of_a_double(f + EXPONENT_WEIGHT, k, n as int);
    assert((f + EXPONENT_WEIGHT) * p == n * EXPONENT_WEIGHT) by (nonlinear_arith)
        requires
            f * p == (n - p) * EXPONENT_WEIGHT,
    ;
}

/// The integers up to two to the power of 53 have an exponent of at most 53.
proof fn lemma_small_exponent(n: nat, k: nat)
    requires
        n <= MAX_SAFE,
        pow2(k) <= n,
    ensures
        k <= 53,
{
    lemma2_to64_rest();
    if k > 53 {
        lemma_pow2_strictly_increases(53, k);
        assert(pow2(53) == MAX_SAFE);
    }
}

proof fn lemma_denoting_is_encoding(bits: u64, n: nat, k: nat)
    requires
        0 < n <= MAX_SAFE,
        pow2(k) <= n < pow2(k + 1),
        denotes(bits, n as int),
    ensures
        (bits - (1023 + k) * EXPONENT_WEIGHT) * pow2(k) == (n - pow2(k)) * EXPONENT_WEIGHT,
{
    let m = significand(bits);
    let e = scale(bits);
    let w = EXPONENT_WEIGHT as int;
    lemma2_to64_rest();
    lemma_positive(bits, n);
    assert(bits as int / w < 2048);
    let f = fraction_field(bits);
    assert(bits == exponent_field(bits) * w + f);
    if e < -52 {
        let p = pow2((-e) as nat);
        if -e > 53 {
            lemma_pow2_strictly_increases(53, (-e) as nat);
        }
        assert(p >= 2 * w);
        assert(n * p >= p) by (nonlinear_arith)
            requires
                n > 0,
                p > 0,
        ;
        assert(m == n * p);
    }
    let j = (e + 52) as nat;
    let p = pow2(j);
    lemma_value_of_a_double(m, j, n as int);
    lemma_pow2_pos(j);
    lemma_pow2_unfold(j + 1);
    assert(exponent_field(bits) == 1023 + j);
    assert(w <= m < 2 * w);
    assert(p <= n < 2 * p) by (nonlinear_arith)
        requires
            m * p == n * w,
            w <= m < 2 * w,
            w > 0,
            p > 0,
    ;
    if j < k {
        if j + 1 < k {
            lemma_pow2_strictly_increases(j + 1, k);
        }
    } else if k < j {
        if k + 1 < j {
            lemma_pow2_strictly_increases(k + 1, j);
        }
    }
    assert(f * p == (n - p) * w) by (nonlinear_arith)
        requires
            (f + w) * p == n * w,
    ;
}

proof fn lemma_positive(bits: u64, n: nat)
    requires
        0 < n,
        denotes(bits, n as int),
    ensures
        !is_negative(bits),
{
    if is_negative(bits) {
        let m = significand(bits);
        let e = scale(bits);
        if e >= 0 {
            let p = pow2(e as nat);
            assert(-m * p <= 0) by (nonlinear_arith)
                requires
                    m >= 0,
                    p >= 0,
            ;
        } else {
            let p = pow2((-e) as nat);
            lemma_pow2_pos((-e) as nat);
            assert(n * p > 0) by (nonlinear_arith)
                requires
                    n > 0,
                    p > 0,
            ;
        }
    }
}

/// Every positive integer up to two to the power of 53 is read off the bits of
/// one double, its own: with `k` the exponent of the integer, the bits stand
/// `1023 + k` whole exponent steps up, and as far into the next one as the
/// integer stands between two to the power of `k` and the double of that.
pub proof fn law_bits_of_integers(bits: u64, n: nat, k: nat)
    requires
        n <= 9007199254740992,
        pow2(k) <= n < pow2(k + 1),
    ensures
        integer_value(bits) == Some(n) <==> (bits - (1023 + k) * 0x10_0000_0000_0000) * pow2(k) == (
        n - pow2(k)) * 0x10_0000_0000_0000,
{
    lemma_pow2_pos(k);
    law_integers_have_a_text(bits, n);
    if integer_value(bits) == Some(n) {
        lemma_denoting_is_encoding(bits, n, k);
    }
    if (bits - (1023 + k) * EXPONENT_WEIGHT) * pow2(k) == (n - pow2(k)) * EXPONENT_WEIGHT {
        lemma_encoding_denotes(bits, n, k);
    }
}

/// Zero is read off the bits of zero, with either sign, and no others.
pub proof fn law_bits_of_zero(bits: u64)
    ensures
        integer_value(bits) == Some(0nat) <==> bits == 0 || bits == 0x8000_0000_0000_0000,
{
    let m = significand(bits);
    let e = scale(bits);
    let signed = if is_negative(bits) {
        -m
    } else {
        m
    };
    law_integers_have_a_text(bits, 0);
    if e >= 0 {
        let p = pow2(e as nat);
        lemma_pow2_pos(e as nat);
        assert(signed * p == 0 <==> signed == 0) by (nonlinear_arith)
            requires
                p > 0,
        ;
    } else {
        assert(0 * pow2((-e) as nat) == 0);
    }
    assert(m == 0 <==> bits == 0 || bits == 0x8000_0000_0000_0000);
}

/// The number that some digits denote in decimal notation.
pub open spec fn digits_value(digits: Seq<char>) -> int
    decreases digits.len(),
{
    if digits.len() == 0 {
        0
    } else {
        digits_value(digits.drop_last()) * 10 + (digits.last() as int - '0' as int)
    }
}

/// The text of an integer reads back as the integer.
pub proof fn law_decimal_reads_back(n: nat)
    ensures
        digits_value(decimal(n)) == n,
    decreases n,
{
    let text = decimal(n);
    if n < 10 {
        assert(text.drop_last() =~= Seq::<char>::empty());
        assert(digits_value(text.drop_last()) == 0);
        assert(text.last() == digit(n));
    } else {
        law_decimal_reads_back(n / 10);
        assert(text.drop_last() =~= decimal(n / 10));
        assert(text.last() == digit(n % 10));
    }
}

} // verus!
