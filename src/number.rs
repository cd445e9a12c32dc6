//! Recognition of numeric literals: the decimal and exponent forms, and the
//! special values, that a 64-bit float reads from text.
//!
//! The accepted forms, with letters compared without regard to ASCII case:
//! `Sign? ( "inf" | "infinity" | "nan" | Number )`, where
//! `Number = ( Digit+ | Digit+ "." Digit* | Digit* "." Digit+ ) ( "e" Sign? Digit+ )?`.

use vstd::prelude::*;
use vstd::string::*;

verus! {

pub open spec fn is_digit(c: char) -> bool {
    '0' <= c <= '9'
}

pub open spec fn is_sign(c: char) -> bool {
    c == '+' || c == '-'
}

pub open spec fn is_exp_mark(c: char) -> bool {
    c == 'e' || c == 'E'
}

pub open spec fn all_digits(s: Seq<char>) -> bool {
    forall|i: int| 0 <= i < s.len() ==> is_digit(#[trigger] s[i])
}

/// `Digit+ | Digit+ "." Digit* | Digit* "." Digit+`.
pub open spec fn is_mantissa(m: Seq<char>) -> bool {
    ||| m.len() > 0 && all_digits(m)
    ||| exists|p: int|
        0 <= p < m.len() && m.len() >= 2 && #[trigger] m[p] == '.' && all_digits(m.subrange(0, p))
            && all_digits(m.subrange(p + 1, m.len() as int))
}

/// `Sign? Digit+`.
pub open spec fn is_exponent(x: Seq<char>) -> bool {
    if x.len() > 0 && is_sign(x[0]) {
        x.len() > 1 && all_digits(x.drop_first())
    } else {
        x.len() > 0 && all_digits(x)
    }
}

/// A mantissa, optionally followed by an exponent mark and an exponent.
pub open spec fn is_decimal(b: Seq<char>) -> bool {
    ||| is_mantissa(b)
    ||| exists|k: int|
        0 <= k < b.len() && is_exp_mark(#[trigger] b[k]) && is_mantissa(b.subrange(0, k))
            && is_exponent(b.subrange(k + 1, b.len() as int))
}

/// `c` is the lower-case ASCII letter `w`, or its upper-case form.
pub open spec fn same_letter(c: char, w: char) -> bool {
    c == w || ('a' <= w <= 'z' && c as u32 + 32 == w as u32)
}

/// The text spells the lower-case word `w`, ignoring ASCII case.
pub open spec fn spells(b: Seq<char>, w: Seq<char>) -> bool {
    b.len() == w.len() && forall|i: int| 0 <= i < b.len() ==> same_letter(#[trigger] b[i], w[i])
}

/// The text without a leading sign.
pub open spec fn unsigned_part(t: Seq<char>) -> Seq<char> {
    if t.len() > 0 && is_sign(t[0]) {
        t.drop_first()
    } else {
        t
    }
}

/// Whether the text reads as a 64-bit float.
pub open spec fn is_float_text(t: Seq<char>) -> bool {
    let b = unsigned_part(t);
    spells(b, "inf"@) || spells(b, "infinity"@) || spells(b, "nan"@) || is_decimal(b)
}

proof fn lemma_mantissa_chars(m: Seq<char>, i: int)
    requires
        is_mantissa(m),
        0 <= i < m.len(),
    ensures
        is_digit(m[i]) || m[i] == '.',
{
    if !(m.len() > 0 && all_digits(m)) {
        let p = choose|p: int|
            0 <= p < m.len() && m.len() >= 2 && #[trigger] m[p] == '.' && all_digits(m.subrange(0, p))
                && all_digits(m.subrange(p + 1, m.len() as int));
        if i < p {
            assert(m.subrange(0, p)[i] == m[i]);
        } else if i > p {
            assert(m.subrange(p + 1, m.len() as int)[i - p - 1] == m[i]);
        }
    }
}

fn chars_of(s: &str) -> (r: Vec<char>)
    ensures
        r@ == s@,
{
    let mut r: Vec<char> = Vec::new();
    for c in it: s.chars()
        invariant
            it.seq() == s@,
            r@ == s@.subrange(0, it.index() as int),
    {
        proof {
            assert(s@.subrange(0, it.index() + 1) =~= r@.push(c));
        }
        r.push(c);
    }
    proof {
        assert(s@.subrange(0, s@.len() as int) =~= s@);
    }
    r
}

fn sub_vec(v: &Vec<char>, lo: usize, hi: usize) -> (r: Vec<char>)
    requires
        lo <= hi <= v@.len(),
    ensures
        r@ == v@.subrange(lo as int, hi as int),
{
    let mut r: Vec<char> = Vec::new();
    let mut i: usize = lo;
    while i < hi
        invariant
            lo <= i <= hi <= v@.len(),
            r@ == v@.subrange(lo as int, i as int),
        decreases hi - i,
    {
        proof {
            assert(v@.subrange(lo as int, i + 1) =~= r@.push(v@[i as int]));
        }
        r.push(v[i]);
        i += 1;
    }
    r
}

fn digits_only(v: &Vec<char>) -> (r: bool)
    ensures
        r == all_digits(v@),
{
    let mut i: usize = 0;
    while i < v.len()
        invariant
            i <= v@.len(),
            all_digits(v@.subrange(0, i as int)),
        decreases v@.len() - i,
    {
        if !('0' <= v[i] && v[i] <= '9') {
            return false;
        }
        proof {
            assert forall|j: int| 0 <= j < i + 1 implies is_digit(#[trigger] v@.subrange(0, i + 1)[j]) by {
                if j < i {
                    assert(v@.subrange(0, i as int)[j] == v@[j]);
                }
            }
        }
        i += 1;
    }
    assert(v@.subrange(0, i as int) =~= v@);
    true
}

/// The position of the first character of `v` for which `dot` decides
/// between `'.'` and an exponent mark, or the length if there is none.
fn find_first(v: &Vec<char>, dot: bool) -> (r: usize)
    ensures
        r <= v@.len(),
        forall|j: int| 0 <= j < r ==> !(if dot { v@[j] == '.' } else { is_exp_mark(v@[j]) }),
        r < v@.len() ==> (if dot { v@[r as int] == '.' } else { is_exp_mark(v@[r as int]) }),
{
    let mut i: usize = 0;
    while i < v.len()
        invariant
            i <= v@.len(),
            forall|j: int| 0 <= j < i ==> !(if dot { v@[j] == '.' } else { is_exp_mark(v@[j]) }),
        decreases v@.len() - i,
    {
        let c = v[i];
        if (dot && c == '.') || (!dot && (c == 'e' || c == 'E')) {
            return i;
        }
        i += 1;
    }
    i
}

fn mantissa(m: &Vec<char>) -> (r: bool)
    ensures
        r == is_mantissa(m@),
{
    let n = m.len();
    let p = find_first(m, true);
    if p == n {
        let r = n > 0 && digits_only(m);
        proof {
            if !r {
                assert forall|q: int| 0 <= q < m@.len() implies #[trigger] m@[q] != '.' by {}
            }
        }
        return r;
    }
    let before = sub_vec(m, 0, p);
    let after = sub_vec(m, p + 1, n);
    let r = n >= 2 && digits_only(&before) && digits_only(&after);
    proof {
        if !r {
            if m@.len() > 0 && all_digits(m@) {
                assert(is_digit(m@[p as int]));
            }
            assert forall|q: int|
                0 <= q < m@.len() && m@.len() >= 2 && #[trigger] m@[q] == '.'
                implies !(all_digits(m@.subrange(0, q)) && all_digits(m@.subrange(q + 1, m@.len() as int))) by {
                if q > p {
                    assert(m@.subrange(0, q)[p as int] == '.');
                }
            }
        }
    }
    r
}

fn exponent(x: &Vec<char>) -> (r: bool)
    ensures
        r == is_exponent(x@),
{
    let n = x.len();
    if n > 0 && (x[0] == '+' || x[0] == '-') {
        let rest = sub_vec(x, 1, n);
        assert(rest@ =~= x@.drop_first());
        n > 1 && digits_only(&rest)
    } else {
        n > 0 && digits_only(x)
    }
}

fn decimal(b: &Vec<char>) -> (r: bool)
    ensures
        r == is_decimal(b@),
{
    let n = b.len();
    let k = find_first(b, false);
    if k == n {
        let r = mantissa(b);
        proof {
            assert forall|q: int| 0 <= q < b@.len() implies !is_exp_mark(#[trigger] b@[q]) by {}
        }
        return r;
    }
    let before = sub_vec(b, 0, k);
    let after = sub_vec(b, k + 1, n);
    let r = mantissa(&before) && exponent(&after);
    proof {
        if is_mantissa(b@) {
            lemma_mantissa_chars(b@, k as int);
        }
        if !r {
            assert forall|q: int|
                0 <= q < b@.len() && is_exp_mark(#[trigger] b@[q])
                implies !(is_mantissa(b@.subrange(0, q)) && is_exponent(b@.subrange(q + 1, b@.len() as int))) by {
                if q > k && is_mantissa(b@.subrange(0, q)) {
                    lemma_mantissa_chars(b@.subrange(0, q), k as int);
                }
            }
        }
    }
    r
}

fn spells_word(b: &Vec<char>, w: &str) -> (r: bool)
    ensures
        r == spells(b@, w@),
{
    let n = b.len();
    if n != w.unicode_len() {
        return false;
    }
    let mut i: usize = 0;
    while i < n
        invariant
            n == b@.len(),
            n == w@.len(),
            i <= n,
            forall|j: int| 0 <= j < i ==> same_letter(#[trigger] b@[j], w@[j]),
        decreases n - i,
    {
        let c = b[i];
        let l = w.get_char(i);
        if !(c == l || ('a' <= l && l <= 'z' && c as u32 == l as u32 - 32)) {
            return false;
        }
        i += 1;
    }
    true
}

/// Whether the text reads as a 64-bit float: decimal and exponent forms,
/// and the special values, with an optional sign.
pub fn is_float_literal(s: &str) -> (r: bool)
    ensures
        r == is_float_text(s@),
{
    let t = chars_of(s);
    let n = t.len();
    let b = if n > 0 && (t[0] == '+' || t[0] == '-') {
        sub_vec(&t, 1, n)
    } else {
        sub_vec(&t, 0, n)
    };
    proof {
        assert(b@ =~= unsigned_part(s@));
    }
    spells_word(&b, "inf") || spells_word(&b, "infinity") || spells_word(&b, "nan") || decimal(&b)
}

} // verus!
