use vstd::prelude::*;

use crate::text::{is_digit, is_digit_char};

verus! {

/// `+` or `-`.
pub open spec fn is_sign(c: char) -> bool {
    c == '+' || c == '-'
}

/// `e` or `E`.
pub open spec fn is_exp_mark(c: char) -> bool {
    c == 'e' || c == 'E'
}

pub open spec fn all_digits(s: Seq<char>) -> bool {
    forall|i: int| 0 <= i < s.len() ==> is_digit(#[trigger] s[i])
}

/// `Digit+`, `Digit+ '.' Digit*` or `Digit* '.' Digit+`.
pub open spec fn is_mantissa(s: Seq<char>) -> bool {
    (s.len() > 0 && all_digits(s)) || (s.len() > 1 && exists|d: int|
        0 <= d < s.len() && #[trigger] s[d] == '.' && all_digits(s.take(d)) && all_digits(
            s.skip(d + 1),
        ))
}

/// `('e' | 'E') Sign? Digit+`.
pub open spec fn is_exponent(s: Seq<char>) -> bool {
    s.len() > 1 && is_exp_mark(s[0]) && if is_sign(s[1]) {
        s.len() > 2 && all_digits(s.skip(2))
    } else {
        all_digits(s.skip(1))
    }
}

/// A mantissa, optionally followed by an exponent.
pub open spec fn is_number(s: Seq<char>) -> bool {
    is_mantissa(s) || exists|k: int|
        0 < k < s.len() && is_mantissa(s.take(k)) && #[trigger] is_exponent(s.skip(k))
}

/// `s` spells the word whose lower and upper case forms are given, letter by
/// letter in either case.
pub open spec fn spells(s: Seq<char>, lower: Seq<char>, upper: Seq<char>) -> bool {
    s.len() == lower.len() && forall|i: int| 0 <= i < s.len() ==> #[trigger] s[i] == lower[i] || s[i] == upper[i]
}

/// `inf`, `infinity` or `nan`, in any case.
pub open spec fn is_special_value(s: Seq<char>) -> bool {
    spells(s, seq!['i', 'n', 'f'], seq!['I', 'N', 'F']) || spells(
        s,
        seq!['i', 'n', 'f', 'i', 'n', 'i', 't', 'y'],
        seq!['I', 'N', 'F', 'I', 'N', 'I', 'T', 'Y'],
    ) || spells(s, seq!['n', 'a', 'n'], seq!['N', 'A', 'N'])
}

/// `s` without its leading sign, if it has one.
pub open spec fn unsigned_part(s: Seq<char>) -> Seq<char> {
    if s.len() > 0 && is_sign(s[0]) {
        s.skip(1)
    } else {
        s
    }
}

/// The text of a 64-bit floating-point number, as the standard library reads
/// one: `Sign? ('inf' | 'infinity' | 'nan' | Number)`, letters in any case, no
/// white space.
pub open spec fn is_float_text(s: Seq<char>) -> bool {
    is_special_value(unsigned_part(s)) || is_number(unsigned_part(s))
}

proof fn lemma_mantissa_chars(s: Seq<char>, j: int)
    requires
        is_mantissa(s),
        0 <= j < s.len(),
    ensures
        is_digit(s[j]) || s[j] == '.',
{
    if !(s.len() > 0 && all_digits(s)) {
        let d = choose|d: int|
            0 <= d < s.len() && #[trigger] s[d] == '.' && all_digits(s.take(d)) && all_digits(
                s.skip(d + 1),
            );
        if j < d {
            assert(s.take(d)[j] == s[j]);
        } else if j > d {
            assert(s.skip(d + 1)[j - d - 1] == s[j]);
        }
    }
}

fn digits_between(s: &str, from: usize, to: usize) -> (r: bool)
    requires
        from <= to <= s@.len(),
    ensures
        r == all_digits(s@.subrange(from as int, to as int)),
{
    let mut i: usize = from;
    while i < to
        invariant
            from <= i <= to <= s@.len(),
            forall|j: int| from <= j < i ==> is_digit(#[trigger] s@[j]),
        decreases to - i,
    {
        if !is_digit_char(s.get_char(i)) {
            assert(s@.subrange(from as int, to as int)[i - from] == s@[i as int]);
            return false;
        }
        i = i + 1;
    }
    assert forall|j: int| 0 <= j < to - from implies is_digit(
        #[trigger] s@.subrange(from as int, to as int)[j],
    ) by {
        assert(s@.subrange(from as int, to as int)[j] == s@[from + j]);
    }
    true
}

/// The first position in `from..to` that holds `c`, or `to`.
fn find_char(s: &str, from: usize, to: usize, c: char) -> (k: usize)
    requires
        from <= to <= s@.len(),
    ensures
        from <= k <= to,
        k < to ==> s@[k as int] == c,
        forall|j: int| from <= j < k ==> s@[j] != c,
{
    let mut i: usize = from;
    while i < to
        invariant
            from <= i <= to <= s@.len(),
            forall|j: int| from <= j < i ==> s@[j] != c,
        decreases to - i,
    {
        if s.get_char(i) == c {
            return i;
        }
        i = i + 1;
    }
    to
}

/// The first position in `from..to` that holds an exponent mark, or `to`.
fn find_exp_mark(s: &str, from: usize, to: usize) -> (k: usize)
    requires
        from <= to <= s@.len(),
    ensures
        from <= k <= to,
        k < to ==> is_exp_mark(s@[k as int]),
        forall|j: int| from <= j < k ==> !is_exp_mark(#[trigger] s@[j]),
{
    let mut i: usize = from;
    while i < to
        invariant
            from <= i <= to <= s@.len(),
            forall|j: int| from <= j < i ==> !is_exp_mark(#[trigger] s@[j]),
        decreases to - i,
    {
        let c = s.get_char(i);
        if c == 'e' || c == 'E' {
            return i;
        }
        i = i + 1;
    }
    to
}

fn check_mantissa(s: &str, from: usize, to: usize) -> (r: bool)
    requires
        from <= to <= s@.len(),
    ensures
        r == is_mantissa(s@.subrange(from as int, to as int)),
{
    let ghost m = s@.subrange(from as int, to as int);
    let d = find_char(s, from, to, '.');
    if d == to {
        let r = to > from && digits_between(s, from, to);
        proof {
            assert forall|e: int| 0 <= e < m.len() implies #[trigger] m[e] != '.' by {
                assert(m[e] == s@[from + e]);
            }
        }
        r
    } else {
        let a = digits_between(s, from, d);
        let b = digits_between(s, d + 1, to);
        let r = to - from > 1 && a && b;
        proof {
            let dd = d - from;
            assert(m[dd] == '.');
            assert(m.take(dd) =~= s@.subrange(from as int, d as int));
            assert(m.skip(dd + 1) =~= s@.subrange(d + 1, to as int));
            assert(!all_digits(m)) by {
                assert(!is_digit(m[dd]));
            }
            if is_mantissa(m) && !r {
                let e = choose|e: int|
                    0 <= e < m.len() && #[trigger] m[e] == '.' && all_digits(m.take(e))
                        && all_digits(m.skip(e + 1));
                if e < dd {
                    assert(m[e] == s@[from + e]);
                } else if e > dd {
                    assert(m.take(e)[dd] == m[dd]);
                }
            }
        }
        r
    }
}

fn check_exponent(s: &str, from: usize, to: usize) -> (r: bool)
    requires
        from <= to <= s@.len(),
    ensures
        r == is_exponent(s@.subrange(from as int, to as int)),
{
    let ghost x = s@.subrange(from as int, to as int);
    if to - from < 2 {
        return false;
    }
    let c0 = s.get_char(from);
    let c1 = s.get_char(from + 1);
    assert(x[0] == c0 && x[1] == c1);
    if !(c0 == 'e' || c0 == 'E') {
        return false;
    }
    if c1 == '+' || c1 == '-' {
        assert(x.skip(2) =~= s@.subrange(from + 2, to as int));
        to - from > 2 && digits_between(s, from + 2, to)
    } else {
        assert(x.skip(1) =~= s@.subrange(from + 1, to as int));
        digits_between(s, from + 1, to)
    }
}

fn check_number(s: &str, from: usize, to: usize) -> (r: bool)
    requires
        from <= to <= s@.len(),
    ensures
        r == is_number(s@.subrange(from as int, to as int)),
{
    let ghost t = s@.subrange(from as int, to as int);
    let k = find_exp_mark(s, from, to);
    if k == to {
        let r = check_mantissa(s, from, to);
        proof {
            assert forall|j: int| 0 < j < t.len() implies !#[trigger] is_exponent(t.skip(j)) by {
                assert(t.skip(j)[0] == s@[from + j]);
            }
        }
        r
    } else {
        let kk: usize = k - from;
        let r = k > from && check_mantissa(s, from, k) && check_exponent(s, k, to);
        proof {
            assert(t.take(kk as int) =~= s@.subrange(from as int, k as int));
            assert(t.skip(kk as int) =~= s@.subrange(k as int, to as int));
            assert(t[kk as int] == s@[k as int]);
            if is_mantissa(t) {
                lemma_mantissa_chars(t, kk as int);
            }
            if !r && is_number(t) {
                let j = choose|j: int|
                    0 < j < t.len() && is_mantissa(t.take(j)) && #[trigger] is_exponent(t.skip(j));
                assert(t.skip(j)[0] == t[j]);
                assert(t[j] == s@[from + j]);
                if j > kk {
                    lemma_mantissa_chars(t.take(j), kk as int);
                    assert(t.take(j)[kk as int] == t[kk as int]);
                }
            }
        }
        r
    }
}

/// Whether `s` spells, from position `from` to its end, the word whose lower
/// and upper case forms are given.
fn spells_at(s: &str, from: usize, lower: &str, upper: &str) -> (r: bool)
    requires
        from <= s@.len(),
        lower@.len() == upper@.len(),
    ensures
        r == spells(s@.skip(from as int), lower@, upper@),
{
    let ghost t = s@.skip(from as int);
    let n = s.unicode_len();
    let w = lower.unicode_len();
    if n - from != w {
        return false;
    }
    let mut i: usize = 0;
    while i < w
        invariant
            n == s@.len(),
            w == lower@.len(),
            w == upper@.len(),
            n - from == w,
            from <= n,
            i <= w,
            t == s@.skip(from as int),
            forall|j: int| 0 <= j < i ==> #[trigger] t[j] == lower@[j] || t[j] == upper@[j],
        decreases w - i,
    {
        let c = s.get_char(from + i);
        assert(t[i as int] == c);
        if c != lower.get_char(i) && c != upper.get_char(i) {
            return false;
        }
        i = i + 1;
    }
    true
}

/// Whether the standard library reads `s` as a 64-bit floating-point number.
pub fn is_float_text_exec(s: &str) -> (r: bool)
    ensures
        r == is_float_text(s@),
{
    let n = s.unicode_len();
    let mut i: usize = 0;
    if n > 0 {
        let c = s.get_char(0);
        if c == '+' || c == '-' {
            i = 1;
        }
    }
    assert(unsigned_part(s@) =~= s@.skip(i as int));
    assert(s@.skip(i as int) =~= s@.subrange(i as int, n as int));
    proof {
        reveal_strlit("inf");
        reveal_strlit("INF");
        reveal_strlit("infinity");
        reveal_strlit("INFINITY");
        reveal_strlit("nan");
        reveal_strlit("NAN");
        assert("inf"@ =~= seq!['i', 'n', 'f']);
        assert("INF"@ =~= seq!['I', 'N', 'F']);
        assert("infinity"@ =~= seq!['i', 'n', 'f', 'i', 'n', 'i', 't', 'y']);
        assert("INFINITY"@ =~= seq!['I', 'N', 'F', 'I', 'N', 'I', 'T', 'Y']);
        assert("nan"@ =~= seq!['n', 'a', 'n']);
        assert("NAN"@ =~= seq!['N', 'A', 'N']);
    }
    spells_at(s, i, "inf", "INF") || spells_at(s, i, "infinity", "INFINITY") || spells_at(
        s,
        i,
        "nan",
        "NAN",
    ) || check_number(s, i, n)
}

} // verus!
