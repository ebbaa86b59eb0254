//! The syntax of decimal floating-point numbers that `str::parse::<f32>`
//! accepts.

use vstd::prelude::*;

use crate::text::is_digit;

verus! {

/// A character in lower case when it is an ASCII upper-case letter.
pub open spec fn ascii_lower(c: char) -> char {
    if 'A' <= c && c <= 'Z' {
        ((c as u32) + 32) as char
    } else {
        c
    }
}

/// A text with its ASCII upper-case letters in lower case.
pub open spec fn lowered(s: Seq<char>) -> Seq<char> {
    s.map_values(|c: char| ascii_lower(c))
}

/// The number of digits in a text.
pub open spec fn digit_count(s: Seq<char>) -> nat
    decreases s.len(),
{
    if s.len() == 0 {
        0
    } else {
        digit_count(s.drop_last()) + if is_digit(s.last()) {
            1nat
        } else {
            0nat
        }
    }
}

/// The number of decimal points in a text.
pub open spec fn dot_count(s: Seq<char>) -> nat
    decreases s.len(),
{
    if s.len() == 0 {
        0
    } else {
        dot_count(s.drop_last()) + if s.last() == '.' {
            1nat
        } else {
            0nat
        }
    }
}

/// A mantissa: digits with at most one decimal point, and at least one
/// digit.
pub open spec fn is_mantissa(s: Seq<char>) -> bool {
    &&& forall|k: int| 0 <= k < s.len() ==> is_digit(#[trigger] s[k]) || s[k] == '.'
    &&& dot_count(s) <= 1
    &&& digit_count(s) >= 1
}

/// A text without one optional leading `+` or `-`.
pub open spec fn unsigned_part(s: Seq<char>) -> Seq<char> {
    if s.len() > 0 && (s[0] == '+' || s[0] == '-') {
        s.drop_first()
    } else {
        s
    }
}

/// An exponent after the `e`: an optional sign, then one or more digits.
pub open spec fn is_exponent(s: Seq<char>) -> bool {
    let d = unsigned_part(s);
    d.len() > 0 && forall|k: int| 0 <= k < d.len() ==> is_digit(#[trigger] d[k])
}

/// Whether a character starts an exponent.
pub open spec fn is_exp_mark(c: char) -> bool {
    c == 'e' || c == 'E'
}

/// The index of the first exponent mark, or the length when there is
/// none.
pub open spec fn exp_index(s: Seq<char>) -> nat
    decreases s.len(),
{
    if s.len() == 0 {
        0
    } else if is_exp_mark(s[0]) {
        0
    } else {
        1 + exp_index(s.drop_first())
    }
}

/// A decimal number: a mantissa, optionally followed by an exponent.
pub open spec fn is_number(s: Seq<char>) -> bool {
    let i = exp_index(s) as int;
    if i == s.len() {
        is_mantissa(s)
    } else {
        is_mantissa(s.take(i)) && is_exponent(s.skip(i + 1))
    }
}

/// One of the special values, in any case: `inf`, `infinity` or `nan`.
pub open spec fn is_special(s: Seq<char>) -> bool {
    let l = lowered(s);
    l == seq!['i', 'n', 'f'] || l == seq!['n', 'a', 'n'] || l == seq!['i', 'n', 'f', 'i', 'n', 'i', 't', 'y']
}

/// What `str::parse::<f32>` accepts: an optional sign, then a special
/// value or a decimal number.
pub open spec fn is_float_text(s: Seq<char>) -> bool {
    let body = unsigned_part(s);
    is_special(body) || is_number(body)
}

/// Whether `s[from..to]` is a mantissa.
fn mantissa_in(s: &Vec<char>, from: usize, to: usize) -> (b: bool)
    requires
        from <= to <= s.len(),
    ensures
        b == is_mantissa(s@.subrange(from as int, to as int)),
{
    let ghost t = s@.subrange(from as int, to as int);
    let mut digits: usize = 0;
    let mut dots: usize = 0;
    let mut k = from;
    while k < to
        invariant
            from <= k <= to <= s.len(),
            t == s@.subrange(from as int, to as int),
            digits == digit_count(t.take(k - from)),
            dots == dot_count(t.take(k - from)),
            digits <= k - from,
            dots <= k - from,
            forall|j: int| 0 <= j < k - from ==> is_digit(#[trigger] t[j]) || t[j] == '.',
        decreases to - k,
    {
        let c = s[k];
        proof {
            assert(t.take(k - from + 1).drop_last() =~= t.take(k - from));
            assert(t.take(k - from + 1).last() == c);
        }
        if '0' <= c && c <= '9' {
            digits = digits + 1;
        } else if c == '.' {
            dots = dots + 1;
        } else {
            assert(!(is_digit(t[k - from]) || t[k - from] == '.'));
            return false;
        }
        k = k + 1;
    }
    assert(t.take(to - from) =~= t);
    dots <= 1 && digits >= 1
}

/// Whether `s[from..to]` is an exponent (after its `e`).
fn exponent_in(s: &Vec<char>, from: usize, to: usize) -> (b: bool)
    requires
        from <= to <= s.len(),
    ensures
        b == is_exponent(s@.subrange(from as int, to as int)),
{
    let ghost t = s@.subrange(from as int, to as int);
    let mut k = from;
    if from < to && (s[from] == '+' || s[from] == '-') {
        k = from + 1;
    }
    let ghost d = s@.subrange(k as int, to as int);
    assert(d =~= unsigned_part(t));
    if k == to {
        return false;
    }
    let start = k;
    while k < to
        invariant
            start <= k <= to <= s.len(),
            d == s@.subrange(start as int, to as int),
            d == unsigned_part(t),
            t == s@.subrange(from as int, to as int),
            forall|j: int| 0 <= j < k - start ==> is_digit(#[trigger] d[j]),
        decreases to - k,
    {
        let c = s[k];
        if !('0' <= c && c <= '9') {
            assert(!is_digit(d[k - start]));
            return false;
        }
        k = k + 1;
    }
    true
}

/// `exp_index` of a suffix, from a scan that found no mark before `i`.
proof fn lemma_exp_index(s: Seq<char>, i: int)
    requires
        0 <= i <= s.len(),
        forall|j: int| 0 <= j < i ==> !is_exp_mark(#[trigger] s[j]),
        i == s.len() || is_exp_mark(s[i]),
    ensures
        exp_index(s) == i,
    decreases i,
{
    if i > 0 {
        assert forall|j: int| 0 <= j < i - 1 implies !is_exp_mark(#[trigger] s.drop_first()[j]) by {
            assert(s.drop_first()[j] == s[j + 1]);
        }
        lemma_exp_index(s.drop_first(), i - 1);
    }
}

/// A character in lower case when it is an ASCII upper-case letter.
fn lower(c: char) -> (r: char)
    ensures
        r == ascii_lower(c),
{
    if 'A' <= c && c <= 'Z' {
        ((c as u32 + 32) as u8) as char
    } else {
        c
    }
}

/// Whether `s[from..to]`, in lower case, equals `word`.
pub fn lower_equals(s: &Vec<char>, from: usize, to: usize, word: &Vec<char>) -> (b: bool)
    requires
        from <= to <= s.len(),
    ensures
        b == (lowered(s@.subrange(from as int, to as int)) == word@),
{
    let ghost l = lowered(s@.subrange(from as int, to as int));
    if to - from != word.len() {
        assert(l.len() != word@.len());
        return false;
    }
    let mut k: usize = 0;
    while k < word.len()
        invariant
            from + word.len() == to <= s.len(),
            k <= word.len(),
            l == lowered(s@.subrange(from as int, to as int)),
            forall|j: int| 0 <= j < k ==> l[j] == word@[j],
        decreases word.len() - k,
    {
        if lower(s[from + k]) != word[k] {
            assert(l[k as int] != word@[k as int]);
            return false;
        }
        k = k + 1;
    }
    assert(l =~= word@);
    true
}

/// Whether `s[from..to]` is a number `str::parse::<f32>` accepts.
pub fn float_text_in(s: &Vec<char>, from: usize, to: usize) -> (b: bool)
    requires
        from <= to <= s.len(),
    ensures
        b == is_float_text(s@.subrange(from as int, to as int)),
{
    let ghost t = s@.subrange(from as int, to as int);
    let mut k = from;
    if from < to && (s[from] == '+' || s[from] == '-') {
        k = from + 1;
    }
    let ghost body = s@.subrange(k as int, to as int);
    assert(body =~= unsigned_part(t));
    let inf = vec!['i', 'n', 'f'];
    let nan = vec!['n', 'a', 'n'];
    let infinity = vec!['i', 'n', 'f', 'i', 'n', 'i', 't', 'y'];
    proof {
        assert(inf@ =~= seq!['i', 'n', 'f']);
        assert(nan@ =~= seq!['n', 'a', 'n']);
        assert(infinity@ =~= seq!['i', 'n', 'f', 'i', 'n', 'i', 't', 'y']);
    }
    if lower_equals(s, k, to, &inf) || lower_equals(s, k, to, &nan) || lower_equals(s, k, to, &infinity) {
        return true;
    }
    let mut e = k;
    while e < to && !(s[e] == 'e' || s[e] == 'E')
        invariant
            k <= e <= to <= s.len(),
            body == s@.subrange(k as int, to as int),
            forall|j: int| 0 <= j < e - k ==> !is_exp_mark(#[trigger] body[j]),
        decreases to - e,
    {
        e = e + 1;
    }
    proof {
        lemma_exp_index(body, e - k);
    }
    if e == to {
        assert(body =~= s@.subrange(k as int, e as int));
        mantissa_in(s, k, to)
    } else {
        assert(body.take(e - k) =~= s@.subrange(k as int, e as int));
        assert(body.skip(e - k + 1) =~= s@.subrange(e + 1, to as int));
        mantissa_in(s, k, e) && exponent_in(s, e + 1, to)
    }
}

} // verus!
