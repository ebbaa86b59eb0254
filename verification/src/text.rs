//! Decimal rendering of integers, and small string-building helpers.

use vstd::prelude::*;
use vstd::std_specs::iter::IteratorSpec;
use vstd::string::spec_iter;

verus! {

broadcast use vstd::string::group_string_axioms;

/// The character of a decimal digit.
pub open spec fn digit_char(d: nat) -> char {
    ((48 + d) as u8) as char
}

/// The decimal digits of `n`, most significant first, without leading
/// zeros (`"0"` for zero).
pub open spec fn decimal(n: nat) -> Seq<char>
    decreases n,
{
    if n < 10 {
        seq![digit_char(n)]
    } else {
        decimal(n / 10).push(digit_char(n % 10))
    }
}

/// The decimal text of an integer, with a leading `-` when negative.
pub open spec fn signed_decimal(x: int) -> Seq<char> {
    if x < 0 {
        seq!['-'] + decimal((-x) as nat)
    } else {
        decimal(x as nat)
    }
}

/// Appends a character to a string through `String::push`.
#[verifier::external_body]
pub fn push_char(s: &mut String, c: char)
    ensures
        final(s)@ == old(s)@.push(c),
{
    s.push(c);
}

/// The character of a digit below ten.
pub fn digit_to_char(d: u64) -> (c: char)
    requires
        d < 10,
    ensures
        c == digit_char(d as nat),
{
    ((d as u8) + 48u8) as char
}

/// Appends the decimal digits of `n`.
pub fn push_decimal(s: &mut String, n: u64)
    ensures
        final(s)@ == old(s)@ + decimal(n as nat),
    decreases n,
{
    if n >= 10 {
        push_decimal(s, n / 10);
    }
    let c = digit_to_char(n % 10);
    push_char(s, c);
    proof {
        if n >= 10 {
            assert(decimal(n as nat) == decimal((n / 10) as nat).push(digit_char((n % 10) as nat)));
        }
    }
}

/// Appends the signed decimal text of `x`.
pub fn push_signed(s: &mut String, x: i64)
    ensures
        final(s)@ == old(s)@ + signed_decimal(x as int),
{
    if x < 0 {
        push_char(s, '-');
        let m: u64 = if x == i64::MIN { 0x8000_0000_0000_0000u64 } else { (-x) as u64 };
        push_decimal(s, m);
        assert(s@ =~= old(s)@ + (seq!['-'] + decimal((-x) as nat)));
    } else {
        push_decimal(s, x as u64);
    }
}

/// Whether a character is white space in Unicode's sense (what
/// `char::is_whitespace` tests).
pub open spec fn is_ws(c: char) -> bool {
    let u = c as u32;
    ||| 0x09 <= u <= 0x0d
    ||| u == 0x20
    ||| u == 0x85
    ||| u == 0xa0
    ||| u == 0x1680
    ||| 0x2000 <= u <= 0x200a
    ||| u == 0x2028
    ||| u == 0x2029
    ||| u == 0x202f
    ||| u == 0x205f
    ||| u == 0x3000
}

/// Whether `c` is white space (`char::is_whitespace`).
pub fn is_whitespace(c: char) -> (b: bool)
    ensures
        b == is_ws(c),
{
    let u = c as u32;
    (0x09 <= u && u <= 0x0d) || u == 0x20 || u == 0x85 || u == 0xa0 || u == 0x1680 || (0x2000
        <= u && u <= 0x200a) || u == 0x2028 || u == 0x2029 || u == 0x202f || u == 0x205f || u
        == 0x3000
}

/// `word` stands in `text` at index `i`, delimited by white space or by
/// the ends of the text.
pub open spec fn word_at(text: Seq<char>, i: int, word: Seq<char>) -> bool {
    &&& 0 <= i
    &&& i + word.len() <= text.len()
    &&& text.subrange(i, i + word.len()) == word
    &&& (i == 0 || is_ws(text[i - 1]))
    &&& (i + word.len() == text.len() || is_ws(text[i + word.len()]))
}

/// Whether `word` is one of the white-space separated words of `text`
/// (what `text.split_whitespace().any(|w| w == word)` computes).
pub open spec fn has_word(text: Seq<char>, word: Seq<char>) -> bool {
    &&& word.len() > 0
    &&& forall|k: int| 0 <= k < word.len() ==> !is_ws(#[trigger] word[k])
    &&& exists|i: int| word_at(text, i, word)
}

/// Whether `text[i..i + word.len()]` equals `word`.
fn matches_at(text: &Vec<char>, i: usize, word: &Vec<char>) -> (b: bool)
    requires
        i + word.len() <= text.len(),
    ensures
        b == (text@.subrange(i as int, i + word.len()) == word@),
{
    let mut k: usize = 0;
    while k < word.len()
        invariant
            i + word.len() <= text.len(),
            k <= word.len(),
            forall|j: int| 0 <= j < k ==> text@[i + j] == word@[j],
        decreases word.len() - k,
    {
        if text[i + k] != word[k] {
            assert(text@.subrange(i as int, i + word.len())[k as int] != word@[k as int]);
            return false;
        }
        k = k + 1;
    }
    assert(text@.subrange(i as int, i + word.len()) =~= word@);
    true
}

/// Whether `word` is one of the white-space separated words of `text`.
pub fn contains_word(text: &Vec<char>, word: &Vec<char>) -> (b: bool)
    ensures
        b == has_word(text@, word@),
{
    if word.len() == 0 {
        return false;
    }
    let mut k: usize = 0;
    while k < word.len()
        invariant
            k <= word.len(),
            forall|j: int| 0 <= j < k ==> !is_ws(#[trigger] word@[j]),
        decreases word.len() - k,
    {
        if is_whitespace(word[k]) {
            return false;
        }
        k = k + 1;
    }
    if word.len() > text.len() {
        assert forall|i: int| !word_at(text@, i, word@) by {}
        return false;
    }
    let last = text.len() - word.len();
    let mut i: usize = 0;
    while i <= last
        invariant
            last + word.len() == text.len(),
            forall|j: int| 0 <= j < word.len() ==> !is_ws(#[trigger] word@[j]),
            word.len() > 0,
            forall|j: int| 0 <= j < i ==> !word_at(text@, j, word@),
        decreases last + 1 - i,
    {
        let before = i == 0 || is_whitespace(text[i - 1]);
        let after = i == last || is_whitespace(text[i + word.len()]);
        if before && after && matches_at(text, i, word) {
            assert(word_at(text@, i as int, word@));
            return true;
        }
        i = i + 1;
    }
    assert forall|j: int| !word_at(text@, j, word@) by {
        if word_at(text@, j, word@) {
            assert(j < i);
        }
    }
    false
}

/// Whether a character is an ASCII decimal digit.
pub open spec fn is_digit(c: char) -> bool {
    '0' <= c && c <= '9'
}

/// The value of a sequence of decimal digits.
pub open spec fn digits_value(d: Seq<char>) -> nat
    decreases d.len(),
{
    if d.len() == 0 {
        0
    } else {
        digits_value(d.drop_last()) * 10 + ((d.last() as u32) - 48) as nat
    }
}

/// A number's text without its optional leading `+`.
pub open spec fn unsigned_digits(s: Seq<char>) -> Seq<char> {
    if s.len() > 0 && s[0] == '+' {
        s.drop_first()
    } else {
        s
    }
}

/// What `str::parse::<u64>` gives for a text: an optional `+`, then one
/// or more ASCII digits whose value fits in `u64`.
pub open spec fn u64_parse(s: Seq<char>) -> Option<u64> {
    let d = unsigned_digits(s);
    if d.len() > 0 && (forall|k: int| 0 <= k < d.len() ==> is_digit(#[trigger] d[k])) && digits_value(d)
        <= u64::MAX {
        Some(digits_value(d) as u64)
    } else {
        None
    }
}

/// A longer run of digits is worth at least as much as its prefix.
proof fn lemma_digits_value_prefix(d: Seq<char>, i: int)
    requires
        0 <= i <= d.len(),
        forall|k: int| 0 <= k < d.len() ==> is_digit(#[trigger] d[k]),
    ensures
        digits_value(d.take(i)) <= digits_value(d),
    decreases d.len() - i,
{
    if i < d.len() {
        lemma_digits_value_prefix(d, i + 1);
        assert(d.take(i + 1).drop_last() =~= d.take(i));
        assert(is_digit(d[i]));
    } else {
        assert(d.take(i) =~= d);
    }
}

/// Parses `s[start..end]` as `str::parse::<u64>` does.
pub fn parse_u64_in(s: &Vec<char>, start: usize, end: usize) -> (r: Option<u64>)
    requires
        start <= end <= s.len(),
    ensures
        r == u64_parse(s@.subrange(start as int, end as int)),
{
    let ghost t = s@.subrange(start as int, end as int);
    let mut from = start;
    if start < end && s[start] == '+' {
        from = start + 1;
    }
    let ghost d = s@.subrange(from as int, end as int);
    assert(d =~= unsigned_digits(t));
    if from == end {
        return None;
    }
    let mut k = from;
    while k < end
        invariant
            from <= k <= end <= s.len(),
            d == s@.subrange(from as int, end as int),
            t == s@.subrange(start as int, end as int),
            d == unsigned_digits(t),
            forall|j: int| 0 <= j < k - from ==> is_digit(#[trigger] d[j]),
        decreases end - k,
    {
        let c = s[k];
        if !('0' <= c && c <= '9') {
            assert(!is_digit(d[k - from]));
            return None;
        }
        k = k + 1;
    }
    let mut value: u64 = 0;
    let mut k = from;
    while k < end
        invariant
            from <= k <= end <= s.len(),
            d == s@.subrange(from as int, end as int),
            t == s@.subrange(start as int, end as int),
            d == unsigned_digits(t),
            forall|j: int| 0 <= j < d.len() ==> is_digit(#[trigger] d[j]),
            value == digits_value(d.take(k - from)),
        decreases end - k,
    {
        let c = s[k];
        assert(d.take(k - from + 1).drop_last() =~= d.take(k - from));
        assert(d.take(k - from + 1).last() == c);
        let digit = (c as u32 - 48) as u64;
        assert(digits_value(d.take(k - from + 1)) == value * 10 + digit);
        match value.checked_mul(10) {
            Some(m) => match m.checked_add(digit) {
                Some(v) => {
                    value = v;
                },
                None => {
                    proof {
                        lemma_digits_value_prefix(d, k - from + 1);
                    }
                    return None;
                },
            },
            None => {
                proof {
                    lemma_digits_value_prefix(d, k - from + 1);
                }
                return None;
            },
        }
        k = k + 1;
    }
    assert(d.take(end - from) =~= d);
    Some(value)
}

/// The characters of a string, in order.
pub fn chars_of(s: &str) -> (v: Vec<char>)
    ensures
        v@ == s@,
{
    let mut v: Vec<char> = Vec::new();
    let ghost all = spec_iter(s).remaining();
    for c in it: s.chars()
        invariant
            it.seq() == all,
            all == s@,
            v@ == all.take(it.index()),
    {
        v.push(c);
        assert(v@ =~= all.take(it.index() + 1));
    }
    assert(v@ =~= all);
    v
}

} // verus!
