//! Argument lists for the FFmpeg tools: the pieces shared by every
//! invocation that the library builds.

use vstd::prelude::*;
use vstd::string::StringExecFns;

use crate::text::{decimal, digit_char, digit_to_char, push_char, push_decimal};
use crate::timeline::model::Timecode;

verus! {

/// The texts of a list of strings.
pub open spec fn texts(v: Seq<String>) -> Seq<Seq<char>> {
    v.map_values(|s: String| s@)
}

/// Appends an argument given as a literal.
pub fn push_str_arg(v: &mut Vec<String>, s: &str)
    ensures
        texts(final(v)@) == texts(old(v)@).push(s@),
{
    v.push(String::from_str(s));
    proof {
        assert(texts(v@) =~= texts(old(v)@).push(s@));
    }
}

/// Appends an argument.
pub fn push_arg(v: &mut Vec<String>, s: String)
    ensures
        texts(final(v)@) == texts(old(v)@).push(s@),
{
    let ghost t = s@;
    v.push(s);
    proof {
        assert(texts(v@) =~= texts(old(v)@).push(t));
    }
}

/// The parts joined, with `sep` between neighbours.
pub open spec fn join(parts: Seq<Seq<char>>, sep: Seq<char>) -> Seq<char>
    decreases parts.len(),
{
    if parts.len() == 0 {
        Seq::empty()
    } else if parts.len() == 1 {
        parts[0]
    } else {
        join(parts.drop_last(), sep) + sep + parts.last()
    }
}

/// The strings joined, with `sep` between neighbours.
pub fn join_texts(parts: &Vec<String>, sep: &str) -> (s: String)
    ensures
        s@ == join(texts(parts@), sep@),
{
    let mut s = String::new();
    let mut i: usize = 0;
    while i < parts.len()
        invariant
            i <= parts.len(),
            s@ == join(texts(parts@).take(i as int), sep@),
        decreases parts.len() - i,
    {
        let ghost before = texts(parts@).take(i as int);
        if i > 0 {
            s.append(sep);
        }
        s.append(parts[i].as_str());
        proof {
            let after = texts(parts@).take(i + 1);
            assert(after.drop_last() =~= before);
            if i == 0 {
                assert(before.len() == 0);
                assert(s@ =~= after[0]);
            }
        }
        i = i + 1;
    }
    assert(texts(parts@).take(parts.len() as int) =~= texts(parts@));
    s
}

/// The `width` lowest decimal digits of `n`, with leading zeros.
pub open spec fn padded(n: nat, width: nat) -> Seq<char>
    decreases width,
{
    if width == 0 {
        Seq::empty()
    } else {
        padded(n / 10, (width - 1) as nat).push(digit_char(n % 10))
    }
}

/// Appends the `width` lowest decimal digits of `n`, with leading zeros.
pub fn push_padded(s: &mut String, n: u64, width: u64)
    ensures
        final(s)@ == old(s)@ + padded(n as nat, width as nat),
    decreases width,
{
    if width > 0 {
        push_padded(s, n / 10, width - 1);
        push_char(s, digit_to_char(n % 10));
        proof {
            assert(padded(n as nat, width as nat) == padded((n / 10) as nat, (width - 1) as nat).push(
                digit_char((n % 10) as nat),
            ));
        }
    }
}

/// The largest magnitude of a timecode whose seconds print exactly.
pub const EXACT_MICROS: i64 = 0x10_0000_0000_0000;

/// The seconds of `us` microseconds with six decimals: the sign, the
/// whole seconds, a point and the microseconds, zero-padded. This is what
/// `format!("{:.6}", us as f64 / 1e6)` prints whenever `|us| <= 2^52`: the
/// quotient is then within half a microsecond of the exact value.
pub open spec fn micros_text(us: int) -> Seq<char> {
    let a = if us < 0 {
        -us
    } else {
        us
    };
    (if us < 0 {
        seq!['-']
    } else {
        Seq::empty()
    }) + decimal((a / 1_000_000) as nat) + seq!['.'] + padded((a % 1_000_000) as nat, 6)
}

/// The seconds of a timecode with six decimals.
pub fn seconds_text(t: Timecode) -> (s: String)
    requires
        -EXACT_MICROS <= t.0 <= EXACT_MICROS,
    ensures
        s@ == micros_text(t.0 as int),
{
    let mut s = String::new();
    let a: u64 = if t.0 < 0 {
        push_char(&mut s, '-');
        (-t.0) as u64
    } else {
        t.0 as u64
    };
    push_decimal(&mut s, a / 1_000_000);
    push_char(&mut s, '.');
    push_padded(&mut s, a % 1_000_000, 6);
    proof {
        if t.0 < 0 {
            assert(s@ =~= micros_text(t.0 as int));
        } else {
            assert(s@ =~= micros_text(t.0 as int));
        }
    }
    s
}

/// The decimal text of a number.
pub fn decimal_text(n: u64) -> (s: String)
    ensures
        s@ == decimal(n as nat),
{
    let mut s = String::new();
    push_decimal(&mut s, n);
    assert(s@ =~= decimal(n as nat));
    s
}

} // verus!
