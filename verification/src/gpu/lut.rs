//! Reading Adobe/Iridas `.cube` 3D LUT files: the directives, the data
//! rows, and the checks on them. The numbers stay text here; they are
//! exactly the texts that `str::parse::<f32>` accepts.

use vstd::prelude::*;
use vstd::string::StringExecFns;

use crate::gpu::float_text::{float_text_in, is_float_text};
use crate::media::process::trimmed;
use crate::text::{chars_of, is_whitespace, is_ws, parse_u64_in, push_char, u64_parse};

verus! {

/// The lines of a text: the pieces between line feeds (a piece may be
/// empty).
pub open spec fn split_lines(t: Seq<char>) -> Seq<Seq<char>>
    decreases t.len(),
{
    if t.len() == 0 {
        seq![Seq::empty()]
    } else {
        let p = split_lines(t.drop_last());
        if t.last() == '\n' {
            p.push(Seq::empty())
        } else {
            p.update(p.len() - 1, p.last().push(t.last()))
        }
    }
}

/// Whether `s` starts with `p`.
pub open spec fn starts_with(s: Seq<char>, p: Seq<char>) -> bool {
    p.len() <= s.len() && s.take(p.len() as int) == p
}

/// Reading a text word by word: the words so far and the word being read.
pub open spec fn word_scan(s: Seq<char>) -> (Seq<Seq<char>>, Seq<char>)
    decreases s.len(),
{
    if s.len() == 0 {
        (Seq::empty(), Seq::empty())
    } else {
        let (ws, cur) = word_scan(s.drop_last());
        if is_ws(s.last()) {
            (if cur.len() > 0 {
                ws.push(cur)
            } else {
                ws
            }, Seq::empty())
        } else {
            (ws, cur.push(s.last()))
        }
    }
}

/// The white-space separated words of a text.
pub open spec fn words(s: Seq<char>) -> Seq<Seq<char>> {
    let (ws, cur) = word_scan(s);
    if cur.len() > 0 {
        ws.push(cur)
    } else {
        ws
    }
}

/// The three numbers of a row: exactly three words, each a number.
pub open spec fn triple_of(s: Seq<char>) -> Option<Seq<Seq<char>>> {
    let w = words(s);
    if w.len() == 3 && is_float_text(w[0]) && is_float_text(w[1]) && is_float_text(w[2]) {
        Some(w)
    } else {
        None
    }
}

/// What `str::parse::<usize>` gives for a text.
pub open spec fn usize_parse(s: Seq<char>) -> Option<usize> {
    match u64_parse(s) {
        Some(v) => if v <= usize::MAX {
            Some(v as usize)
        } else {
            None
        },
        None => None,
    }
}

/// Where reading a `.cube` file stands: the size directive's value, the
/// domain bounds given so far, and the data rows.
pub struct CubeState {
    pub size: Option<usize>,
    pub domain_min: Option<Seq<Seq<char>>>,
    pub domain_max: Option<Seq<Seq<char>>>,
    pub rows: Seq<Seq<Seq<char>>>,
}

/// Reading one line of a `.cube` file, trimmed: blank lines and `#`
/// comments are skipped; `LUT_3D_SIZE` sets the size (to nothing when its
/// value does not parse); `DOMAIN_MIN` and `DOMAIN_MAX` set the domain
/// bounds; `TITLE` and `LUT_1D_SIZE` are skipped; any other line is a data
/// row. A bound or row that is not three numbers fails with the line.
pub open spec fn cube_step(st: CubeState, raw: Seq<char>) -> Result<CubeState, Seq<char>> {
    let line = trimmed(raw);
    if line.len() == 0 || line[0] == '#' {
        Ok(st)
    } else if starts_with(line, "LUT_3D_SIZE"@) {
        Ok(CubeState { size: usize_parse(trimmed(line.skip("LUT_3D_SIZE"@.len() as int))), ..st })
    } else if starts_with(line, "DOMAIN_MIN"@) {
        match triple_of(line.skip("DOMAIN_MIN"@.len() as int)) {
            Some(t) => Ok(CubeState { domain_min: Some(t), ..st }),
            None => Err(line),
        }
    } else if starts_with(line, "DOMAIN_MAX"@) {
        match triple_of(line.skip("DOMAIN_MAX"@.len() as int)) {
            Some(t) => Ok(CubeState { domain_max: Some(t), ..st }),
            None => Err(line),
        }
    } else if starts_with(line, "TITLE"@) || starts_with(line, "LUT_1D_SIZE"@) {
        Ok(st)
    } else {
        match triple_of(line) {
            Some(t) => Ok(CubeState { rows: st.rows.push(t), ..st }),
            None => Err(line),
        }
    }
}

/// Reading the lines in order, stopping at the first bad one.
pub open spec fn cube_fold(lines: Seq<Seq<char>>) -> Result<CubeState, Seq<char>>
    decreases lines.len(),
{
    if lines.len() == 0 {
        Ok(CubeState { size: None, domain_min: None, domain_max: None, rows: Seq::empty() })
    } else {
        match cube_fold(lines.drop_last()) {
            Ok(st) => cube_step(st, lines.last()),
            Err(e) => Err(e),
        }
    }
}

/// The lines that the rows of a successful read come from: one line index
/// per row, increasing.
proof fn row_lines(lines: Seq<Seq<char>>) -> (idx: Seq<int>)
    requires
        cube_fold(lines) is Ok,
    ensures
        idx.len() == cube_fold(lines)->Ok_0.rows.len(),
        forall|k: int| 0 <= k < idx.len() ==> 0 <= #[trigger] idx[k] < lines.len(),
        forall|k: int| 0 <= k < idx.len() ==> cube_fold(lines)->Ok_0.rows[k] == words(trimmed(lines[#[trigger] idx[k]])),
        forall|a: int, b: int| 0 <= a < b < idx.len() ==> #[trigger] idx[a] < #[trigger] idx[b],
    decreases lines.len(),
{
    if lines.len() == 0 {
        Seq::empty()
    } else {
        let rest = lines.drop_last();
        let prev = row_lines(rest);
        let st = cube_fold(rest)->Ok_0;
        let line = trimmed(lines.last());
        assert forall|k: int| 0 <= k < prev.len() implies lines[#[trigger] prev[k]] == rest[prev[k]] by {}
        if cube_fold(lines)->Ok_0.rows.len() == st.rows.len() {
            prev
        } else {
            let r = prev.push(lines.len() - 1);
            assert(r[prev.len() as int] == lines.len() - 1);
            assert forall|k: int| 0 <= k < prev.len() implies r[k] == prev[k] by {}
            r
        }
    }
}

/// Every data row of a `.cube` file read without error is exactly the
/// three words of one line of the file, in the order they are written
/// (red, green, blue), and the rows come in the order of their lines.
pub proof fn lemma_rows_are_line_words(text: Seq<char>)
    requires
        cube_fold(split_lines(text)) is Ok,
    ensures
        ({
            let lines = split_lines(text);
            let rows = cube_fold(lines)->Ok_0.rows;
            exists|idx: Seq<int>|
                #![trigger idx.len()]
                idx.len() == rows.len() && (forall|k: int| 0 <= k < rows.len() ==> 0 <= #[trigger] idx[k] < lines.len())
                    && (forall|k: int| 0 <= k < rows.len() ==> rows[k] == words(trimmed(lines[#[trigger] idx[k]])))
                    && (forall|a: int, b: int| 0 <= a < b < rows.len() ==> #[trigger] idx[a] < #[trigger] idx[b])
        }),
{
    let idx = row_lines(split_lines(text));
    assert(idx.len() == idx.len());
}

/// Why a `.cube` file cannot be read.
#[derive(Debug, PartialEq, Eq)]
pub enum LutError {
    MissingSize,
    WrongRowCount { expected: usize, found: usize },
    BadRow(String),
}

impl LutError {
    /// What the error says.
    pub open spec fn message_text(&self) -> Seq<char> {
        match self {
            LutError::MissingSize => "missing LUT_3D_SIZE directive"@,
            LutError::WrongRowCount { expected, found } => "expected "@ + crate::text::decimal(*expected as nat)
                + " data rows, found "@ + crate::text::decimal(*found as nat),
            LutError::BadRow(line) => "malformed data row: "@ + line@,
        }
    }

    /// What the error says.
    pub fn message(&self) -> (s: String)
        ensures
            s@ == self.message_text(),
    {
        match self {
            LutError::MissingSize => String::from_str("missing LUT_3D_SIZE directive"),
            LutError::WrongRowCount { expected, found } => {
                let mut s = String::from_str("expected ");
                crate::text::push_decimal(&mut s, *expected as u64);
                s.append(" data rows, found ");
                crate::text::push_decimal(&mut s, *found as u64);
                s
            },
            LutError::BadRow(line) => {
                let mut s = String::from_str("malformed data row: ");
                s.append(line.as_str());
                s
            },
        }
    }
}

/// Three numbers of a `.cube` file, as text: red, green, blue.
#[derive(Debug)]
pub struct CubeTriple {
    pub r: String,
    pub g: String,
    pub b: String,
}

/// The texts of a triple.
pub open spec fn triple_texts(t: CubeTriple) -> Seq<Seq<char>> {
    seq![t.r@, t.g@, t.b@]
}

/// The texts of a list of triples.
pub open spec fn triples_texts(v: Seq<CubeTriple>) -> Seq<Seq<Seq<char>>> {
    v.map_values(|t: CubeTriple| triple_texts(t))
}

/// The texts of an optional triple.
pub open spec fn opt_triple_texts(t: Option<CubeTriple>) -> Option<Seq<Seq<char>>> {
    match t {
        Some(x) => Some(triple_texts(x)),
        None => None,
    }
}

/// A `.cube` LUT as read: the grid size, the data rows (red fastest), and
/// the domain bounds when the file gives them (else 0 and 1).
#[derive(Debug)]
pub struct CubeFile {
    pub size: usize,
    pub rows: Vec<CubeTriple>,
    pub domain_min: Option<CubeTriple>,
    pub domain_max: Option<CubeTriple>,
}

/// Where reading stands, as the reader holds it.
struct Scan {
    size: Option<usize>,
    domain_min: Option<CubeTriple>,
    domain_max: Option<CubeTriple>,
    rows: Vec<CubeTriple>,
}

/// The mathematical value of a [`Scan`].
spec fn scan_view(s: Scan) -> CubeState {
    CubeState {
        size: s.size,
        domain_min: opt_triple_texts(s.domain_min),
        domain_max: opt_triple_texts(s.domain_max),
        rows: triples_texts(s.rows@),
    }
}

/// The text of `s[from..to]`.
fn text_of(s: &Vec<char>, from: usize, to: usize) -> (r: String)
    requires
        from <= to <= s.len(),
    ensures
        r@ == s@.subrange(from as int, to as int),
{
    let mut r = String::new();
    let mut k = from;
    while k < to
        invariant
            from <= k <= to <= s.len(),
            r@ == s@.subrange(from as int, k as int),
        decreases to - k,
    {
        push_char(&mut r, s[k]);
        assert(r@ =~= s@.subrange(from as int, k + 1));
        k = k + 1;
    }
    r
}

/// The views of a list of character vectors.
spec fn char_views(v: Seq<Vec<char>>) -> Seq<Seq<char>> {
    v.map_values(|w: Vec<char>| w@)
}

/// The words of `s[from..to]`.
fn words_in(s: &Vec<char>, from: usize, to: usize) -> (r: Vec<Vec<char>>)
    requires
        from <= to <= s.len(),
    ensures
        char_views(r@) == words(s@.subrange(from as int, to as int)),
{
    let ghost t = s@.subrange(from as int, to as int);
    let mut ws: Vec<Vec<char>> = Vec::new();
    let mut cur: Vec<char> = Vec::new();
    let mut k = from;
    proof {
        assert(t.take(0) =~= Seq::<char>::empty());
    }
    while k < to
        invariant
            from <= k <= to <= s.len(),
            t == s@.subrange(from as int, to as int),
            (char_views(ws@), cur@) == word_scan(t.take(k - from)),
        decreases to - k,
    {
        let c = s[k];
        proof {
            assert(t.take(k - from + 1).drop_last() =~= t.take(k - from));
            assert(t.take(k - from + 1).last() == c);
        }
        let ghost w0 = char_views(ws@);
        let ghost c0 = cur@;
        if is_whitespace(c) {
            if cur.len() > 0 {
                let done = cur;
                ws.push(done);
                assert(char_views(ws@) =~= w0.push(c0));
            }
            cur = Vec::new();
            assert(cur@ =~= Seq::<char>::empty());
        } else {
            cur.push(c);
        }
        k = k + 1;
    }
    assert(t.take(to - from) =~= t);
    if cur.len() > 0 {
        let ghost w0 = char_views(ws@);
        let ghost c0 = cur@;
        ws.push(cur);
        assert(char_views(ws@) =~= w0.push(c0));
    }
    ws
}

/// The three numbers of `s[from..to]`, when it is exactly three.
fn triple_in(s: &Vec<char>, from: usize, to: usize) -> (r: Option<CubeTriple>)
    requires
        from <= to <= s.len(),
    ensures
        opt_triple_texts(r) == triple_of(s@.subrange(from as int, to as int)),
{
    let w = words_in(s, from, to);
    if w.len() != 3 {
        return None;
    }
    proof {
        assert(char_views(w@)[0] == w@[0]@);
        assert(char_views(w@)[1] == w@[1]@);
        assert(char_views(w@)[2] == w@[2]@);
        assert(w[0]@.subrange(0, w[0]@.len() as int) =~= w[0]@);
        assert(w[1]@.subrange(0, w[1]@.len() as int) =~= w[1]@);
        assert(w[2]@.subrange(0, w[2]@.len() as int) =~= w[2]@);
    }
    if float_text_in(&w[0], 0, w[0].len()) && float_text_in(&w[1], 0, w[1].len()) && float_text_in(
        &w[2],
        0,
        w[2].len(),
    ) {
        let t = CubeTriple {
            r: text_of(&w[0], 0, w[0].len()),
            g: text_of(&w[1], 0, w[1].len()),
            b: text_of(&w[2], 0, w[2].len()),
        };
        assert(triple_texts(t) =~= char_views(w@));
        Some(t)
    } else {
        None
    }
}

/// Whether `s[from..to]` starts with `p`.
fn starts_with_in(s: &Vec<char>, from: usize, to: usize, p: &Vec<char>) -> (b: bool)
    requires
        from <= to <= s.len(),
    ensures
        b == starts_with(s@.subrange(from as int, to as int), p@),
{
    let ghost t = s@.subrange(from as int, to as int);
    if p.len() > to - from {
        return false;
    }
    let mut k: usize = 0;
    while k < p.len()
        invariant
            from + p.len() <= to <= s.len(),
            k <= p.len(),
            t == s@.subrange(from as int, to as int),
            forall|j: int| 0 <= j < k ==> t[j] == p@[j],
        decreases p.len() - k,
    {
        if s[from + k] != p[k] {
            assert(t.take(p.len() as int)[k as int] != p@[k as int]);
            return false;
        }
        k = k + 1;
    }
    assert(t.take(p.len() as int) =~= p@);
    true
}

/// The trimmed bounds of `s[from..to]`.
fn trim_in(s: &Vec<char>, from: usize, to: usize) -> (r: (usize, usize))
    requires
        from <= to <= s.len(),
    ensures
        from <= r.0 <= r.1 <= to,
        trimmed(s@.subrange(from as int, to as int)) == s@.subrange(r.0 as int, r.1 as int),
{
    let mut lo = from;
    while lo < to && is_whitespace(s[lo])
        invariant
            from <= lo <= to <= s.len(),
            forall|j: int| from <= j < lo ==> is_ws(s@[j]),
        decreases to - lo,
    {
        lo = lo + 1;
    }
    let mut hi = to;
    while hi > lo && is_whitespace(s[hi - 1])
        invariant
            from <= lo <= hi <= to <= s.len(),
            forall|j: int| hi <= j < to ==> is_ws(s@[j]),
        decreases hi - lo,
    {
        hi = hi - 1;
    }
    proof {
        let t = s@.subrange(from as int, to as int);
        crate::media::process::lemma_trimmed(t, lo - from, hi - from);
        assert(t.subrange(lo - from, hi - from) =~= s@.subrange(lo as int, hi as int));
    }
    (lo, hi)
}

/// Reads one line of a `.cube` file into the scan.
fn scan_line(s: &Vec<char>, from: usize, to: usize, st: &mut Scan) -> (r: Result<(), String>)
    requires
        from <= to <= s.len(),
    ensures
        match cube_step(scan_view(*old(st)), s@.subrange(from as int, to as int)) {
            Ok(ns) => r is Ok && scan_view(*final(st)) == ns,
            Err(l) => r matches Err(m) && m@ == l,
        },
{
    let (a, b) = trim_in(s, from, to);
    let ghost line = s@.subrange(a as int, b as int);
    assert(line == trimmed(s@.subrange(from as int, to as int)));
    if a == b || s[a] == '#' {
        assert(a == b ==> line.len() == 0);
        assert(a < b ==> line[0] == s@[a as int]);
        return Ok(());
    }
    assert(line[0] == s@[a as int]);
    let size_kw = chars_of("LUT_3D_SIZE");
    let min_kw = chars_of("DOMAIN_MIN");
    let max_kw = chars_of("DOMAIN_MAX");
    let title_kw = chars_of("TITLE");
    let lut1d_kw = chars_of("LUT_1D_SIZE");
    if starts_with_in(s, a, b, &size_kw) {
        let k = a + size_kw.len();
        assert(line.skip(size_kw@.len() as int) =~= s@.subrange(k as int, b as int));
        let (c, d) = trim_in(s, k, b);
        let v = parse_u64_in(s, c, d);
        st.size = match v {
            Some(n) => if n <= usize::MAX as u64 {
                Some(n as usize)
            } else {
                None
            },
            None => None,
        };
        return Ok(());
    }
    if starts_with_in(s, a, b, &min_kw) {
        let k = a + min_kw.len();
        assert(line.skip(min_kw@.len() as int) =~= s@.subrange(k as int, b as int));
        return match triple_in(s, k, b) {
            Some(t) => {
                st.domain_min = Some(t);
                Ok(())
            },
            None => Err(text_of(s, a, b)),
        };
    }
    if starts_with_in(s, a, b, &max_kw) {
        let k = a + max_kw.len();
        assert(line.skip(max_kw@.len() as int) =~= s@.subrange(k as int, b as int));
        return match triple_in(s, k, b) {
            Some(t) => {
                st.domain_max = Some(t);
                Ok(())
            },
            None => Err(text_of(s, a, b)),
        };
    }
    if starts_with_in(s, a, b, &title_kw) || starts_with_in(s, a, b, &lut1d_kw) {
        return Ok(());
    }
    match triple_in(s, a, b) {
        Some(t) => {
            let ghost rows0 = triples_texts(st.rows@);
            let ghost tt = triple_texts(t);
            st.rows.push(t);
            assert(triples_texts(st.rows@) =~= rows0.push(tt));
            Ok(())
        },
        None => Err(text_of(s, a, b)),
    }
}

/// The lines never run out.
proof fn lemma_split_lines_nonempty(t: Seq<char>)
    ensures
        split_lines(t).len() >= 1,
    decreases t.len(),
{
    if t.len() > 0 {
        lemma_split_lines_nonempty(t.drop_last());
    }
}

/// Complete lines stay as more text follows: the lines of a prefix,
/// except the last, begin the lines of a longer prefix.
proof fn lemma_split_lines_prefix(s: Seq<char>, n: int, m: int)
    requires
        0 <= n <= m <= s.len(),
    ensures
        split_lines(s.take(n)).len() <= split_lines(s.take(m)).len(),
        split_lines(s.take(m)).take(split_lines(s.take(n)).len() - 1) == split_lines(s.take(n)).drop_last(),
    decreases m - n,
{
    lemma_split_lines_nonempty(s.take(n));
    if m == n {
        assert(split_lines(s.take(m)).take(split_lines(s.take(n)).len() - 1) =~= split_lines(
            s.take(n),
        ).drop_last());
    } else {
        lemma_split_lines_prefix(s, n, m - 1);
        lemma_split_lines_nonempty(s.take(m - 1));
        assert(s.take(m).drop_last() =~= s.take(m - 1));
        let p = split_lines(s.take(m - 1));
        let q = split_lines(s.take(m));
        let k = split_lines(s.take(n)).len() - 1;
        assert(q.take(k) =~= p.take(k));
    }
}

/// A bad line stops the reading for good.
proof fn lemma_fold_error_sticks(lines: Seq<Seq<char>>, k: int)
    requires
        0 <= k <= lines.len(),
        cube_fold(lines.take(k)) is Err,
    ensures
        cube_fold(lines) == cube_fold(lines.take(k)),
    decreases lines.len() - k,
{
    if k < lines.len() {
        assert(lines.take(k + 1).drop_last() =~= lines.take(k));
        lemma_fold_error_sticks(lines, k + 1);
    } else {
        assert(lines.take(k) =~= lines);
    }
}

/// Reads all lines of a `.cube` file, stopping at the first bad one.
fn scan_cube(text: &str) -> (r: Result<Scan, String>)
    ensures
        match cube_fold(split_lines(text@)) {
            Ok(st) => r matches Ok(x) && scan_view(x) == st,
            Err(l) => r matches Err(m) && m@ == l,
        },
{
    let s = chars_of(text);
    let mut st = Scan { size: None, domain_min: None, domain_max: None, rows: Vec::new() };
    let mut line_start: usize = 0;
    let mut i: usize = 0;
    proof {
        assert(s@.take(0) =~= Seq::<char>::empty());
        assert(split_lines(s@.take(0)).drop_last() =~= Seq::<Seq<char>>::empty());
        assert(triples_texts(st.rows@) =~= Seq::<Seq<Seq<char>>>::empty());
    }
    while i < s.len()
        invariant
            line_start <= i <= s.len(),
            s@ == text@,
            split_lines(s@.take(i as int)).len() >= 1,
            cube_fold(split_lines(s@.take(i as int)).drop_last()) == Ok::<CubeState, Seq<char>>(scan_view(st)),
            split_lines(s@.take(i as int)).last() == s@.subrange(line_start as int, i as int),
        decreases s.len() - i,
    {
        let c = s[i];
        let ghost p = split_lines(s@.take(i as int));
        proof {
            assert(s@.take(i + 1).drop_last() =~= s@.take(i as int));
            assert(s@.take(i + 1).last() == c);
            lemma_split_lines_nonempty(s@.take(i + 1));
        }
        if c == '\n' {
            let ghost before = scan_view(st);
            let r = scan_line(&s, line_start, i, &mut st);
            proof {
                let q = split_lines(s@.take(i + 1));
                assert(q == p.push(Seq::empty()));
                assert(q.drop_last() =~= p);
                assert(p =~= p.drop_last().push(p.last()));
                assert(cube_fold(p) == cube_step(before, p.last()));
            }
            match r {
                Ok(()) => {},
                Err(m) => {
                    proof {
                        let q = split_lines(s@.take(i + 1));
                        lemma_split_lines_prefix(s@, i + 1, s@.len() as int);
                        assert(s@.take(s@.len() as int) =~= s@);
                        assert(split_lines(s@).take(q.len() - 1) == p);
                        lemma_fold_error_sticks(split_lines(s@), p.len() as int);
                    }
                    return Err(m);
                },
            }
            line_start = i + 1;
            proof {
                let q = split_lines(s@.take(i + 1));
                assert(q.last() =~= s@.subrange(i + 1, i + 1));
            }
        } else {
            proof {
                let q = split_lines(s@.take(i + 1));
                assert(q == p.update(p.len() - 1, p.last().push(c)));
                assert(q.drop_last() =~= p.drop_last());
                assert(q.last() =~= s@.subrange(line_start as int, i + 1));
            }
        }
        i = i + 1;
    }
    let ghost p = split_lines(s@.take(i as int));
    let ghost before = scan_view(st);
    let r = scan_line(&s, line_start, i, &mut st);
    proof {
        assert(s@.take(i as int) =~= s@);
        assert(p =~= p.drop_last().push(p.last()));
        assert(cube_fold(p) == cube_step(before, p.last()));
    }
    match r {
        Ok(()) => Ok(st),
        Err(m) => Err(m),
    }
}

/// The size directive's cube fits in `usize`, whenever the file reads
/// without a bad line.
pub open spec fn cube_size_fits(text: Seq<char>) -> bool {
    match cube_fold(split_lines(text)) {
        Ok(st) => match st.size {
            Some(n) => n * n * n <= usize::MAX,
            None => true,
        },
        Err(_) => true,
    }
}

/// Whether reading this text computes the cube of its size within
/// `usize` (see [`cube_size_fits`]).
pub fn lut_size_in_range(text: &str) -> (b: bool)
    ensures
        b == cube_size_fits(text@),
{
    match scan_cube(text) {
        Err(_) => true,
        Ok(st) => match st.size {
            Some(n) => match n.checked_mul(n) {
                Some(sq) => sq.checked_mul(n).is_some(),
                None => {
                    assert(n * n * n > usize::MAX) by (nonlinear_arith)
                        requires
                            n * n > usize::MAX,
                    ;
                    false
                },
            },
            None => true,
        },
    }
}

/// Reads a `.cube` LUT: fails with the first malformed bound or data row
/// (trimmed), then when there is no valid size directive, then when the
/// number of data rows is not the size cubed.
pub fn parse_cube(text: &str) -> (r: Result<CubeFile, LutError>)
    requires
        cube_size_fits(text@),
    ensures
        match cube_fold(split_lines(text@)) {
            Err(l) => r matches Err(LutError::BadRow(m)) && m@ == l,
            Ok(st) => match st.size {
                None => r == Err::<CubeFile, LutError>(LutError::MissingSize),
                Some(n) => if st.rows.len() != n * n * n {
                    r == Err::<CubeFile, LutError>(
                        LutError::WrongRowCount { expected: (n * n * n) as usize, found: st.rows.len() as usize },
                    )
                } else {
                    r matches Ok(f) && f.size == n && triples_texts(f.rows@) == st.rows && opt_triple_texts(
                        f.domain_min,
                    ) == st.domain_min && opt_triple_texts(f.domain_max) == st.domain_max
                },
            },
        },
{
    let st = match scan_cube(text) {
        Ok(st) => st,
        Err(m) => {
            return Err(LutError::BadRow(m));
        },
    };
    let n = match st.size {
        Some(n) => n,
        None => {
            return Err(LutError::MissingSize);
        },
    };
    assert(n * n <= n * n * n || n == 0) by (nonlinear_arith);
    let expected = n * n * n;
    assert(triples_texts(st.rows@).len() == st.rows@.len());
    if st.rows.len() != expected {
        return Err(LutError::WrongRowCount { expected, found: st.rows.len() });
    }
    Ok(CubeFile { size: n, rows: st.rows, domain_min: st.domain_min, domain_max: st.domain_max })
}

} // verus!
