//! The decisions around running the FFmpeg tools: what their output and
//! exit status mean, how a tool is diagnosed, where a tool's path override
//! is read from, and how progress reporting is requested and read.

use vstd::prelude::*;
use vstd::string::{StrSliceExecFns, StringExecFns};
use vstd::utf8::{decode_utf8, valid_utf8};

use crate::media::args::{push_arg, push_str_arg, texts};
use crate::media::error::{is_parse_error, MediaError};
use crate::text::{
    chars_of, is_ws, is_whitespace, parse_u64_in, push_char, push_signed, signed_decimal, u64_parse,
};

verus! {

/// What `String::from_utf8_lossy` makes of these bytes.
pub uninterp spec fn lossy_text(bytes: Seq<u8>) -> Seq<char>;

/// Decodes bytes through `String::from_utf8_lossy`. The contract names the
/// result `lossy_text`, and states what the function's documentation
/// gives: valid UTF-8 comes back decoded unchanged. (Invalid sequences
/// become U+FFFD; which ones, the contract leaves unsaid.)
#[verifier::external_body]
pub(crate) fn lossy_string(bytes: &[u8]) -> (s: String)
    ensures
        s@ == lossy_text(bytes@),
        valid_utf8(bytes@) ==> s@ == decode_utf8(bytes@),
{
    String::from_utf8_lossy(bytes).into_owned()
}

/// The text of the error `String::from_utf8` reports for these bytes.
pub uninterp spec fn utf8_error_text(bytes: Seq<u8>) -> Seq<char>;

/// Decodes bytes through `String::from_utf8`: text exactly when the bytes
/// are valid UTF-8, else the text of its error, which the contract names
/// `utf8_error_text`.
#[verifier::external_body]
pub(crate) fn utf8_string(bytes: Vec<u8>) -> (r: Result<String, String>)
    ensures
        r is Ok <==> valid_utf8(bytes@),
        r matches Ok(s) ==> s@ == decode_utf8(bytes@),
        r matches Err(m) ==> m@ == utf8_error_text(bytes@),
{
    match String::from_utf8(bytes) {
        Ok(s) => Ok(s),
        Err(e) => Err(e.to_string()),
    }
}

/// The length of the first line of a text: the characters before the
/// first line feed.
pub open spec fn first_line_len(t: Seq<char>) -> nat
    decreases t.len(),
{
    if t.len() == 0 || t[0] == '\n' {
        0
    } else {
        1 + first_line_len(t.drop_first())
    }
}

/// A text without its leading and trailing white space.
pub open spec fn trimmed(t: Seq<char>) -> Seq<char>
    decreases t.len(),
{
    if t.len() > 0 && is_ws(t[0]) {
        trimmed(t.drop_first())
    } else if t.len() > 0 && is_ws(t.last()) {
        trimmed(t.drop_last())
    } else {
        t
    }
}

/// The first line of a text that holds more than white space, trimmed;
/// `None` when there is no such line.
pub open spec fn first_nonblank_line(t: Seq<char>) -> Option<Seq<char>>
    decreases t.len(),
{
    if t.len() == 0 {
        None
    } else {
        let k = first_line_len(t);
        let line = trimmed(t.take(k as int));
        if line.len() > 0 {
            Some(line)
        } else if k < t.len() {
            first_nonblank_line(t.skip(k + 1int))
        } else {
            None
        }
    }
}

/// The first line is a prefix of the text, and ends at a line feed or at
/// the text's end.
proof fn lemma_first_line_len(t: Seq<char>, k: int)
    requires
        0 <= k <= t.len(),
        forall|j: int| 0 <= j < k ==> t[j] != '\n',
        k == t.len() || t[k] == '\n',
    ensures
        first_line_len(t) == k,
    decreases k,
{
    if k > 0 {
        lemma_first_line_len(t.drop_first(), k - 1);
    }
}

/// Trimming `t[lo..hi]` when everything outside it is white space and its
/// ends are not.
pub proof fn lemma_trimmed(t: Seq<char>, lo: int, hi: int)
    requires
        0 <= lo <= hi <= t.len(),
        forall|j: int| 0 <= j < lo ==> is_ws(t[j]),
        forall|j: int| hi <= j < t.len() ==> is_ws(t[j]),
        lo < hi ==> !is_ws(t[lo]) && !is_ws(t[hi - 1]),
    ensures
        trimmed(t) == t.subrange(lo, hi),
    decreases t.len(),
{
    if lo > 0 {
        lemma_trimmed(t.drop_first(), lo - 1, hi - 1);
        assert(t.drop_first().subrange(lo - 1, hi - 1) =~= t.subrange(lo, hi));
    } else if hi < t.len() {
        if t.len() > 0 && is_ws(t[0]) {
            assert(lo == hi);
            lemma_trimmed(t.drop_first(), 0, 0);
            assert(t.subrange(lo, hi) =~= Seq::<char>::empty());
            assert(t.drop_first().subrange(0, 0) =~= Seq::<char>::empty());
        } else {
            lemma_trimmed(t.drop_last(), lo, hi);
            assert(t.drop_last().subrange(lo, hi) =~= t.subrange(lo, hi));
        }
    } else {
        if lo < hi {
            assert(t.subrange(lo, hi) =~= t);
        } else {
            assert(t.len() == 0);
            assert(t.subrange(lo, hi) =~= t);
        }
    }
}

/// The line of `s` that starts at `start`: where it ends (at a line feed
/// or at the end of the text), and the bounds of its trimmed part.
fn line_at(s: &Vec<char>, start: usize) -> (r: (usize, usize, usize))
    requires
        start < s.len(),
    ensures
        start <= r.0 <= r.1 <= r.2 <= s.len(),
        r.2 - start == first_line_len(s@.skip(start as int)),
        trimmed(s@.skip(start as int).take(r.2 - start)) == s@.subrange(r.0 as int, r.1 as int),
{
    let ghost u = s@.skip(start as int);
    let mut end: usize = start;
    while end < s.len() && s[end] != '\n'
        invariant
            start <= end <= s.len(),
            forall|j: int| start <= j < end ==> s@[j] != '\n',
        decreases s.len() - end,
    {
        end = end + 1;
    }
    proof {
        assert forall|j: int| 0 <= j < end - start implies u[j] != '\n' by {
            assert(u[j] == s@[start + j]);
        }
        if end < s.len() {
            assert(u[end - start] == s@[end as int]);
        }
        lemma_first_line_len(u, end - start);
    }
    let ghost line = u.take(end - start);
    let mut lo: usize = start;
    while lo < end && is_whitespace(s[lo])
        invariant
            start <= lo <= end <= s.len(),
            forall|j: int| start <= j < lo ==> is_ws(s@[j]),
        decreases end - lo,
    {
        lo = lo + 1;
    }
    let mut hi: usize = end;
    while hi > lo && is_whitespace(s[hi - 1])
        invariant
            start <= lo <= hi <= end <= s.len(),
            forall|j: int| hi <= j < end ==> is_ws(s@[j]),
        decreases hi - lo,
    {
        hi = hi - 1;
    }
    proof {
        assert forall|j: int| 0 <= j < lo - start implies is_ws(line[j]) by {
            assert(line[j] == s@[start + j]);
        }
        assert forall|j: int| hi - start <= j < line.len() implies is_ws(line[j]) by {
            assert(line[j] == s@[start + j]);
        }
        if lo < hi {
            assert(line[lo - start] == s@[lo as int]);
            assert(line[hi - start - 1] == s@[hi - 1]);
        }
        lemma_trimmed(line, lo - start, hi - start);
        assert(line.subrange(lo - start, hi - start) =~= s@.subrange(lo as int, hi as int));
    }
    (lo, hi, end)
}

/// The first line of a text that holds more than white space, trimmed.
pub fn first_line_of(text: &str) -> (r: Option<String>)
    ensures
        match first_nonblank_line(text@) {
            Some(l) => r matches Some(s) && s@ == l,
            None => r is None,
        },
{
    let s = chars_of(text);
    let mut start: usize = 0;
    assert(s@.skip(0) =~= s@);
    while start < s.len()
        invariant
            start <= s.len(),
            s@ == text@,
            first_nonblank_line(text@) == first_nonblank_line(s@.skip(start as int)),
        decreases s.len() - start,
    {
        let (lo, hi, end) = line_at(&s, start);
        if lo < hi {
            return Some(String::from_str(text.substring_char(lo, hi)));
        }
        if end == s.len() {
            return None;
        }
        proof {
            let u = s@.skip(start as int);
            assert(u.skip(end - start + 1) =~= s@.skip(end + 1));
        }
        start = end + 1;
    }
    proof {
        assert(s@.skip(start as int).len() == 0);
    }
    None
}

/// The first non-empty line a tool printed for `-version`, trimmed.
pub fn version_line(stdout: &[u8]) -> (r: Option<String>)
    ensures
        match first_nonblank_line(lossy_text(stdout@)) {
            Some(l) => r matches Some(s) && s@ == l,
            None => r is None,
        },
        valid_utf8(stdout@) ==> match first_nonblank_line(decode_utf8(stdout@)) {
            Some(l) => r matches Some(s) && s@ == l,
            None => r is None,
        },
{
    let text = lossy_string(stdout);
    first_line_of(text.as_str())
}

/// The status a failed run reports: the exit code, or -1 when the process
/// ended without one.
pub open spec fn reported_status(code: Option<i32>) -> i32 {
    match code {
        Some(c) => c,
        None => -1i32,
    }
}

/// What a run of `binary` that exited (successfully or not, with `code`
/// and the error output `stderr`) means: success, or the non-zero exit
/// with the error output decoded.
pub fn exit_outcome(binary: &str, success: bool, code: Option<i32>, stderr: &[u8]) -> (r: Result<(), MediaError>)
    ensures
        success ==> r is Ok,
        !success ==> (r matches Err(MediaError::NonZeroExit { binary: b, status, stderr: e }) && b@
            == binary@ && status == reported_status(code) && e@ == lossy_text(stderr@)),
        !success && valid_utf8(stderr@) ==> (r matches Err(MediaError::NonZeroExit { stderr: e, .. }) && e@
            == decode_utf8(stderr@)),
{
    if success {
        Ok(())
    } else {
        let status: i32 = match code {
            Some(c) => c,
            None => -1,
        };
        Err(MediaError::NonZeroExit { binary: String::from_str(binary), status, stderr: lossy_string(stderr) })
    }
}

/// What a run whose output is wanted means: the error of a failed exit as
/// [`exit_outcome`] gives it; else the output when it is UTF-8, and a
/// parse error that names the decoding problem when it is not.
pub fn captured_output(
    binary: &str,
    success: bool,
    code: Option<i32>,
    stdout: Vec<u8>,
    stderr: &[u8],
) -> (r: Result<String, MediaError>)
    ensures
        !success ==> (r matches Err(MediaError::NonZeroExit { binary: b, status, stderr: e }) && b@
            == binary@ && status == reported_status(code) && e@ == lossy_text(stderr@)),
        !success && valid_utf8(stderr@) ==> (r matches Err(MediaError::NonZeroExit { stderr: e, .. }) && e@
            == decode_utf8(stderr@)),
        success && valid_utf8(stdout@) ==> (r matches Ok(s) && s@ == decode_utf8(stdout@)),
        success && !valid_utf8(stdout@) ==> is_parse_error(r, utf8_error_text(stdout@)),
{
    match exit_outcome(binary, success, code, stderr) {
        Err(e) => Err(e),
        Ok(()) => match utf8_string(stdout) {
            Ok(s) => Ok(s),
            Err(m) => Err(MediaError::Parse(m)),
        },
    }
}

/// The outcome of starting a tool with `-version`.
#[derive(Debug)]
pub enum VersionRun {
    /// It ran and exited, with this success, exit code and output.
    Exited { success: bool, code: Option<i32>, stdout: Vec<u8> },
    /// The executable does not exist.
    NotFound,
    /// It could not be started for another reason.
    Failed,
}

/// The outcome of checking one of the external FFmpeg tools.
#[derive(Debug)]
pub struct ToolDiagnostic {
    /// The name passed to the process runner (for example, `ffmpeg`).
    pub binary: String,
    /// The executable that was selected.
    pub path: String,
    /// How the executable was selected: an override, PATH, or a fallback.
    pub source: String,
    /// One of `healthy`, `missing`, or `error`.
    pub status: String,
    /// The first line reported by `-version`, when the tool starts
    /// successfully.
    pub version: Option<String>,
    /// A short, user-facing explanation and next step.
    pub message: String,
}

/// The explanation given for a tool that exited unsuccessfully.
pub open spec fn failed_exit_message(code: Option<i32>) -> Seq<char> {
    "The executable could not start successfully (exit "@ + match code {
        Some(c) => signed_decimal(c as int),
        None => "unknown"@,
    } + "). Check that this is a compatible FFmpeg installation."@
}

/// The diagnosis of a tool from the outcome of running it with
/// `-version`: healthy (with its version line) when it exits
/// successfully; an error when it exits otherwise or cannot be started;
/// missing when it does not exist.
pub fn tool_diagnostic(binary: &str, path: String, source: &str, run: VersionRun) -> (d: ToolDiagnostic)
    ensures
        d.binary@ == binary@,
        d.path@ == path@,
        d.source@ == source@,
        match run {
            VersionRun::Exited { success: true, stdout, .. } => {
                &&& d.status@ == "healthy"@
                &&& match first_nonblank_line(lossy_text(stdout@)) {
                    Some(l) => d.version matches Some(v) && v@ == l,
                    None => d.version is None,
                }
                &&& valid_utf8(stdout@) ==> match first_nonblank_line(decode_utf8(stdout@)) {
                    Some(l) => d.version matches Some(v) && v@ == l,
                    None => d.version is None,
                }
                &&& d.message@ == "Available and ready to use."@
            },
            VersionRun::Exited { success: false, code, .. } => {
                &&& d.status@ == "error"@
                &&& d.version is None
                &&& d.message@ == failed_exit_message(code)
            },
            VersionRun::NotFound => {
                &&& d.status@ == "missing"@
                &&& d.version is None
                &&& d.message@ == "Install FFmpeg, add it to PATH, or set this tool's FPV_*_PATH override."@
            },
            VersionRun::Failed => {
                &&& d.status@ == "error"@
                &&& d.version is None
                &&& d.message@
                    == "FPV Editor could not run this executable. Check that the file is accessible and executable."@
            },
        },
{
    let (status, version, message) = match run {
        VersionRun::Exited { success, code, stdout } => {
            if success {
                (
                    String::from_str("healthy"),
                    version_line(stdout.as_slice()),
                    String::from_str("Available and ready to use."),
                )
            } else {
                let mut m = String::from_str("The executable could not start successfully (exit ");
                let ghost before = m@;
                match code {
                    Some(c) => push_signed(&mut m, c as i64),
                    None => m.append("unknown"),
                }
                let ghost code_text = m@.subrange(before.len() as int, m@.len() as int);
                assert(code_text =~= match code {
                    Some(c) => signed_decimal(c as int),
                    None => "unknown"@,
                });
                m.append("). Check that this is a compatible FFmpeg installation.");
                assert(m@ =~= failed_exit_message(code));
                (String::from_str("error"), None, m)
            }
        },
        VersionRun::NotFound => (
            String::from_str("missing"),
            None,
            String::from_str("Install FFmpeg, add it to PATH, or set this tool's FPV_*_PATH override."),
        ),
        VersionRun::Failed => (
            String::from_str("error"),
            None,
            String::from_str(
                "FPV Editor could not run this executable. Check that the file is accessible and executable.",
            ),
        ),
    };
    ToolDiagnostic {
        binary: String::from_str(binary),
        path,
        source: String::from_str(source),
        status,
        version,
        message,
    }
}

/// A character in upper case when it is an ASCII lower-case letter.
pub open spec fn ascii_upper(c: char) -> char {
    if 'a' <= c && c <= 'z' {
        ((c as u32) - 32) as char
    } else {
        c
    }
}

/// The environment variable that overrides where a tool is found:
/// `FPV_`, the tool's name in ASCII upper case, `_PATH`.
pub open spec fn override_variable_text(binary: Seq<char>) -> Seq<char> {
    "FPV_"@ + binary.map_values(|c: char| ascii_upper(c)) + "_PATH"@
}

/// The environment variable that overrides where `binary` is found.
pub fn override_variable(binary: &str) -> (s: String)
    ensures
        s@ == override_variable_text(binary@),
{
    let chars = chars_of(binary);
    let mut s = String::from_str("FPV_");
    let ghost start = s@;
    let mut i: usize = 0;
    while i < chars.len()
        invariant
            i <= chars.len(),
            chars@ == binary@,
            s@ == start + chars@.take(i as int).map_values(|c: char| ascii_upper(c)),
        decreases chars.len() - i,
    {
        let c = chars[i];
        let u = if 'a' <= c && c <= 'z' {
            ((c as u32 - 32) as u8) as char
        } else {
            c
        };
        assert(u == ascii_upper(c));
        push_char(&mut s, u);
        assert(chars@.take(i + 1).map_values(|c: char| ascii_upper(c)) =~= chars@.take(i as int).map_values(
            |c: char| ascii_upper(c),
        ).push(ascii_upper(c)));
        i = i + 1;
    }
    assert(chars@.take(chars.len() as int) =~= chars@);
    s.append("_PATH");
    s
}

/// The arguments of an export run that reports its progress: the same
/// arguments with FFmpeg's machine-readable progress stream requested just
/// before the output path (the last argument). Fails when there is no
/// output path.
pub fn progress_args(args: &Vec<String>) -> (r: Result<Vec<String>, MediaError>)
    ensures
        args.len() == 0 ==> is_parse_error(r, "missing export output path"@),
        args.len() > 0 ==> (r matches Ok(v) && texts(v@) == texts(args@).drop_last() + seq![
            "-progress"@,
            "pipe:1"@,
            "-nostats"@,
            texts(args@).last(),
        ]),
{
    if args.len() == 0 {
        return Err(MediaError::Parse(String::from_str("missing export output path")));
    }
    let n = args.len() - 1;
    let mut v: Vec<String> = Vec::new();
    let mut i: usize = 0;
    while i < n
        invariant
            i <= n,
            n + 1 == args.len(),
            texts(v@) == texts(args@).take(i as int),
        decreases n - i,
    {
        push_arg(&mut v, args[i].clone());
        assert(texts(args@).take(i + 1) =~= texts(args@).take(i as int).push(args@[i as int]@));
        i = i + 1;
    }
    push_str_arg(&mut v, "-progress");
    push_str_arg(&mut v, "pipe:1");
    push_str_arg(&mut v, "-nostats");
    push_arg(&mut v, args[n].clone());
    assert(texts(v@) =~= texts(args@).drop_last() + seq!["-progress"@, "pipe:1"@, "-nostats"@, texts(args@).last()]);
    Ok(v)
}

/// The microseconds of output time that a progress line reports: the
/// number after `out_time_us=`, when the line is such a report and the
/// number parses.
pub open spec fn progress_value(line: Seq<char>) -> Option<u64> {
    let key = "out_time_us="@;
    if key.len() <= line.len() && line.take(key.len() as int) == key {
        u64_parse(line.skip(key.len() as int))
    } else {
        None
    }
}

/// The microseconds of output time that a progress line reports.
pub fn progress_micros(line: &str) -> (r: Option<u64>)
    ensures
        r == progress_value(line@),
{
    let s = chars_of(line);
    let key = chars_of("out_time_us=");
    if key.len() > s.len() {
        return None;
    }
    let mut k: usize = 0;
    while k < key.len()
        invariant
            k <= key.len() <= s.len(),
            s@ == line@,
            key@ == "out_time_us="@,
            forall|j: int| 0 <= j < k ==> s@[j] == key@[j],
        decreases key.len() - k,
    {
        if s[k] != key[k] {
            assert(s@.take(key.len() as int)[k as int] != key@[k as int]);
            return None;
        }
        k = k + 1;
    }
    assert(s@.take(key.len() as int) =~= key@);
    assert(s@.subrange(key.len() as int, s.len() as int) =~= s@.skip(key.len() as int));
    parse_u64_in(&s, key.len(), s.len())
}

} // verus!
