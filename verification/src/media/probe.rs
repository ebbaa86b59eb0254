//! Reading what `ffprobe` reports: the hex dump of data packets, the
//! gyroscope samples in GoPro's GPMF metadata, and the summary of a media
//! file's streams.

use vstd::prelude::*;
use vstd::string::StringExecFns;

use crate::media::error::{is_parse_error, MediaError};
use crate::text::{chars_of, is_ws, is_whitespace};
use crate::timeline::model::opt_text;

verus! {

/// Whether a character is an ASCII hexadecimal digit.
pub open spec fn is_hex_digit(c: char) -> bool {
    ('0' <= c && c <= '9') || ('a' <= c && c <= 'f') || ('A' <= c && c <= 'F')
}

/// The value of a hexadecimal digit.
pub open spec fn hex_value(c: char) -> nat {
    if '0' <= c && c <= '9' {
        ((c as u32) - 48) as nat
    } else if 'a' <= c && c <= 'f' {
        ((c as u32) - 87) as nat
    } else {
        ((c as u32) - 55) as nat
    }
}

/// The bytes of a word of the dump: a four-digit hexadecimal word is two
/// bytes, high digits first; any other word is nothing.
pub open spec fn word_bytes(w: Seq<char>) -> Seq<u8> {
    if w.len() == 4 && is_hex_digit(w[0]) && is_hex_digit(w[1]) && is_hex_digit(w[2]) && is_hex_digit(
        w[3],
    ) {
        seq![(hex_value(w[0]) * 16 + hex_value(w[1])) as u8, (hex_value(w[2]) * 16 + hex_value(w[3])) as u8]
    } else {
        Seq::empty()
    }
}

/// Where a reading of the dump stands: whether it is past the first colon
/// of the current line, the word being read, and the bytes so far.
pub struct HexScan {
    pub in_data: bool,
    pub word: Seq<char>,
    pub bytes: Seq<u8>,
}

/// The bytes of the word being read, when it is in the data part.
pub open spec fn pending_bytes(s: HexScan) -> Seq<u8> {
    if s.in_data {
        word_bytes(s.word)
    } else {
        Seq::empty()
    }
}

/// Reading one more character of the dump: a line feed ends the word and
/// the line; before a line's first colon characters are skipped, the colon
/// starts the data part; in the data part white space ends a word and
/// anything else extends it.
pub open spec fn scan_step(s: HexScan, c: char) -> HexScan {
    if c == '\n' {
        HexScan { in_data: false, word: Seq::empty(), bytes: s.bytes + pending_bytes(s) }
    } else if !s.in_data {
        if c == ':' {
            HexScan { in_data: true, word: Seq::empty(), bytes: s.bytes }
        } else {
            s
        }
    } else if is_ws(c) {
        HexScan { in_data: true, word: Seq::empty(), bytes: s.bytes + word_bytes(s.word) }
    } else {
        HexScan { in_data: true, word: s.word.push(c), bytes: s.bytes }
    }
}

/// Where reading the whole text leaves the reader.
pub open spec fn scan_text(t: Seq<char>) -> HexScan
    decreases t.len(),
{
    if t.len() == 0 {
        HexScan { in_data: false, word: Seq::empty(), bytes: Seq::empty() }
    } else {
        scan_step(scan_text(t.drop_last()), t.last())
    }
}

/// The bytes of an `ffprobe -show_data` dump: on each line, after the
/// first colon, every white-space separated word of four hexadecimal
/// digits is two bytes; other words, and lines without a colon, give
/// nothing.
pub open spec fn dump_bytes(t: Seq<char>) -> Seq<u8> {
    scan_text(t).bytes + pending_bytes(scan_text(t))
}

/// Whether `c` is an ASCII hexadecimal digit.
fn hex_digit(c: char) -> (b: bool)
    ensures
        b == is_hex_digit(c),
{
    ('0' <= c && c <= '9') || ('a' <= c && c <= 'f') || ('A' <= c && c <= 'F')
}

/// The value of a hexadecimal digit.
fn hex_digit_value(c: char) -> (v: u8)
    requires
        is_hex_digit(c),
    ensures
        v == hex_value(c),
{
    if '0' <= c && c <= '9' {
        (c as u32 - 48) as u8
    } else if 'a' <= c && c <= 'f' {
        (c as u32 - 87) as u8
    } else {
        (c as u32 - 55) as u8
    }
}

/// Appends the bytes of a word.
fn push_word_bytes(out: &mut Vec<u8>, w: &Vec<char>)
    ensures
        final(out)@ == old(out)@ + word_bytes(w@),
{
    if w.len() == 4 && hex_digit(w[0]) && hex_digit(w[1]) && hex_digit(w[2]) && hex_digit(w[3]) {
        let a = hex_digit_value(w[0]) * 16 + hex_digit_value(w[1]);
        let b = hex_digit_value(w[2]) * 16 + hex_digit_value(w[3]);
        out.push(a);
        out.push(b);
        assert(out@ =~= old(out)@ + word_bytes(w@));
    } else {
        assert(out@ =~= old(out)@ + word_bytes(w@));
    }
}

/// The bytes of an `ffprobe -show_data` hex dump.
pub fn decode_ffprobe_hex(data: &str) -> (bytes: Vec<u8>)
    ensures
        bytes@ == dump_bytes(data@),
{
    let s = chars_of(data);
    let mut out: Vec<u8> = Vec::new();
    let mut word: Vec<char> = Vec::new();
    let mut in_data = false;
    let mut i: usize = 0;
    while i < s.len()
        invariant
            i <= s.len(),
            s@ == data@,
            scan_text(s@.take(i as int)) == (HexScan { in_data, word: word@, bytes: out@ }),
        decreases s.len() - i,
    {
        let c = s[i];
        proof {
            assert(s@.take(i + 1).drop_last() =~= s@.take(i as int));
            assert(s@.take(i + 1).last() == c);
        }
        let ghost before = HexScan { in_data, word: word@, bytes: out@ };
        if c == '\n' {
            if in_data {
                push_word_bytes(&mut out, &word);
            } else {
                assert(out@ =~= before.bytes + pending_bytes(before));
            }
            word = Vec::new();
            in_data = false;
        } else if !in_data {
            if c == ':' {
                in_data = true;
                word = Vec::new();
            }
        } else if is_whitespace(c) {
            push_word_bytes(&mut out, &word);
            word = Vec::new();
        } else {
            word.push(c);
        }
        proof {
            assert(word@ =~= scan_step(before, c).word);
            assert(HexScan { in_data, word: word@, bytes: out@ } == scan_step(before, c));
        }
        i = i + 1;
    }
    assert(s@.take(s.len() as int) =~= s@);
    if in_data {
        push_word_bytes(&mut out, &word);
    } else {
        assert(out@ =~= out@ + Seq::<u8>::empty());
    }
    out
}

/// One raw gyroscope sample: the angular velocities about X, Y and Z as
/// stored, and the scale they are divided by (the latest non-zero `SCAL`
/// value in force, 1 when there is none).
#[derive(Debug, Clone, Copy, PartialEq, Eq, Structural)]
pub struct GyroRaw {
    pub x: i16,
    pub y: i16,
    pub z: i16,
    pub scale: i32,
}

/// The big-endian signed 16-bit value at `i`.
pub open spec fn be_i16(b: Seq<u8>, i: int) -> i16 {
    let v = b[i] as int * 256 + b[i + 1] as int;
    (if v >= 0x8000 {
        v - 0x10000
    } else {
        v
    }) as i16
}

/// The big-endian unsigned 16-bit value at `i`.
pub open spec fn be_u16(b: Seq<u8>, i: int) -> nat {
    (b[i] as int * 256 + b[i + 1] as int) as nat
}

/// The big-endian signed 32-bit value at `i`.
pub open spec fn be_i32(b: Seq<u8>, i: int) -> i32 {
    let v = ((b[i] as int * 256 + b[i + 1] as int) * 256 + b[i + 2] as int) * 256 + b[i + 3] as int;
    (if v >= 0x8000_0000 {
        v - 0x1_0000_0000
    } else {
        v
    }) as i32
}

/// The samples of a `GYRO` payload: one per whole `size`-byte record, its
/// first six bytes being X, Y and Z.
pub open spec fn gyro_records(data: Seq<u8>, size: nat, scale: i32) -> Seq<GyroRaw>
    decreases data.len(),
{
    if size < 6 || data.len() < size {
        Seq::empty()
    } else {
        seq![GyroRaw { x: be_i16(data, 0), y: be_i16(data, 2), z: be_i16(data, 4), scale }] + gyro_records(
            data.skip(size as int),
            size,
            scale,
        )
    }
}

/// The four-byte key `SCAL`.
pub open spec fn key_scal() -> Seq<u8> {
    seq![0x53u8, 0x43u8, 0x41u8, 0x4cu8]
}

/// The four-byte key `GYRO`.
pub open spec fn key_gyro() -> Seq<u8> {
    seq![0x47u8, 0x59u8, 0x52u8, 0x4fu8]
}

/// The four-byte key `DEVC`.
pub open spec fn key_devc() -> Seq<u8> {
    seq![0x44u8, 0x45u8, 0x56u8, 0x43u8]
}

/// The four-byte key `STRM`.
pub open spec fn key_strm() -> Seq<u8> {
    seq![0x53u8, 0x54u8, 0x52u8, 0x4du8]
}

/// The gyroscope samples of the GPMF entries that start at `offset`, under
/// the scale `scale`. Each entry is a four-byte key, a type byte, a record
/// size byte, a big-endian record count, and a payload of size times
/// count bytes padded to four. A `SCAL` entry with a non-zero first value
/// sets the scale of the entries after it; a `GYRO` entry of signed
/// shorts with records of at least six bytes gives one sample per record;
/// a nested entry (type 0, `DEVC` or `STRM`) gives the samples of its
/// payload read the same way; other entries give nothing. Reading stops
/// at an entry whose payload runs past the end.
pub open spec fn gpmf_samples(bytes: Seq<u8>, offset: nat, scale: i32) -> Seq<GyroRaw>
    decreases bytes.len(), bytes.len() + 4 - offset,
{
    if offset + 8 > bytes.len() {
        Seq::empty()
    } else {
        let o = offset as int;
        let key = bytes.subrange(o, o + 4);
        let kind = bytes[o + 4];
        let size = bytes[o + 5] as nat;
        let count = be_u16(bytes, o + 6);
        let data_len = size * count;
        let data_end = o + 8 + data_len;
        if data_end > bytes.len() {
            Seq::empty()
        } else {
            let data = bytes.subrange(o + 8, data_end);
            let next = (data_end + (4 - data_len % 4) % 4) as nat;
            if key == key_scal() && data.len() >= 4 {
                let raw = be_i32(data, 0);
                gpmf_samples(bytes, next, if raw != 0 { raw } else { scale })
            } else if key == key_gyro() && kind == 0x73 && size >= 6 {
                gyro_records(data, size, scale) + gpmf_samples(bytes, next, scale)
            } else if kind == 0 || key == key_devc() || key == key_strm() {
                gpmf_samples(data, 0, scale) + gpmf_samples(bytes, next, scale)
            } else {
                gpmf_samples(bytes, next, scale)
            }
        }
    }
}

/// Reading entries does not depend on what comes before them: the entries
/// at `offset` of `rest` read the same after any prefix.
proof fn lemma_gpmf_shift(pre: Seq<u8>, rest: Seq<u8>, offset: nat, scale: i32)
    ensures
        gpmf_samples(pre + rest, pre.len() + offset, scale) == gpmf_samples(rest, offset, scale),
    decreases rest.len() + 4 - offset,
{
    let b = pre + rest;
    let p = pre.len() as int;
    let o = offset as int;
    if offset + 8 <= rest.len() {
        assert(b.subrange(p + o, p + o + 4) =~= rest.subrange(o, o + 4));
        assert(b[p + o + 4] == rest[o + 4]);
        assert(b[p + o + 5] == rest[o + 5]);
        assert(b[p + o + 6] == rest[o + 6]);
        assert(b[p + o + 7] == rest[o + 7]);
        let size = rest[o + 5] as nat;
        let count = be_u16(rest, o + 6);
        let data_len = size * count;
        let data_end = o + 8 + data_len;
        if data_end <= rest.len() {
            assert(b.subrange(p + o + 8, p + data_end) =~= rest.subrange(o + 8, data_end));
            let next = (data_end + (4 - data_len % 4) % 4) as nat;
            assert((p + data_end + (4 - data_len % 4) % 4) as nat == pre.len() + next);
            let data = rest.subrange(o + 8, data_end);
            if data.len() >= 4 {
                let raw = be_i32(data, 0);
                lemma_gpmf_shift(pre, rest, next, if raw != 0 { raw } else { scale });
            }
            lemma_gpmf_shift(pre, rest, next, scale);
        }
    }
}

/// An entry that holds no gyroscope data (a key other than `SCAL`, `GYRO`,
/// `DEVC` and `STRM`, of a non-nested type), with its payload padded to a
/// multiple of four bytes, is skipped whole: the entries after it read as
/// if it were not there, whatever the payload's length.
pub proof fn lemma_gpmf_skips_padded_entry(entry: Seq<u8>, rest: Seq<u8>, scale: i32)
    requires
        entry.len() >= 8,
        entry.len() % 4 == 0,
        entry.subrange(0, 4) != key_scal(),
        entry.subrange(0, 4) != key_gyro(),
        entry.subrange(0, 4) != key_devc(),
        entry.subrange(0, 4) != key_strm(),
        entry[4] != 0,
        8 + entry[5] * be_u16(entry, 6) <= entry.len() < 8 + entry[5] * be_u16(entry, 6) + 4,
    ensures
        gpmf_samples(entry + rest, 0, scale) == gpmf_samples(rest, 0, scale),
{
    let b = entry + rest;
    assert(b.subrange(0, 4) =~= entry.subrange(0, 4));
    assert(b[4] == entry[4]);
    assert(b[5] == entry[5]);
    assert(b[6] == entry[6]);
    assert(b[7] == entry[7]);
    let data_len = entry[5] as nat * be_u16(entry, 6);
    assert(be_u16(b, 6) == be_u16(entry, 6));
    let next = (8 + data_len + (4 - data_len % 4) % 4) as nat;
    assert(next == entry.len()) by {
        assert(entry.len() - 8 - data_len < 4);
        assert((8 + data_len + (4 - data_len % 4) % 4) % 4 == 0);
    }
    assert(gpmf_samples(b, 0, scale) == gpmf_samples(b, next, scale));
    lemma_gpmf_shift(entry, rest, 0, scale);
}

/// Whether `bytes[at..at + 4]` equals a four-byte key.
fn key_is(bytes: &[u8], at: usize, key: [u8; 4]) -> (b: bool)
    requires
        at + 4 <= bytes@.len(),
    ensures
        b == (bytes@.subrange(at as int, at + 4) == key@),
{
    let r = bytes[at] == key[0] && bytes[at + 1] == key[1] && bytes[at + 2] == key[2] && bytes[at + 3]
        == key[3];
    if r {
        assert(bytes@.subrange(at as int, at + 4) =~= key@);
    } else {
        proof {
            if bytes@.subrange(at as int, at + 4) == key@ {
                assert(bytes@.subrange(at as int, at + 4)[0] == key@[0]);
                assert(bytes@.subrange(at as int, at + 4)[1] == key@[1]);
                assert(bytes@.subrange(at as int, at + 4)[2] == key@[2]);
                assert(bytes@.subrange(at as int, at + 4)[3] == key@[3]);
            }
        }
    }
    r
}

/// The big-endian signed 16-bit value at `i`.
fn read_be_i16(b: &[u8], i: usize) -> (v: i16)
    requires
        i + 2 <= b@.len(),
    ensures
        v == be_i16(b@, i as int),
{
    let u: u16 = (b[i] as u16) * 256 + (b[i + 1] as u16);
    if u >= 0x8000 {
        (u as i32 - 0x10000) as i16
    } else {
        u as i16
    }
}

/// Appends the samples of a `GYRO` payload.
fn push_gyro_records(data: &[u8], size: usize, scale: i32, output: &mut Vec<GyroRaw>)
    requires
        size >= 6,
    ensures
        final(output)@ == old(output)@ + gyro_records(data@, size as nat, scale),
{
    let mut start: usize = 0;
    let ghost head = output@;
    assert(data@.skip(0) =~= data@);
    while size <= data.len() - start
        invariant
            size >= 6,
            start <= data.len(),
            head + gyro_records(data@, size as nat, scale) == output@ + gyro_records(
                data@.skip(start as int),
                size as nat,
                scale,
            ),
        decreases data.len() - start,
    {
        let ghost rest = data@.skip(start as int);
        let sample = GyroRaw {
            x: read_be_i16(data, start),
            y: read_be_i16(data, start + 2),
            z: read_be_i16(data, start + 4),
            scale,
        };
        proof {
            assert(rest.skip(size as int) =~= data@.skip(start + size));
            assert(be_i16(rest, 0) == be_i16(data@, start as int));
            assert(be_i16(rest, 2) == be_i16(data@, start + 2));
            assert(be_i16(rest, 4) == be_i16(data@, start + 4));
        }
        output.push(sample);
        proof {
            assert(gyro_records(rest, size as nat, scale) == seq![sample] + gyro_records(
                data@.skip(start + size),
                size as nat,
                scale,
            ));
            assert((output@.drop_last() + seq![sample]) =~= output@);
            assert(output@ + gyro_records(data@.skip(start + size), size as nat, scale) =~= output@.drop_last()
                + gyro_records(rest, size as nat, scale));
        }
        start = start + size;
    }
    proof {
        assert(gyro_records(data@.skip(start as int), size as nat, scale) =~= Seq::<GyroRaw>::empty());
        assert(output@ + Seq::<GyroRaw>::empty() =~= output@);
    }
}

/// Appends the gyroscope samples of a GPMF payload read under the scale
/// `inherited_scale` (see [`gpmf_samples`]).
pub fn extract_gpmf_gyro(bytes: &[u8], inherited_scale: i32, output: &mut Vec<GyroRaw>)
    ensures
        final(output)@ == old(output)@ + gpmf_samples(bytes@, 0, inherited_scale),
    decreases bytes@.len(),
{
    let mut offset: usize = 0;
    let mut scale = inherited_scale;
    let ghost head = output@;
    while offset <= bytes.len() && 8 <= bytes.len() - offset
        invariant
            offset <= bytes.len(),
            head == old(output)@,
            head + gpmf_samples(bytes@, 0, inherited_scale) == output@ + gpmf_samples(
                bytes@,
                offset as nat,
                scale,
            ),
        decreases bytes.len() + 4 - offset,
    {
        let kind = bytes[offset + 4];
        let size = bytes[offset + 5] as usize;
        let count = (bytes[offset + 6] as usize) * 256 + (bytes[offset + 7] as usize);
        assert(size * count <= 255 * 65535) by (nonlinear_arith)
            requires
                size <= 255,
                count <= 65535,
        ;
        let data_len = size * count;
        let data_start = offset + 8;
        if data_len > bytes.len() - data_start {
            assert(gpmf_samples(bytes@, offset as nat, scale) =~= Seq::<GyroRaw>::empty());
            assert(output@ + Seq::<GyroRaw>::empty() =~= output@);
            return;
        }
        let data_end = data_start + data_len;
        let data = &bytes[data_start..data_end];
        let pad = (4 - data_len % 4) % 4;
        let ghost next = data_end + pad;
        let ghost before = output@;
        let ghost old_scale = scale;
        if key_is(bytes, offset, [0x53u8, 0x43u8, 0x41u8, 0x4cu8]) && data.len() >= 4 {
            let raw: u32 = (((data[0] as u32) * 256 + (data[1] as u32)) * 256 + (data[2] as u32)) * 256
                + (data[3] as u32);
            let value: i32 = if raw >= 0x8000_0000 {
                (raw as i64 - 0x1_0000_0000i64) as i32
            } else {
                raw as i32
            };
            assert(value == be_i32(data@, 0));
            if value != 0 {
                scale = value;
            }
        } else if key_is(bytes, offset, [0x47u8, 0x59u8, 0x52u8, 0x4fu8]) && kind == 0x73 && size >= 6 {
            push_gyro_records(data, size, scale, output);
        } else if kind == 0 || key_is(bytes, offset, [0x44u8, 0x45u8, 0x56u8, 0x43u8]) || key_is(
            bytes,
            offset,
            [0x53u8, 0x54u8, 0x52u8, 0x4du8],
        ) {
            extract_gpmf_gyro(data, scale, output);
        }
        proof {
            assert(data@ == bytes@.subrange(data_start as int, data_end as int));
            assert(output@ + gpmf_samples(bytes@, next as nat, scale) =~= before + gpmf_samples(
                bytes@,
                offset as nat,
                old_scale,
            ));
        }
        if pad > bytes.len() - data_end {
            assert(gpmf_samples(bytes@, next as nat, scale) =~= Seq::<GyroRaw>::empty());
            assert(output@ + Seq::<GyroRaw>::empty() =~= output@);
            return;
        }
        offset = data_end + pad;
    }
    assert(gpmf_samples(bytes@, offset as nat, scale) =~= Seq::<GyroRaw>::empty());
    assert(output@ + Seq::<GyroRaw>::empty() =~= output@);
}

/// The most points a gyroscope trace keeps.
pub const MAX_TRACE_POINTS: usize = 160;

/// The stride that thins `n` samples to at most [`MAX_TRACE_POINTS`].
pub open spec fn trace_stride(n: nat) -> nat {
    (n + 159) / 160
}

/// Every `stride`-th element of a sequence, starting with the first.
pub open spec fn every_nth<T>(s: Seq<T>, stride: nat) -> Seq<T> {
    Seq::new(((s.len() + stride - 1) / stride as int) as nat, |k: int| s[k * stride])
}

/// Thins a non-empty list of samples to at most [`MAX_TRACE_POINTS`] by
/// keeping every `ceil(n / 160)`-th one, starting with the first.
pub fn downsample(samples: &Vec<GyroRaw>) -> (r: Vec<GyroRaw>)
    requires
        samples.len() > 0,
    ensures
        r@ == every_nth(samples@, trace_stride(samples.len() as nat)),
        r.len() <= MAX_TRACE_POINTS,
{
    let n = samples.len();
    let stride = n / 160 + if n % 160 == 0 { 0 } else { 1 };
    assert(stride == trace_stride(n as nat));
    assert(stride >= 1);
    let q = n / stride;
    assert(n % stride != 0 ==> q < n) by (nonlinear_arith)
        requires
            stride >= 1,
            q == n / stride,
    ;
    let count = if n % stride == 0 { q } else { q + 1 };
    assert(count == (n + stride - 1) / stride as int) by (nonlinear_arith)
        requires
            stride >= 1,
            q == n / stride,
            count == if n % stride == 0 { q as int } else { q + 1 },
    ;
    let mut r: Vec<GyroRaw> = Vec::new();
    let mut k: usize = 0;
    while k < count
        invariant
            stride >= 1,
            n == samples.len(),
            k <= count,
            count == (n + stride - 1) / stride as int,
            r@ =~= Seq::new(k as nat, |j: int| samples@[j * stride]),
        decreases count - k,
    {
        assert(k * stride < n) by (nonlinear_arith)
            requires
                k < count,
                count == (n + stride - 1) / stride as int,
                stride >= 1,
        ;
        r.push(samples[k * stride]);
        k = k + 1;
        assert(r@ =~= Seq::new(k as nat, |j: int| samples@[j * stride]));
    }
    proof {
        assert(count <= 160) by (nonlinear_arith)
            requires
                count == (n + stride - 1) / stride as int,
                stride == (n + 159) / 160,
                n >= 1,
        ;
    }
    r
}

/// The samples of the packets' data dumps, in order; `None` as soon as a
/// packet has no data.
pub open spec fn packet_samples(packets: Seq<Option<Seq<char>>>) -> Option<Seq<GyroRaw>>
    decreases packets.len(),
{
    if packets.len() == 0 {
        Some(Seq::empty())
    } else {
        match (packet_samples(packets.drop_last()), packets.last()) {
            (Some(s), Some(p)) => Some(s + gpmf_samples(dump_bytes(p), 0, 1)),
            _ => None,
        }
    }
}

/// A packet without data ends in no samples, whatever follows it.
proof fn lemma_packet_samples_none(packets: Seq<Option<Seq<char>>>, i: int)
    requires
        0 <= i <= packets.len(),
        packet_samples(packets.take(i)) is None,
    ensures
        packet_samples(packets) is None,
    decreases packets.len() - i,
{
    if i < packets.len() {
        assert(packets.take(i + 1).drop_last() =~= packets.take(i));
        lemma_packet_samples_none(packets, i + 1);
    } else {
        assert(packets.take(i) =~= packets);
    }
}

/// The gyroscope trace of a file's data packets (each given by its hex
/// dump, `None` for a packet without data): nothing when a packet has no
/// data or when no packet holds gyroscope samples; else all samples,
/// thinned by [`downsample`].
pub fn gyro_trace_from_packets(packets: &Vec<Option<String>>) -> (r: Option<Vec<GyroRaw>>)
    ensures
        match packet_samples(packets@.map_values(|p: Option<String>| crate::timeline::model::opt_text(p))) {
            Some(s) => if s.len() == 0 {
                r is None
            } else {
                r matches Some(v) && v@ == every_nth(s, trace_stride(s.len()))
            },
            None => r is None,
        },
{
    let ghost dumps = packets@.map_values(|p: Option<String>| crate::timeline::model::opt_text(p));
    let mut samples: Vec<GyroRaw> = Vec::new();
    let mut i: usize = 0;
    while i < packets.len()
        invariant
            i <= packets.len(),
            dumps == packets@.map_values(|p: Option<String>| crate::timeline::model::opt_text(p)),
            packet_samples(dumps.take(i as int)) == Some(samples@),
        decreases packets.len() - i,
    {
        proof {
            assert(dumps.take(i + 1).drop_last() =~= dumps.take(i as int));
            assert(dumps.take(i + 1).last() == crate::timeline::model::opt_text(packets@[i as int]));
        }
        match &packets[i] {
            Some(data) => {
                let bytes = decode_ffprobe_hex(data.as_str());
                extract_gpmf_gyro(bytes.as_slice(), 1, &mut samples);
            },
            None => {
                proof {
                    lemma_packet_samples_none(dumps, i + 1);
                }
                return None;
            },
        }
        i = i + 1;
    }
    assert(dumps.take(packets.len() as int) =~= dumps);
    if samples.len() == 0 {
        return None;
    }
    Some(downsample(&samples))
}

/// A number as `ffprobe` printed it, with its value when the text parses
/// (the caller reads the value: frame rates and durations are decimal
/// fractions).
#[derive(Debug)]
pub struct Reading<T> {
    pub raw: String,
    pub value: Option<T>,
}

/// The fields of an `ffprobe` stream that the summary of a file reads;
/// the frame rate's value is the bit pattern of an `f64`.
#[derive(Debug)]
pub struct StreamInfo {
    pub codec_type: String,
    pub codec_name: Option<String>,
    pub width: Option<u32>,
    pub height: Option<u32>,
    pub r_frame_rate: Option<Reading<u64>>,
}

/// The summary of a media file.
#[derive(Debug)]
pub struct MediaInfo {
    pub duration_us: i64,
    pub width: u32,
    pub height: u32,
    /// Frames per second, as the bit pattern of an `f64` (e.g. 59.94).
    pub fps_bits: u64,
    pub video_codec: String,
    pub has_audio: bool,
}

/// What `format!("{:?}", s)` prints for a string: it quoted, with special
/// characters escaped.
pub uninterp spec fn debug_quoted(s: Seq<char>) -> Seq<char>;

/// Prints a string with `Debug` formatting; the contract names the result
/// `debug_quoted` and says nothing more about it.
#[verifier::external_body]
fn debug_text(s: &str) -> (r: String)
    ensures
        r@ == debug_quoted(s@),
{
    format!("{s:?}")
}

/// The index of the first stream of this codec type.
pub open spec fn first_of_type(streams: Seq<StreamInfo>, t: Seq<char>) -> Option<int>
    decreases streams.len(),
{
    if streams.len() == 0 {
        None
    } else {
        match first_of_type(streams.drop_last(), t) {
            Some(i) => Some(i),
            None => if streams.last().codec_type@ == t {
                Some(streams.len() - 1)
            } else {
                None
            },
        }
    }
}

/// Whether some stream has this codec type.
pub open spec fn has_type(streams: Seq<StreamInfo>, t: Seq<char>) -> bool {
    exists|i: int| 0 <= i < streams.len() && (#[trigger] streams[i]).codec_type@ == t
}

/// A found stream is one of the streams, of that type.
proof fn lemma_first_of_type(streams: Seq<StreamInfo>, t: Seq<char>)
    ensures
        first_of_type(streams, t) matches Some(i) ==> 0 <= i < streams.len() && streams[i].codec_type@ == t,
        first_of_type(streams, t) is None ==> !has_type(streams, t),
    decreases streams.len(),
{
    if streams.len() > 0 {
        lemma_first_of_type(streams.drop_last(), t);
        if first_of_type(streams, t) is None {
            assert forall|i: int| 0 <= i < streams.len() implies (#[trigger] streams[i]).codec_type@ != t by {
                if i < streams.len() - 1 {
                    assert(streams.drop_last()[i] == streams[i]);
                }
            }
        }
    }
}

/// The index of the first stream of this codec type.
fn find_stream(streams: &Vec<StreamInfo>, t: &str) -> (r: Option<usize>)
    ensures
        r matches Some(k) ==> first_of_type(streams@, t@) == Some(k as int) && k < streams.len(),
        r is None ==> first_of_type(streams@, t@) is None,
{
    let wanted = String::from_str(t);
    let mut i: usize = 0;
    while i < streams.len()
        invariant
            i <= streams.len(),
            wanted@ == t@,
            first_of_type(streams@.take(i as int), t@) is None,
        decreases streams.len() - i,
    {
        proof {
            assert(streams@.take(i + 1).drop_last() =~= streams@.take(i as int));
        }
        if streams[i].codec_type == wanted {
            proof {
                assert(first_of_type(streams@.take(i + 1), t@) == Some(i as int));
                lemma_first_stream_stable(streams@, t@, i + 1);
            }
            return Some(i);
        }
        i = i + 1;
    }
    assert(streams@.take(streams.len() as int) =~= streams@);
    None
}

/// A stream found in a prefix is the one found in the whole list.
proof fn lemma_first_stream_stable(streams: Seq<StreamInfo>, t: Seq<char>, n: int)
    requires
        0 <= n <= streams.len(),
        first_of_type(streams.take(n), t) is Some,
    ensures
        first_of_type(streams, t) == first_of_type(streams.take(n), t),
    decreases streams.len() - n,
{
    if n < streams.len() {
        assert(streams.take(n + 1).drop_last() =~= streams.take(n));
        lemma_first_stream_stable(streams, t, n + 1);
    } else {
        assert(streams.take(n) =~= streams);
    }
}

/// The summary of a file from its `ffprobe` streams and format duration
/// (in microseconds): the first video stream's size, frame rate and
/// codec, whether any stream is audio, and the duration. A missing frame
/// rate, size or duration counts as zero; a frame rate or duration that is
/// present but does not parse is an error, and so is a file without a
/// video stream.
pub fn media_info(streams: &Vec<StreamInfo>, duration: &Option<Reading<i64>>) -> (r: Result<MediaInfo, MediaError>)
    ensures
        match first_of_type(streams@, "video"@) {
            None => is_parse_error(r, "no video stream found"@),
            Some(i) => {
                let v = streams@[i];
                if v.r_frame_rate matches Some(rd) && rd.value is None {
                    is_parse_error(r, "unparseable frame rate: "@ + debug_quoted(v.r_frame_rate.unwrap().raw@))
                } else if duration matches Some(d) && d.value is None {
                    is_parse_error(r, "unparseable duration: "@ + debug_quoted(duration.unwrap().raw@))
                } else {
                    r matches Ok(info) && info.width == (match v.width {
                        Some(w) => w,
                        None => 0,
                    }) && info.height == (match v.height {
                        Some(h) => h,
                        None => 0,
                    }) && info.fps_bits == (match v.r_frame_rate {
                        Some(rd) => rd.value.unwrap(),
                        None => 0,
                    }) && info.duration_us == (match duration {
                        Some(d) => d.value.unwrap(),
                        None => 0,
                    }) && info.video_codec@ == (match opt_text(v.codec_name) {
                        Some(c) => c,
                        None => Seq::empty(),
                    }) && info.has_audio == has_type(streams@, "audio"@)
                }
            },
        },
{
    let vi = match find_stream(streams, "video") {
        Some(i) => i,
        None => {
            return Err(MediaError::Parse(String::from_str("no video stream found")));
        },
    };
    proof {
        lemma_first_of_type(streams@, "video"@);
        lemma_first_of_type(streams@, "audio"@);
    }
    let video = &streams[vi];
    let fps_bits: u64 = match &video.r_frame_rate {
        Some(rd) => match rd.value {
            Some(bits) => bits,
            None => {
                let mut m = String::from_str("unparseable frame rate: ");
                let q = debug_text(rd.raw.as_str());
                m.append(q.as_str());
                return Err(MediaError::Parse(m));
            },
        },
        None => 0,
    };
    let duration_us: i64 = match duration {
        Some(d) => match d.value {
            Some(us) => us,
            None => {
                let mut m = String::from_str("unparseable duration: ");
                let q = debug_text(d.raw.as_str());
                m.append(q.as_str());
                return Err(MediaError::Parse(m));
            },
        },
        None => 0,
    };
    let width = match video.width {
        Some(w) => w,
        None => 0,
    };
    let height = match video.height {
        Some(h) => h,
        None => 0,
    };
    let video_codec = match &video.codec_name {
        Some(c) => c.clone(),
        None => String::new(),
    };
    let has_audio = find_stream(streams, "audio").is_some();
    Ok(MediaInfo { duration_us, width, height, fps_bits, video_codec, has_audio })
}

} // verus!
