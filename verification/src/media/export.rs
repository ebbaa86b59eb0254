//! The FFmpeg argument lists that render a single clip, a clip preview and
//! a proxy file.

use vstd::prelude::*;
use vstd::string::StringExecFns;

use crate::media::args::{
    decimal_text, micros_text, push_arg, push_str_arg, seconds_text, texts, join, join_texts,
    EXACT_MICROS,
};
use crate::media::settings::ExportSettings;
use crate::text::{decimal, push_decimal};
use crate::timeline::model::{f64_bits_positive, Clip, ClipView};

verus! {

/// The numbers of a clip render that come from floating-point values, as
/// the caller computed them: the text of the frame rate, the crop size
/// that a stabilized clip reserves, and the text of the first speed
/// keyframe's rate.
#[derive(Debug)]
pub struct ClipNumbers {
    pub fps_text: String,
    pub crop_width: u32,
    pub crop_height: u32,
    pub rate_text: String,
}

/// The crop filter that reserves a centred `w` x `h` window.
pub open spec fn crop_filter_text(w: u32, h: u32) -> Seq<char> {
    "crop="@ + decimal(w as nat) + ":"@ + decimal(h as nat) + ":(in_w-"@ + decimal(w as nat)
        + ")/2:(in_h-"@ + decimal(h as nat) + ")/2"@
}

/// The scale filter to `w` x `h`.
pub open spec fn scale_filter_text(w: u32, h: u32) -> Seq<char> {
    "scale="@ + decimal(w as nat) + ":"@ + decimal(h as nat)
}

/// The filter that applies the LUT file at `path`.
pub open spec fn lut_filter_text(path: Seq<char>) -> Seq<char> {
    "lut3d='"@ + path + "'"@
}

/// Whether a clip's first speed keyframe asks for a positive rate.
pub open spec fn has_positive_first_rate(c: ClipView) -> bool {
    c.speed_keyframes.len() > 0 && f64_bits_positive(c.speed_keyframes[0].rate_bits)
}

/// The video filters of a clip render, in order: the stabilization crop
/// (stabilized clips only), the scale to the output size, the LUT (clips
/// with a LUT only) and the constant speed change of the first keyframe
/// (only when its rate is positive).
pub open spec fn clip_filters(c: ClipView, s: &ExportSettings, n: &ClipNumbers) -> Seq<Seq<char>> {
    (if c.stabilization is Some {
        seq![crop_filter_text(n.crop_width, n.crop_height)]
    } else {
        Seq::empty()
    }) + seq![scale_filter_text(s.width, s.height)] + (match c.lut_path {
        Some(l) => seq![lut_filter_text(l)],
        None => Seq::empty(),
    }) + (if has_positive_first_rate(c) {
        seq!["setpts=(1/"@ + n.rate_text@ + ")*PTS"@]
    } else {
        Seq::empty()
    })
}

/// The CRF of an export: the one set, else 23.
pub open spec fn crf_or_default(s: &ExportSettings) -> u8 {
    match s.crf {
        Some(v) => v,
        None => 23,
    }
}

/// The arguments that render a clip: trim, filters, frame rate, encoders
/// and the output path.
pub open spec fn clip_args(c: ClipView, s: &ExportSettings, n: &ClipNumbers) -> Seq<Seq<char>> {
    seq![
        "-y"@,
        "-ss"@,
        micros_text(c.in_point.0 as int),
        "-to"@,
        micros_text(c.out_point.0 as int),
        "-i"@,
        c.source_path,
        "-vf"@,
        join(clip_filters(c, s, n), ","@),
        "-r"@,
        n.fps_text@,
        "-c:v"@,
        s.video_codec.encoder_text(),
        "-crf"@,
        decimal(crf_or_default(s) as nat),
        "-pix_fmt"@,
        "yuv420p"@,
        "-c:a"@,
        s.audio_codec.encoder_text(),
        "-movflags"@,
        "+faststart"@,
        s.output_path@,
    ]
}

/// Every part of a joined text appears in it, in full.
proof fn lemma_join_contains(parts: Seq<Seq<char>>, sep: Seq<char>, i: int)
    requires
        0 <= i < parts.len(),
    ensures
        exists|k: int|
            0 <= k && k + parts[i].len() <= join(parts, sep).len() && #[trigger] join(parts, sep).subrange(
                k,
                k + parts[i].len(),
            ) == parts[i],
    decreases parts.len(),
{
    let j = join(parts, sep);
    if parts.len() == 1 {
        assert(j.subrange(0, parts[0].len() as int) =~= parts[0]);
    } else if i == parts.len() - 1 {
        let k = j.len() - parts.last().len();
        assert(j.subrange(k, k + parts[i].len()) =~= parts[i]);
    } else {
        let rest = parts.drop_last();
        lemma_join_contains(rest, sep, i);
        let k = choose|k: int|
            0 <= k && k + rest[i].len() <= join(rest, sep).len() && #[trigger] join(rest, sep).subrange(
                k,
                k + rest[i].len(),
            ) == rest[i];
        assert(j.subrange(k, k + parts[i].len()) =~= join(rest, sep).subrange(k, k + rest[i].len()));
    }
}

/// A clip with a LUT is always rendered through it: whatever its
/// stabilization and speed settings, the video filter argument (after
/// `-vf`) holds `lut3d='` followed by the LUT's path and `'`.
pub proof fn lemma_lut_always_applied(c: ClipView, s: &ExportSettings, n: &ClipNumbers)
    requires
        c.lut_path is Some,
    ensures
        clip_args(c, s, n)[7] == "-vf"@,
        exists|k: int|
            0 <= k && k + ("lut3d='"@ + c.lut_path->0 + "'"@).len() <= clip_args(c, s, n)[8].len() && #[trigger] clip_args(
                c,
                s,
                n,
            )[8].subrange(k, k + ("lut3d='"@ + c.lut_path->0 + "'"@).len()) == "lut3d='"@ + c.lut_path->0 + "'"@,
{
    let fs = clip_filters(c, s, n);
    let crop: int = if c.stabilization is Some { 1 } else { 0 };
    let i = crop + 1;
    assert(fs[i] == "lut3d='"@ + c.lut_path->0 + "'"@);
    lemma_join_contains(fs, ","@, i);
}

/// Both ends of a clip's trim print exactly as seconds.
pub open spec fn trim_prints_exactly(c: ClipView) -> bool {
    &&& -EXACT_MICROS <= c.in_point.0 <= EXACT_MICROS
    &&& -EXACT_MICROS <= c.out_point.0 <= EXACT_MICROS
}

/// The video filters of a clip render.
fn clip_filter_list(clip: &Clip, settings: &ExportSettings, numbers: &ClipNumbers) -> (f: Vec<String>)
    ensures
        texts(f@) == clip_filters(clip@, settings, numbers),
{
    let mut filters: Vec<String> = Vec::new();
    if clip.stabilization.is_some() {
        let w = numbers.crop_width as u64;
        let h = numbers.crop_height as u64;
        let mut crop = String::from_str("crop=");
        push_decimal(&mut crop, w);
        crop.append(":");
        push_decimal(&mut crop, h);
        crop.append(":(in_w-");
        push_decimal(&mut crop, w);
        crop.append(")/2:(in_h-");
        push_decimal(&mut crop, h);
        crop.append(")/2");
        push_arg(&mut filters, crop);
    }
    let ghost after_crop = texts(filters@);
    let mut scale = String::from_str("scale=");
    push_decimal(&mut scale, settings.width as u64);
    scale.append(":");
    push_decimal(&mut scale, settings.height as u64);
    push_arg(&mut filters, scale);
    let ghost after_scale = texts(filters@);
    match &clip.lut_path {
        Some(path) => {
            let mut lut = String::from_str("lut3d='");
            lut.append(path.as_str());
            lut.append("'");
            push_arg(&mut filters, lut);
        },
        None => {},
    }
    let ghost after_lut = texts(filters@);
    if clip.speed_keyframes.len() > 0 {
        let bits = clip.speed_keyframes[0].rate_bits;
        if 0 < bits && bits <= 0x7ff0_0000_0000_0000u64 {
            let mut setpts = String::from_str("setpts=(1/");
            setpts.append(numbers.rate_text.as_str());
            setpts.append(")*PTS");
            push_arg(&mut filters, setpts);
        }
    }
    proof {
        let c = clip@;
        assert(c.speed_keyframes == clip.speed_keyframes@);
        assert(c.lut_path == crate::timeline::model::opt_text(clip.lut_path));
        assert(texts(filters@) =~= clip_filters(clip@, settings, numbers));
    }
    filters
}

/// The arguments that render `clip` (trim, stabilization crop, LUT and a
/// constant speed change) to `settings.output_path`. Speed ramps are
/// approximated by the first keyframe's rate.
pub fn export_clip_args(clip: &Clip, settings: &ExportSettings, numbers: &ClipNumbers) -> (args: Vec<String>)
    requires
        settings.validation_error() is None,
        trim_prints_exactly(clip@),
    ensures
        texts(args@) == clip_args(clip@, settings, numbers),
{
    let mut args: Vec<String> = Vec::new();
    push_str_arg(&mut args, "-y");
    push_str_arg(&mut args, "-ss");
    push_arg(&mut args, seconds_text(clip.in_point));
    push_str_arg(&mut args, "-to");
    push_arg(&mut args, seconds_text(clip.out_point));
    push_str_arg(&mut args, "-i");
    push_arg(&mut args, clip.source_path.clone());
    push_str_arg(&mut args, "-vf");
    let filters = clip_filter_list(clip, settings, numbers);
    push_arg(&mut args, join_texts(&filters, ","));
    push_str_arg(&mut args, "-r");
    push_arg(&mut args, numbers.fps_text.clone());
    push_str_arg(&mut args, "-c:v");
    push_str_arg(&mut args, settings.video_codec.ffmpeg_name());
    push_str_arg(&mut args, "-crf");
    let crf: u8 = match settings.crf {
        Some(v) => v,
        None => 23,
    };
    push_arg(&mut args, decimal_text(crf as u64));
    push_str_arg(&mut args, "-pix_fmt");
    push_str_arg(&mut args, "yuv420p");
    push_str_arg(&mut args, "-c:a");
    push_str_arg(&mut args, settings.audio_codec.ffmpeg_name());
    push_str_arg(&mut args, "-movflags");
    push_str_arg(&mut args, "+faststart");
    push_arg(&mut args, settings.output_path.clone());
    assert(texts(args@) =~= clip_args(clip@, settings, numbers));
    args
}

/// The options that make a clip render fast enough for the editor
/// monitor, placed before the output path.
pub open spec fn preview_options() -> Seq<Seq<char>> {
    seq!["-preset"@, "ultrafast"@, "-threads"@, "2"@, "-movflags"@, "+faststart"@]
}

/// The arguments of a fast, resource-bounded clip render for the editor
/// monitor: those of the export with the preview options inserted before
/// the output path.
pub fn export_clip_preview_args(clip: &Clip, settings: &ExportSettings, numbers: &ClipNumbers) -> (args: Vec<String>)
    requires
        settings.validation_error() is None,
        trim_prints_exactly(clip@),
    ensures
        texts(args@) == clip_args(clip@, settings, numbers).drop_last() + preview_options().push(
            settings.output_path@,
        ),
{
    let mut args = export_clip_args(clip, settings, numbers);
    assert(args@.len() == texts(args@).len());
    let output = args.pop().unwrap();
    proof {
        assert(texts(args@) =~= clip_args(clip@, settings, numbers).drop_last());
    }
    push_str_arg(&mut args, "-preset");
    push_str_arg(&mut args, "ultrafast");
    push_str_arg(&mut args, "-threads");
    push_str_arg(&mut args, "2");
    push_str_arg(&mut args, "-movflags");
    push_str_arg(&mut args, "+faststart");
    push_arg(&mut args, output);
    assert(texts(args@) =~= clip_args(clip@, settings, numbers).drop_last() + preview_options().push(
        settings.output_path@,
    ));
    args
}

/// The arguments that write a low-resolution, fast-decoding proxy of
/// `source` to `output`, at most `max_height` pixels high.
pub open spec fn proxy_args(source: Seq<char>, output: Seq<char>, max_height: u32) -> Seq<Seq<char>> {
    seq![
        "-y"@,
        "-i"@,
        source,
        "-vf"@,
        "scale=-2:"@ + decimal(max_height as nat),
        "-c:v"@,
        "libx264"@,
        "-preset"@,
        "ultrafast"@,
        "-crf"@,
        "28"@,
        output,
    ]
}

/// The arguments that generate a proxy rendition of a source file for
/// smooth editing playback of large footage.
pub fn generate_proxy_args(source: &str, output: &str, max_height: u32) -> (args: Vec<String>)
    ensures
        texts(args@) == proxy_args(source@, output@, max_height),
{
    let mut args: Vec<String> = Vec::new();
    push_str_arg(&mut args, "-y");
    push_str_arg(&mut args, "-i");
    push_str_arg(&mut args, source);
    push_str_arg(&mut args, "-vf");
    let mut scale = String::from_str("scale=-2:");
    push_decimal(&mut scale, max_height as u64);
    push_arg(&mut args, scale);
    push_str_arg(&mut args, "-c:v");
    push_str_arg(&mut args, "libx264");
    push_str_arg(&mut args, "-preset");
    push_str_arg(&mut args, "ultrafast");
    push_str_arg(&mut args, "-crf");
    push_str_arg(&mut args, "28");
    push_str_arg(&mut args, output);
    assert(texts(args@) =~= proxy_args(source@, output@, max_height));
    args
}

} // verus!
