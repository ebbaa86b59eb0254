//! Export containers and codecs, export settings and their validation, the
//! size of editor previews, and which formats the local FFmpeg supports.

use vstd::prelude::*;
use vstd::string::StringExecFns;

use crate::media::error::{is_parse_error, MediaError};
use crate::text::{chars_of, contains_word, has_word};

verus! {

/// The container of an exported file.
#[derive(Debug, Clone, Copy, PartialEq, Eq, Structural)]
pub enum ExportContainer {
    Mp4,
    Mov,
    Webm,
}

impl ExportContainer {
    /// The file extension, which is also FFmpeg's muxer name.
    pub open spec fn extension_text(self) -> Seq<char> {
        match self {
            ExportContainer::Mp4 => "mp4"@,
            ExportContainer::Mov => "mov"@,
            ExportContainer::Webm => "webm"@,
        }
    }

    /// The file extension, which is also FFmpeg's muxer name.
    pub fn extension(self) -> (s: &'static str)
        ensures
            s@ == self.extension_text(),
    {
        match self {
            ExportContainer::Mp4 => "mp4",
            ExportContainer::Mov => "mov",
            ExportContainer::Webm => "webm",
        }
    }
}

/// The video codec of an export.
#[derive(Debug, Clone, Copy, PartialEq, Eq, Structural)]
pub enum VideoCodec {
    H264,
    H265,
    Vp9,
}

impl VideoCodec {
    /// FFmpeg's encoder name.
    pub open spec fn encoder_text(self) -> Seq<char> {
        match self {
            VideoCodec::H264 => "libx264"@,
            VideoCodec::H265 => "libx265"@,
            VideoCodec::Vp9 => "libvpx-vp9"@,
        }
    }

    /// FFmpeg's encoder name.
    pub fn ffmpeg_name(self) -> (s: &'static str)
        ensures
            s@ == self.encoder_text(),
    {
        match self {
            VideoCodec::H264 => "libx264",
            VideoCodec::H265 => "libx265",
            VideoCodec::Vp9 => "libvpx-vp9",
        }
    }
}

/// The audio codec of an export.
#[derive(Debug, Clone, Copy, PartialEq, Eq, Structural)]
pub enum AudioCodec {
    Aac,
    Opus,
}

impl AudioCodec {
    /// FFmpeg's encoder name.
    pub open spec fn encoder_text(self) -> Seq<char> {
        match self {
            AudioCodec::Aac => "aac"@,
            AudioCodec::Opus => "libopus"@,
        }
    }

    /// FFmpeg's encoder name.
    pub fn ffmpeg_name(self) -> (s: &'static str)
        ensures
            s@ == self.encoder_text(),
    {
        match self {
            AudioCodec::Aac => "aac",
            AudioCodec::Opus => "libopus",
        }
    }
}

/// Whether the `f64` with these bits is finite and greater than zero.
pub open spec fn f64_bits_positive_finite(bits: u64) -> bool {
    0 < bits < 0x7ff0_0000_0000_0000u64
}

/// The settings of an export.
#[derive(Debug)]
pub struct ExportSettings {
    pub output_path: String,
    pub width: u32,
    pub height: u32,
    /// Frames per second, as the bit pattern of an `f64`.
    pub fps_bits: u64,
    /// Quality value appropriate for the selected codec (lower = better).
    pub crf: Option<u8>,
    pub container: ExportContainer,
    pub video_codec: VideoCodec,
    pub audio_codec: AudioCodec,
}

impl ExportSettings {
    /// Why these settings cannot be exported, if they cannot.
    pub open spec fn validation_error(&self) -> Option<Seq<char>> {
        if self.width == 0 || self.height == 0 || self.width % 2 != 0 || self.height % 2 != 0 {
            Some("resolution must use positive, even dimensions"@)
        } else if !f64_bits_positive_finite(self.fps_bits) {
            Some("frame rate must be greater than zero"@)
        } else if self.container == ExportContainer::Webm && self.video_codec != VideoCodec::Vp9 {
            Some("WebM requires the VP9 video codec in FPV Editor"@)
        } else if self.container == ExportContainer::Webm && self.audio_codec != AudioCodec::Opus {
            Some("WebM requires the Opus audio codec in FPV Editor"@)
        } else {
            None
        }
    }

    /// Checks that the resolution is positive and even, that the frame rate
    /// is a positive finite number, and that WebM is paired with VP9 and
    /// Opus.
    pub fn validate(&self) -> (r: Result<(), MediaError>)
        ensures
            self.validation_error() is None ==> r is Ok,
            self.validation_error() matches Some(m) ==> is_parse_error(r, m),
    {
        if self.width == 0 || self.height == 0 || self.width % 2 != 0 || self.height % 2 != 0 {
            return Err(MediaError::Parse(String::from_str("resolution must use positive, even dimensions")));
        }
        if !(0 < self.fps_bits && self.fps_bits < 0x7ff0_0000_0000_0000u64) {
            return Err(MediaError::Parse(String::from_str("frame rate must be greater than zero")));
        }
        if self.container == ExportContainer::Webm && self.video_codec != VideoCodec::Vp9 {
            return Err(MediaError::Parse(String::from_str("WebM requires the VP9 video codec in FPV Editor")));
        }
        if self.container == ExportContainer::Webm && self.audio_codec != AudioCodec::Opus {
            return Err(MediaError::Parse(String::from_str("WebM requires the Opus audio codec in FPV Editor")));
        }
        Ok(())
    }
}

/// The longest side of an editor preview.
pub const PREVIEW_MAX_SIDE: u32 = 960;

/// The shorter side of a preview whose longer side `long` (over 960) is
/// scaled to 960: `short` scaled by the same factor, rounded to the nearest
/// integer (halves up), then down to an even number, and at least 2. (For
/// every pair of `u32` sizes the quotient `short * 960 / long` computed in
/// `f64` lies on the same side of every half-integer as the exact one, so
/// this integer rounding is what the floating-point formula gives.)
pub open spec fn scaled_side(short: u32, long: u32) -> u32 {
    let rounded = (2 * 960 * short + long) / (2 * long);
    let even = rounded / 2 * 2;
    if even < 2 {
        2u32
    } else {
        even as u32
    }
}

/// The size of an editor preview: sources whose longer side is at most
/// 960 pixels keep their size; larger ones are scaled so that the longer
/// side is 960, keeping the aspect ratio (see [`scaled_side`]).
pub open spec fn preview_size(width: u32, height: u32) -> (u32, u32) {
    if width <= PREVIEW_MAX_SIDE && height <= PREVIEW_MAX_SIDE {
        (width, height)
    } else if width >= height {
        (PREVIEW_MAX_SIDE, scaled_side(height, width))
    } else {
        (scaled_side(width, height), PREVIEW_MAX_SIDE)
    }
}

/// The shorter side of a preview whose longer side is scaled to 960.
fn scale_side(short: u32, long: u32) -> (r: u32)
    requires
        short <= long,
        long > PREVIEW_MAX_SIDE,
    ensures
        r == scaled_side(short, long),
{
    let l = long as u64;
    let rounded: u64 = (1920 * (short as u64) + l) / (2 * l);
    assert(rounded <= short) by (nonlinear_arith)
        requires
            rounded == (1920 * (short as u64) + l) / (2 * l),
            l > 960,
    {
        assert(1920 * short + l < 2 * l * (short + 1));
    }
    let even = rounded / 2 * 2;
    if even < 2 {
        2u32
    } else {
        even as u32
    }
}

/// The size of an editor preview of a `width` x `height` source.
pub fn preview_dimensions(width: u32, height: u32) -> (d: (u32, u32))
    ensures
        d == preview_size(width, height),
{
    if width <= PREVIEW_MAX_SIDE && height <= PREVIEW_MAX_SIDE {
        (width, height)
    } else if width >= height {
        (PREVIEW_MAX_SIDE, scale_side(height, width))
    } else {
        (scale_side(width, height), PREVIEW_MAX_SIDE)
    }
}

/// The formats of the small tested set that the local FFmpeg can encode
/// and mux.
#[derive(Debug)]
pub struct ExportCapabilities {
    pub containers: Vec<ExportContainer>,
    pub video_codecs: Vec<VideoCodec>,
    pub audio_codecs: Vec<AudioCodec>,
}

/// `x` alone when `keep` holds, nothing otherwise.
pub open spec fn kept<T>(keep: bool, x: T) -> Seq<T> {
    if keep {
        seq![x]
    } else {
        Seq::empty()
    }
}

/// The capabilities that FFmpeg's `-encoders` and `-muxers` listings
/// show: a container when its extension is a word of the muxer listing, a
/// codec when its encoder name is a word of the encoder listing, each list
/// in the order MP4, MOV, WebM / H.264, H.265, VP9 / AAC, Opus.
pub fn export_capabilities(encoders: &str, muxers: &str) -> (c: ExportCapabilities)
    ensures
        c.containers@ == kept(has_word(muxers@, "mp4"@), ExportContainer::Mp4) + kept(
            has_word(muxers@, "mov"@),
            ExportContainer::Mov,
        ) + kept(has_word(muxers@, "webm"@), ExportContainer::Webm),
        c.video_codecs@ == kept(has_word(encoders@, "libx264"@), VideoCodec::H264) + kept(
            has_word(encoders@, "libx265"@),
            VideoCodec::H265,
        ) + kept(has_word(encoders@, "libvpx-vp9"@), VideoCodec::Vp9),
        c.audio_codecs@ == kept(has_word(encoders@, "aac"@), AudioCodec::Aac) + kept(
            has_word(encoders@, "libopus"@),
            AudioCodec::Opus,
        ),
{
    let enc = chars_of(encoders);
    let mux = chars_of(muxers);
    let mut containers: Vec<ExportContainer> = Vec::new();
    if contains_word(&mux, &chars_of(ExportContainer::Mp4.extension())) {
        containers.push(ExportContainer::Mp4);
    }
    if contains_word(&mux, &chars_of(ExportContainer::Mov.extension())) {
        containers.push(ExportContainer::Mov);
    }
    if contains_word(&mux, &chars_of(ExportContainer::Webm.extension())) {
        containers.push(ExportContainer::Webm);
    }
    assert(containers@ =~= kept(has_word(muxers@, "mp4"@), ExportContainer::Mp4) + kept(
        has_word(muxers@, "mov"@),
        ExportContainer::Mov,
    ) + kept(has_word(muxers@, "webm"@), ExportContainer::Webm));
    let mut video_codecs: Vec<VideoCodec> = Vec::new();
    if contains_word(&enc, &chars_of(VideoCodec::H264.ffmpeg_name())) {
        video_codecs.push(VideoCodec::H264);
    }
    if contains_word(&enc, &chars_of(VideoCodec::H265.ffmpeg_name())) {
        video_codecs.push(VideoCodec::H265);
    }
    if contains_word(&enc, &chars_of(VideoCodec::Vp9.ffmpeg_name())) {
        video_codecs.push(VideoCodec::Vp9);
    }
    assert(video_codecs@ =~= kept(has_word(encoders@, "libx264"@), VideoCodec::H264) + kept(
        has_word(encoders@, "libx265"@),
        VideoCodec::H265,
    ) + kept(has_word(encoders@, "libvpx-vp9"@), VideoCodec::Vp9));
    let mut audio_codecs: Vec<AudioCodec> = Vec::new();
    if contains_word(&enc, &chars_of(AudioCodec::Aac.ffmpeg_name())) {
        audio_codecs.push(AudioCodec::Aac);
    }
    if contains_word(&enc, &chars_of(AudioCodec::Opus.ffmpeg_name())) {
        audio_codecs.push(AudioCodec::Opus);
    }
    assert(audio_codecs@ =~= kept(has_word(encoders@, "aac"@), AudioCodec::Aac) + kept(
        has_word(encoders@, "libopus"@),
        AudioCodec::Opus,
    ));
    ExportCapabilities { containers, video_codecs, audio_codecs }
}

} // verus!
