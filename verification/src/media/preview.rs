//! Editor previews: the window of the timeline that the monitor is about
//! to play, the settings of its per-clip renders, and the arguments that
//! composite those renders.

use vstd::prelude::*;
use vstd::string::StringExecFns;

use crate::media::error::{is_parse_error, MediaError};
use crate::media::args::{micros_text, push_arg, push_str_arg, seconds_text, texts};
use crate::media::settings::{
    preview_dimensions, preview_size, AudioCodec, ExportContainer, ExportSettings, VideoCodec,
};
use crate::media::timeline_export::{
    background_text, clip_list_views, clips_print_exactly, layer_label, timeline_video_clips,
    under_label, video_clips, TimelineNumbers,
};
use crate::text::{decimal, push_decimal};
use crate::timeline::ids::{uuid_text, ClipId};
use crate::timeline::model::{fits_i64, Clip, ClipView, Project, Timecode};
use crate::timeline::model::opt_text;

verus! {

/// The end of the window that starts at `start` and lasts `duration`
/// (at least one microsecond), saturating at the largest timecode.
pub open spec fn window_end(start: Timecode, duration: Timecode) -> int {
    let d = if duration.0 < 1 {
        1
    } else {
        duration.0 as int
    };
    if start.0 + d > i64::MAX {
        i64::MAX as int
    } else {
        start.0 + d
    }
}

/// The part of a clip that is visible in the window `[start, end)`,
/// re-timed so that the window starts at zero: its trim narrowed to the
/// visible range and its position made relative to `start`. `None` when
/// nothing of the clip is visible.
pub open spec fn visible_part(c: ClipView, start: int, end: int) -> Option<ClipView> {
    let clip_start = c.position.0 as int;
    let clip_end = clip_start + (c.out_point.0 - c.in_point.0);
    let visible_start = if clip_start < start {
        start
    } else {
        clip_start
    };
    let visible_end = if clip_end < end {
        clip_end
    } else {
        end
    };
    if visible_start >= visible_end {
        None
    } else {
        Some(
            ClipView {
                in_point: Timecode((c.in_point.0 + (visible_start - clip_start)) as i64),
                out_point: Timecode((c.in_point.0 + (visible_end - clip_start)) as i64),
                position: Timecode((visible_start - start) as i64),
                ..c
            },
        )
    }
}

/// The visible parts of the clips, in order.
pub open spec fn visible_parts(clips: Seq<ClipView>, start: int, end: int) -> Seq<ClipView>
    decreases clips.len(),
{
    if clips.len() == 0 {
        Seq::empty()
    } else {
        let before = visible_parts(clips.drop_last(), start, end);
        match visible_part(clips.last(), start, end) {
            Some(v) => before.push(v),
            None => before,
        }
    }
}

/// The timecode arithmetic of cutting a clip to the window stays within
/// `i64`.
pub open spec fn window_cut_fits(c: ClipView, start: int, end: int) -> bool {
    let clip_start = c.position.0 as int;
    let clip_end = clip_start + (c.out_point.0 - c.in_point.0);
    let visible_start = if clip_start < start {
        start
    } else {
        clip_start
    };
    let visible_end = if clip_end < end {
        clip_end
    } else {
        end
    };
    &&& fits_i64(c.out_point.0 - c.in_point.0)
    &&& fits_i64(clip_end)
    &&& visible_start < visible_end ==> {
        &&& fits_i64(visible_start - clip_start)
        &&& fits_i64(c.in_point.0 + (visible_start - clip_start))
        &&& fits_i64(visible_end - clip_start)
        &&& fits_i64(c.in_point.0 + (visible_end - clip_start))
        &&& fits_i64(visible_start - start)
    }
}

/// A visible part lies inside the window: it starts at or after the
/// window's start, lasts a positive time, and ends at or before the
/// window's end (positions being relative to the window's start).
pub open spec fn inside_window(v: ClipView, start: int, end: int) -> bool {
    &&& 0 <= v.position.0
    &&& v.out_point.0 - v.in_point.0 > 0
    &&& v.position.0 + (v.out_point.0 - v.in_point.0) <= end - start
}

/// Every clip cut to a window lies inside it.
pub proof fn lemma_visible_parts_inside_window(clips: Seq<ClipView>, start: int, end: int)
    requires
        forall|i: int| 0 <= i < clips.len() ==> window_cut_fits(#[trigger] clips[i], start, end),
    ensures
        forall|i: int|
            0 <= i < visible_parts(clips, start, end).len() ==> inside_window(
                #[trigger] visible_parts(clips, start, end)[i],
                start,
                end,
            ),
    decreases clips.len(),
{
    if clips.len() > 0 {
        let rest = clips.drop_last();
        assert forall|i: int| 0 <= i < rest.len() implies window_cut_fits(#[trigger] rest[i], start, end) by {
            assert(rest[i] == clips[i]);
        }
        lemma_visible_parts_inside_window(rest, start, end);
        let c = clips.last();
        assert(window_cut_fits(clips[clips.len() - 1], start, end));
        assert(c == clips[clips.len() - 1]);
        let prev = visible_parts(rest, start, end);
        let all = visible_parts(clips, start, end);
        if visible_part(c, start, end) is Some {
            let v = visible_part(c, start, end)->0;
            assert(inside_window(v, start, end));
            assert(all == prev.push(v));
        } else {
            assert(all == prev);
        }
        assert forall|i: int| 0 <= i < all.len() implies inside_window(#[trigger] all[i], start, end) by {
            if i < prev.len() {
                assert(all[i] == prev[i]);
            }
        }
    }
}

/// Cuts one clip to the window, if any of it is visible.
fn cut_to_window(c: &Clip, start: i64, end: i64) -> (r: Option<Clip>)
    requires
        window_cut_fits(c@, start as int, end as int),
    ensures
        match visible_part(c@, start as int, end as int) {
            Some(v) => r matches Some(x) && x@ == v,
            None => r is None,
        },
{
    let clip_start = c.position.0;
    let clip_end = clip_start + (c.out_point.0 - c.in_point.0);
    let visible_start = if clip_start < start {
        start
    } else {
        clip_start
    };
    let visible_end = if clip_end < end {
        clip_end
    } else {
        end
    };
    if visible_start >= visible_end {
        return None;
    }
    let mut visible = c.clone();
    visible.in_point = Timecode(c.in_point.0 + (visible_start - clip_start));
    visible.out_point = Timecode(c.in_point.0 + (visible_end - clip_start));
    visible.position = Timecode(visible_start - start);
    assert(visible@ =~= visible_part(c@, start as int, end as int).unwrap());
    Some(visible)
}

/// The video clips of a project cut to the window that starts at `start`
/// and lasts `duration` (at least one microsecond): the clips that
/// [`timeline_video_clips`] lists, each narrowed to its visible part and
/// placed relative to `start`, dropping those that are not visible.
pub fn preview_window_clips(project: &Project, start: Timecode, duration: Timecode) -> (clips: Vec<Clip>)
    requires
        forall|i: int|
            #![trigger video_clips(project@.clips, project@.tracks)[i]]
            0 <= i < video_clips(project@.clips, project@.tracks).len() ==> window_cut_fits(
                video_clips(project@.clips, project@.tracks)[i],
                start.0 as int,
                window_end(start, duration),
            ),
    ensures
        clip_list_views(clips@) == visible_parts(
            video_clips(project@.clips, project@.tracks),
            start.0 as int,
            window_end(start, duration),
        ),
{
    let d: i64 = if duration.0 < 1 {
        1
    } else {
        duration.0
    };
    let end: i64 = match start.0.checked_add(d) {
        Some(v) => v,
        None => i64::MAX,
    };
    let all = timeline_video_clips(project);
    let ghost views = video_clips(project@.clips, project@.tracks);
    let mut out: Vec<Clip> = Vec::new();
    let mut i: usize = 0;
    while i < all.len()
        invariant
            i <= all.len(),
            clip_list_views(all@) == views,
            end == window_end(start, duration),
            forall|k: int|
                #![trigger views[k]]
                0 <= k < views.len() ==> window_cut_fits(views[k], start.0 as int, end as int),
            clip_list_views(out@) == visible_parts(views.take(i as int), start.0 as int, end as int),
        decreases all.len() - i,
    {
        let c = &all[i];
        assert(views[i as int] == c@);
        assert(views.take(i + 1).drop_last() =~= views.take(i as int));
        assert(views.take(i + 1).last() == c@);
        let ghost before = clip_list_views(out@);
        match cut_to_window(c, start.0, end) {
            Some(v) => {
                let ghost vv = v@;
                out.push(v);
                assert(clip_list_views(out@) =~= before.push(vv));
            },
            None => {},
        }
        i = i + 1;
    }
    assert(views.take(all.len() as int) =~= views);
    out
}

/// The clips a timeline preview of the window that starts at `start` and
/// lasts `duration` renders, as [`preview_window_clips`] cuts them; an
/// error when the window holds no video clip, before anything is rendered.
pub fn preview_plan(project: &Project, start: Timecode, duration: Timecode) -> (r: Result<Vec<Clip>, MediaError>)
    requires
        forall|i: int|
            #![trigger video_clips(project@.clips, project@.tracks)[i]]
            0 <= i < video_clips(project@.clips, project@.tracks).len() ==> window_cut_fits(
                video_clips(project@.clips, project@.tracks)[i],
                start.0 as int,
                window_end(start, duration),
            ),
    ensures
        ({
            let v = visible_parts(video_clips(project@.clips, project@.tracks), start.0 as int, window_end(start, duration));
            &&& v.len() == 0 ==> is_parse_error(r, "timeline has no video clips"@)
            &&& v.len() > 0 ==> (r matches Ok(clips) && clip_list_views(clips@) == v)
        }),
{
    let clips = preview_window_clips(project, start, duration);
    assert(clips@.len() == clip_list_views(clips@).len());
    if clips.len() == 0 {
        Err(MediaError::Parse(String::from_str("timeline has no video clips")))
    } else {
        Ok(clips)
    }
}

/// The settings of one per-clip preview render: the preview size of the
/// project, its frame rate, CRF 28, H.264 and AAC in MP4.
pub fn preview_render_settings(project: &Project, output_path: String) -> (s: ExportSettings)
    ensures
        (s.width, s.height) == preview_size(project.width, project.height),
        s.output_path@ == output_path@,
        s.fps_bits == project.fps_bits,
        s.crf == Some(28u8),
        s.container == ExportContainer::Mp4,
        s.video_codec == VideoCodec::H264,
        s.audio_codec == AudioCodec::Aac,
{
    let (width, height) = preview_dimensions(project.width, project.height);
    ExportSettings {
        output_path,
        width,
        height,
        fps_bits: project.fps_bits,
        crf: Some(28),
        container: ExportContainer::Mp4,
        video_codec: VideoCodec::H264,
        audio_codec: AudioCodec::Aac,
    }
}

/// The file name of the `index`-th per-clip render of a preview.
pub open spec fn clip_render_name(stem: Seq<char>, index: nat) -> Seq<char> {
    stem + "-clip-"@ + decimal(index) + ".mp4"@
}

/// The file name of the `index`-th per-clip render of a preview whose
/// file stem is `stem`.
pub fn preview_clip_file_name(stem: &str, index: usize) -> (s: String)
    ensures
        s@ == clip_render_name(stem@, index as nat),
{
    let mut s = String::from_str(stem);
    s.append("-clip-");
    push_decimal(&mut s, index as u64);
    s.append(".mp4");
    s
}

/// The label of the `i`-th re-timed clip render.
pub open spec fn clip_label(i: nat) -> Seq<char> {
    "[clip"@ + decimal(i) + "]"@
}

/// The filters that re-time the `i`-th render and composite it.
pub open spec fn composite_layer(i: nat, c: ClipView) -> Seq<char> {
    "["@ + decimal(i + 1) + ":v]setpts=PTS-STARTPTS+"@ + micros_text(c.position.0 as int) + "/TB"@
        + clip_label(i) + ";"@ + under_label(i) + clip_label(i) + "overlay=eof_action=pass:shortest=0"@
        + layer_label(i) + ";"@
}

/// The per-render filters of the first `clips.len()` renders.
pub open spec fn composite_layers(clips: Seq<ClipView>) -> Seq<char>
    decreases clips.len(),
{
    if clips.len() == 0 {
        Seq::empty()
    } else {
        composite_layers(clips.drop_last()) + composite_layer((clips.len() - 1) as nat, clips.last())
    }
}

/// The filter graph of a preview.
pub open spec fn composite_filter(clips: Seq<ClipView>) -> Seq<char> {
    composite_layers(clips) + under_label(clips.len()) + "format=yuv420p[preview]"@
}

/// The inputs of the per-clip renders.
pub open spec fn render_inputs(paths: Seq<Seq<char>>) -> Seq<Seq<char>>
    decreases paths.len(),
{
    if paths.len() == 0 {
        Seq::empty()
    } else {
        render_inputs(paths.drop_last()) + seq!["-i"@, paths.last()]
    }
}

/// The arguments that composite the per-clip renders of a preview over a
/// black background into a video-only H.264 file.
pub open spec fn composite_args(
    clips: Seq<ClipView>,
    paths: Seq<Seq<char>>,
    width: u32,
    height: u32,
    n: &TimelineNumbers,
    output: Seq<char>,
) -> Seq<Seq<char>> {
    seq!["-y"@, "-f"@, "lavfi"@, "-i"@, background_text(width, height, n.fps_text@, n.duration_text@)]
        + render_inputs(paths) + seq![
        "-filter_complex"@,
        composite_filter(clips),
        "-map"@,
        "[preview]"@,
        "-an"@,
        "-c:v"@,
        "libx264"@,
        "-preset"@,
        "ultrafast"@,
        "-threads"@,
        "2"@,
        "-crf"@,
        "28"@,
        "-movflags"@,
        "+faststart"@,
        output,
    ]
}

/// The text `prefix`, decimal `i`, `]`.
fn label_text(prefix: &str, i: u64) -> (s: String)
    ensures
        s@ == prefix@ + decimal(i as nat) + "]"@,
{
    let mut s = String::from_str(prefix);
    push_decimal(&mut s, i);
    s.append("]");
    s
}

/// The label that the `i`-th render is composited over.
fn under_text(i: usize) -> (s: String)
    ensures
        s@ == under_label(i as nat),
{
    if i == 0 {
        String::from_str("[0:v]")
    } else {
        label_text("[layer", (i - 1) as u64)
    }
}

/// The filter graph of a preview.
fn composite_filter_string(clips: &Vec<Clip>) -> (s: String)
    requires
        clips_print_exactly(clip_list_views(clips@)),
    ensures
        s@ == composite_filter(clip_list_views(clips@)),
{
    let ghost views = clip_list_views(clips@);
    let mut filter = String::new();
    let mut i: usize = 0;
    while i < clips.len()
        invariant
            i <= clips.len(),
            views == clip_list_views(clips@),
            clips_print_exactly(views),
            filter@ == composite_layers(views.take(i as int)),
        decreases clips.len() - i,
    {
        let c = &clips[i];
        assert(views[i as int] == c@);
        assert(views.take(i + 1).drop_last() =~= views.take(i as int));
        assert(views.take(i + 1).last() == c@);
        let mut s = String::from_str("[");
        push_decimal(&mut s, (i + 1) as u64);
        s.append(":v]setpts=PTS-STARTPTS+");
        let pos = seconds_text(c.position);
        s.append(pos.as_str());
        s.append("/TB");
        let label = label_text("[clip", i as u64);
        s.append(label.as_str());
        s.append(";");
        let under = under_text(i);
        s.append(under.as_str());
        s.append(label.as_str());
        s.append("overlay=eof_action=pass:shortest=0");
        let layer = label_text("[layer", i as u64);
        s.append(layer.as_str());
        s.append(";");
        assert(s@ == composite_layer(i as nat, c@));
        filter.append(s.as_str());
        i = i + 1;
    }
    assert(views.take(clips.len() as int) =~= views);
    let under = under_text(clips.len());
    filter.append(under.as_str());
    filter.append("format=yuv420p[preview]");
    filter
}

/// The arguments that composite the per-clip renders at `rendered` (one
/// per clip of `clips`, in order) into the preview file `output`.
pub fn preview_composite_args(
    clips: &Vec<Clip>,
    rendered: &Vec<String>,
    width: u32,
    height: u32,
    numbers: &TimelineNumbers,
    output: &str,
) -> (args: Vec<String>)
    requires
        clips_print_exactly(clip_list_views(clips@)),
    ensures
        texts(args@) == composite_args(clip_list_views(clips@), texts(rendered@), width, height, numbers, output@),
{
    let mut args: Vec<String> = Vec::new();
    push_str_arg(&mut args, "-y");
    push_str_arg(&mut args, "-f");
    push_str_arg(&mut args, "lavfi");
    push_str_arg(&mut args, "-i");
    let mut background = String::from_str("color=c=black:s=");
    push_decimal(&mut background, width as u64);
    background.append("x");
    push_decimal(&mut background, height as u64);
    background.append(":r=");
    background.append(numbers.fps_text.as_str());
    background.append(":d=");
    background.append(numbers.duration_text.as_str());
    push_arg(&mut args, background);
    let ghost head = texts(args@);
    let ghost paths = texts(rendered@);
    let mut i: usize = 0;
    while i < rendered.len()
        invariant
            i <= rendered.len(),
            paths == texts(rendered@),
            texts(args@) == head + render_inputs(paths.take(i as int)),
        decreases rendered.len() - i,
    {
        assert(paths.take(i + 1).drop_last() =~= paths.take(i as int));
        assert(paths.take(i + 1).last() == rendered@[i as int]@);
        push_str_arg(&mut args, "-i");
        push_arg(&mut args, rendered[i].clone());
        assert(texts(args@) =~= head + render_inputs(paths.take(i + 1)));
        i = i + 1;
    }
    assert(paths.take(rendered.len() as int) =~= paths);
    let ghost mid = texts(args@);
    let filter = composite_filter_string(clips);
    push_str_arg(&mut args, "-filter_complex");
    push_arg(&mut args, filter);
    push_str_arg(&mut args, "-map");
    push_str_arg(&mut args, "[preview]");
    push_str_arg(&mut args, "-an");
    push_str_arg(&mut args, "-c:v");
    push_str_arg(&mut args, "libx264");
    push_str_arg(&mut args, "-preset");
    push_str_arg(&mut args, "ultrafast");
    push_str_arg(&mut args, "-threads");
    push_str_arg(&mut args, "2");
    push_str_arg(&mut args, "-crf");
    push_str_arg(&mut args, "28");
    push_str_arg(&mut args, "-movflags");
    push_str_arg(&mut args, "+faststart");
    push_str_arg(&mut args, output);
    assert(texts(args@) =~= composite_args(clip_list_views(clips@), paths, width, height, numbers, output@));
    args
}

/// How far ahead of the playhead a timeline preview renders, in
/// microseconds.
pub const PREVIEW_WINDOW_MICROS: i64 = 12_000_000;

/// What a monitor preview renders.
#[derive(Debug)]
pub enum PreviewJob {
    /// One clip, with these settings.
    Clip { clip: Clip, settings: ExportSettings },
    /// The timeline window that starts at `start` and lasts `duration`.
    Window { start: Timecode, duration: Timecode },
}

/// The key under which a monitor preview is cached: the selected clip's
/// id as text (if any), and the start (zero when none is given).
pub fn preview_cache_key(clip_id: Option<ClipId>, start: Option<Timecode>) -> (k: (Option<String>, i64))
    ensures
        opt_text(k.0) == match clip_id {
            Some(id) => Some(uuid_text(id.0)),
            None => None,
        },
        k.1 == match start {
            Some(t) => t.0,
            None => 0,
        },
{
    let text = match clip_id {
        Some(id) => Some(id.to_text()),
        None => None,
    };
    let at = match start {
        Some(t) => t.0,
        None => 0,
    };
    (text, at)
}

/// What a monitor preview renders: the selected clip with the preview
/// render settings (failing when the clip no longer exists), or, without
/// a selection, the next twelve seconds of the timeline from `start`
/// (from zero when none is given).
pub fn preview_job(project: &Project, clip_id: Option<ClipId>, start: Option<Timecode>, output_path: String) -> (r:
    Result<PreviewJob, String>)
    ensures
        match clip_id {
            Some(id) => if project@.clips.contains_key(id.0) {
                r matches Ok(PreviewJob::Clip { clip, settings }) && clip@ == project@.clips[id.0]
                    && settings.output_path@ == output_path@ && (settings.width, settings.height)
                    == preview_size(project.width, project.height) && settings.fps_bits == project.fps_bits
                    && settings.crf == Some(28u8) && settings.container == ExportContainer::Mp4
                    && settings.video_codec == VideoCodec::H264 && settings.audio_codec == AudioCodec::Aac
            } else {
                r matches Err(m) && m@ == "selected clip no longer exists"@
            },
            None => r matches Ok(PreviewJob::Window { start: s, duration: d }) && s.0 == (match start {
                Some(t) => t.0,
                None => 0,
            }) && d.0 == PREVIEW_WINDOW_MICROS,
        },
{
    match clip_id {
        Some(id) => match project.clip(id) {
            Some(c) => {
                let settings = preview_render_settings(project, output_path);
                Ok(PreviewJob::Clip { clip: c.clone(), settings })
            },
            None => Err(String::from_str("selected clip no longer exists")),
        },
        None => {
            let s = match start {
                Some(t) => t,
                None => Timecode(0),
            };
            Ok(PreviewJob::Window { start: s, duration: Timecode(PREVIEW_WINDOW_MICROS) })
        },
    }
}

} // verus!
