//! The FFmpeg argument list that renders the whole timeline: every video
//! clip placed at its timeline position, layered in track order, with the
//! audio of the clips that have some delayed to the same position and
//! mixed.

use vstd::prelude::*;
use vstd::string::StringExecFns;

use crate::media::args::{
    decimal_text, join, join_texts, micros_text, push_arg, push_str_arg, seconds_text, texts,
    EXACT_MICROS,
};
use crate::media::error::{is_parse_error, MediaError};
use crate::media::export::crf_or_default;
use crate::media::settings::{ExportContainer, ExportSettings};
use crate::text::{decimal, push_decimal};
use crate::timeline::ids::ClipId;
use crate::timeline::model::{opt_text, Clip, ClipView, Project, TrackKind, TrackView};

verus! {

broadcast use vstd::std_specs::hash::group_hash_axioms;

/// The views of a list of clips.
pub open spec fn clip_list_views(s: Seq<Clip>) -> Seq<ClipView> {
    s.map_values(|c: Clip| c@)
}

/// The clips of `order` that the project holds, in order.
pub open spec fn found_clips(clips: Map<u128, ClipView>, order: Seq<ClipId>) -> Seq<ClipView>
    decreases order.len(),
{
    if order.len() == 0 {
        Seq::empty()
    } else {
        let before = found_clips(clips, order.drop_last());
        if clips.contains_key(order.last().0) {
            before.push(clips[order.last().0])
        } else {
            before
        }
    }
}

/// The clips of the video tracks among `tracks`, track by track, each in
/// its track's order.
pub open spec fn video_clips(clips: Map<u128, ClipView>, tracks: Seq<TrackView>) -> Seq<ClipView>
    decreases tracks.len(),
{
    if tracks.len() == 0 {
        Seq::empty()
    } else {
        let before = video_clips(clips, tracks.drop_last());
        if tracks.last().kind == TrackKind::Video {
            before + found_clips(clips, tracks.last().clip_order)
        } else {
            before
        }
    }
}

/// Every clip listed from an order is the clip of one of its ids.
proof fn lemma_found_clips_members(clips: Map<u128, ClipView>, order: Seq<ClipId>)
    ensures
        forall|k: int|
            0 <= k < found_clips(clips, order).len() ==> exists|j: int|
                0 <= j < order.len() && clips.contains_key(order[j].0) && #[trigger] found_clips(clips, order)[k]
                    === clips[order[j].0],
    decreases order.len(),
{
    if order.len() > 0 {
        let rest = order.drop_last();
        lemma_found_clips_members(clips, rest);
        assert forall|k: int| 0 <= k < found_clips(clips, order).len() implies exists|j: int|
            0 <= j < order.len() && clips.contains_key(order[j].0) && #[trigger] found_clips(clips, order)[k]
                === clips[order[j].0] by {
            if k < found_clips(clips, rest).len() {
                let j = choose|j: int|
                    0 <= j < rest.len() && clips.contains_key(rest[j].0) && found_clips(clips, rest)[k] == clips[rest[j].0];
                assert(order[j] == rest[j]);
            } else {
                assert(order[order.len() - 1] == order.last());
            }
        }
    }
}

/// Whether `c` is the clip of an id in the playback order of one of the
/// video tracks among `tracks`.
pub open spec fn on_video_track(clips: Map<u128, ClipView>, tracks: Seq<TrackView>, c: ClipView) -> bool {
    exists|i: int, j: int|
        0 <= i < tracks.len() && tracks[i].kind == TrackKind::Video && 0 <= j < tracks[i].clip_order.len()
            && clips.contains_key(#[trigger] tracks[i].clip_order[j].0) && c == clips[tracks[i].clip_order[j].0]
}

/// Only video tracks are rendered: every clip that [`video_clips`] lists
/// is the clip of an id in the playback order of a track whose kind is
/// video.
pub proof fn lemma_video_clips_come_from_video_tracks(clips: Map<u128, ClipView>, tracks: Seq<TrackView>)
    ensures
        forall|k: int|
            0 <= k < video_clips(clips, tracks).len() ==> on_video_track(
                clips,
                tracks,
                #[trigger] video_clips(clips, tracks)[k],
            ),
    decreases tracks.len(),
{
    if tracks.len() > 0 {
        let rest = tracks.drop_last();
        let last = tracks.last();
        lemma_video_clips_come_from_video_tracks(clips, rest);
        lemma_found_clips_members(clips, last.clip_order);
        let v = video_clips(clips, tracks);
        let before = video_clips(clips, rest);
        assert forall|k: int| 0 <= k < v.len() implies on_video_track(clips, tracks, #[trigger] v[k]) by {
            if k < before.len() {
                assert(v[k] == before[k]);
                assert(on_video_track(clips, rest, before[k]));
                let (i, j) = choose|i: int, j: int|
                    0 <= i < rest.len() && rest[i].kind == TrackKind::Video && 0 <= j < rest[i].clip_order.len()
                        && clips.contains_key(#[trigger] rest[i].clip_order[j].0) && before[k] == clips[rest[i].clip_order[j].0];
                assert(tracks[i] == rest[i]);
                assert(clips.contains_key(tracks[i].clip_order[j].0));
            } else {
                assert(last.kind == TrackKind::Video);
                let f = found_clips(clips, last.clip_order);
                assert(v[k] == f[k - before.len()]);
                let j = choose|j: int|
                    0 <= j < last.clip_order.len() && clips.contains_key(last.clip_order[j].0) && #[trigger] f[k
                        - before.len()] === clips[last.clip_order[j].0];
                let i = tracks.len() - 1;
                assert(tracks[i] == last);
                assert(clips.contains_key(tracks[i].clip_order[j].0));
            }
        }
    }
}

/// Appends the clips of `order` that the project holds.
fn push_found_clips(project: &Project, order: &Vec<ClipId>, out: &mut Vec<Clip>)
    ensures
        clip_list_views(final(out)@) == clip_list_views(old(out)@) + found_clips(project@.clips, order@),
{
    let mut j: usize = 0;
    while j < order.len()
        invariant
            j <= order.len(),
            clip_list_views(out@) == clip_list_views(old(out)@) + found_clips(
                project@.clips,
                order@.take(j as int),
            ),
        decreases order.len() - j,
    {
        let id = order[j];
        let ghost before = clip_list_views(out@);
        proof {
            assert(order@.take(j + 1).drop_last() =~= order@.take(j as int));
        }
        match project.clips.get(&id.0) {
            Some(c) => {
                assert(project@.clips.contains_key(id.0));
                assert(project@.clips[id.0] == c@);
                out.push(c.clone());
                assert(clip_list_views(out@) =~= before.push(c@));
            },
            None => {
                assert(!project@.clips.contains_key(id.0));
            },
        }
        j = j + 1;
    }
    assert(order@.take(order.len() as int) =~= order@);
}

/// The video clips of a project, track by track in track order, each in
/// its track's playback order.
pub fn timeline_video_clips(project: &Project) -> (clips: Vec<Clip>)
    ensures
        clip_list_views(clips@) == video_clips(project@.clips, project@.tracks),
{
    let mut out: Vec<Clip> = Vec::new();
    let mut i: usize = 0;
    while i < project.tracks.len()
        invariant
            i <= project.tracks.len(),
            project@.tracks.len() == project.tracks.len(),
            clip_list_views(out@) == video_clips(project@.clips, project@.tracks.take(i as int)),
        decreases project.tracks.len() - i,
    {
        let track = &project.tracks[i];
        proof {
            assert(project@.tracks[i as int] == track@);
            assert(project@.tracks.take(i + 1).drop_last() =~= project@.tracks.take(i as int));
            assert(project@.tracks.take(i + 1).last() == track@);
        }
        if track.kind == TrackKind::Video {
            push_found_clips(project, &track.clip_order, &mut out);
        }
        i = i + 1;
    }
    assert(project@.tracks.take(i as int) =~= project@.tracks);
    out
}

/// The numbers of a timeline render that come from floating-point values,
/// as the caller printed them: the frame rate and the length of the black
/// background, in seconds.
#[derive(Debug)]
pub struct TimelineNumbers {
    pub fps_text: String,
    pub duration_text: String,
}

/// The label of the `i`-th composited layer.
pub open spec fn layer_label(i: nat) -> Seq<char> {
    "[layer"@ + decimal(i) + "]"@
}

/// The label that the `i`-th layer is composited over: the background for
/// the first, the previous layer after that.
pub open spec fn under_label(i: nat) -> Seq<char> {
    if i == 0 {
        "[0:v]"@
    } else {
        layer_label((i - 1) as nat)
    }
}

/// The filters that offset, scale, colour and composite the `i`-th clip.
pub open spec fn video_layer(i: nat, c: ClipView, width: u32, height: u32) -> Seq<char> {
    "["@ + decimal(i + 1) + ":v]setpts=PTS-STARTPTS+"@ + micros_text(c.position.0 as int)
        + "/TB,scale="@ + decimal(width as nat) + ":"@ + decimal(height as nat) + (match c.lut_path {
        Some(l) => ",lut3d='"@ + l + "'"@,
        None => Seq::empty(),
    }) + "[v"@ + decimal(i) + "];"@ + under_label(i) + "[v"@ + decimal(i)
        + "]overlay=eof_action=pass:shortest=0:x=0:y=0"@ + layer_label(i) + ";"@
}

/// The filter that delays the `i`-th clip's audio, when it has audio.
pub open spec fn audio_layer(i: nat, delay: Option<Seq<char>>) -> Seq<char> {
    match delay {
        Some(d) => "["@ + decimal(i + 1) + ":a]asetpts=PTS-STARTPTS,adelay="@ + d + ":all=1[a"@
            + decimal(i) + "];"@,
        None => Seq::empty(),
    }
}

/// The per-clip filters of the first `clips.len()` clips.
pub open spec fn layers_text(
    clips: Seq<ClipView>,
    delays: Seq<Option<Seq<char>>>,
    width: u32,
    height: u32,
) -> Seq<char>
    decreases clips.len(),
{
    if clips.len() == 0 {
        Seq::empty()
    } else {
        let n = (clips.len() - 1) as nat;
        layers_text(clips.drop_last(), delays, width, height) + video_layer(n, clips.last(), width, height)
            + audio_layer(n, delays[n as int])
    }
}

/// The labels of the delayed audio streams of the first `n` clips.
pub open spec fn audio_labels(delays: Seq<Option<Seq<char>>>, n: nat) -> Seq<Seq<char>>
    decreases n,
{
    if n == 0 {
        Seq::empty()
    } else {
        let i = (n - 1) as nat;
        audio_labels(delays, i) + (if delays[i as int] is Some {
            seq!["[a"@ + decimal(i) + "]"@]
        } else {
            Seq::empty()
        })
    }
}

/// The filter that turns the delayed audio streams into one: passed
/// through when there is one, mixed when there are several.
pub open spec fn mix_text(labels: Seq<Seq<char>>) -> Seq<char> {
    if labels.len() == 1 {
        labels[0] + "anull[audio]"@
    } else if labels.len() > 1 {
        join(labels, ""@) + "amix=inputs="@ + decimal(labels.len()) + ":duration=longest[audio]"@
    } else {
        Seq::empty()
    }
}

/// The whole filter graph of a timeline render.
pub open spec fn timeline_filter(
    clips: Seq<ClipView>,
    delays: Seq<Option<Seq<char>>>,
    width: u32,
    height: u32,
) -> Seq<char> {
    layers_text(clips, delays, width, height) + under_label(clips.len()) + "format=yuv420p[video];"@
        + mix_text(audio_labels(delays, clips.len()))
}

/// The trimmed inputs of the clips, in order.
pub open spec fn clip_inputs(clips: Seq<ClipView>) -> Seq<Seq<char>>
    decreases clips.len(),
{
    if clips.len() == 0 {
        Seq::empty()
    } else {
        let c = clips.last();
        clip_inputs(clips.drop_last()) + seq![
            "-ss"@,
            micros_text(c.in_point.0 as int),
            "-to"@,
            micros_text(c.out_point.0 as int),
            "-i"@,
            c.source_path,
        ]
    }
}

/// The black background of a render.
pub open spec fn background_text(width: u32, height: u32, fps: Seq<char>, duration: Seq<char>) -> Seq<char> {
    "color=c=black:s="@ + decimal(width as nat) + "x"@ + decimal(height as nat) + ":r="@ + fps + ":d="@
        + duration
}

/// The arguments that follow the inputs of a timeline render: the filter
/// graph, the mapped streams and the encoders, then the output path.
pub open spec fn timeline_tail(filter: Seq<char>, has_audio: bool, s: &ExportSettings, n: &TimelineNumbers) -> Seq<
    Seq<char>,
> {
    seq![
        "-filter_complex"@,
        filter,
        "-map"@,
        "[video]"@,
        "-r"@,
        n.fps_text@,
        "-c:v"@,
        s.video_codec.encoder_text(),
        "-crf"@,
        decimal(crf_or_default(s) as nat),
        "-c:a"@,
        s.audio_codec.encoder_text(),
    ] + (if has_audio {
        seq!["-map"@, "[audio]"@]
    } else {
        Seq::empty()
    }) + (if s.container != ExportContainer::Webm {
        seq!["-movflags"@, "+faststart"@]
    } else {
        Seq::empty()
    }) + seq![s.output_path@]
}

/// The arguments of a timeline render.
pub open spec fn timeline_args(
    clips: Seq<ClipView>,
    delays: Seq<Option<Seq<char>>>,
    s: &ExportSettings,
    n: &TimelineNumbers,
) -> Seq<Seq<char>> {
    seq!["-y"@, "-f"@, "lavfi"@, "-i"@, background_text(s.width, s.height, n.fps_text@, n.duration_text@)]
        + clip_inputs(clips) + timeline_tail(
        timeline_filter(clips, delays, s.width, s.height),
        audio_labels(delays, clips.len()).len() > 0,
        s,
        n,
    )
}

/// The texts of a list of optional strings.
pub open spec fn opt_texts(v: Seq<Option<String>>) -> Seq<Option<Seq<char>>> {
    v.map_values(|o: Option<String>| opt_text(o))
}

/// Every clip's trim and position print exactly as seconds.
pub open spec fn clips_print_exactly(clips: Seq<ClipView>) -> bool {
    forall|i: int|
        #![trigger clips[i]]
        0 <= i < clips.len() ==> {
            &&& -EXACT_MICROS <= clips[i].in_point.0 <= EXACT_MICROS
            &&& -EXACT_MICROS <= clips[i].out_point.0 <= EXACT_MICROS
            &&& -EXACT_MICROS <= clips[i].position.0 <= EXACT_MICROS
        }
}

/// The text `prefix`, decimal `i`, `]`.
fn label_string(prefix: &str, i: u64) -> (s: String)
    ensures
        s@ == prefix@ + decimal(i as nat) + "]"@,
{
    let mut s = String::from_str(prefix);
    push_decimal(&mut s, i);
    s.append("]");
    s
}

/// The label that the `i`-th layer is composited over.
fn under_label_string(i: usize) -> (s: String)
    ensures
        s@ == under_label(i as nat),
{
    if i == 0 {
        String::from_str("[0:v]")
    } else {
        label_string("[layer", (i - 1) as u64)
    }
}

/// The LUT filter of a layer, empty for a clip without a LUT.
fn layer_lut_string(lut_path: &Option<String>) -> (s: String)
    ensures
        s@ == (match opt_text(*lut_path) {
            Some(l) => ",lut3d='"@ + l + "'"@,
            None => Seq::empty(),
        }),
{
    match lut_path {
        Some(l) => {
            let mut s = String::from_str(",lut3d='");
            s.append(l.as_str());
            s.append("'");
            s
        },
        None => String::new(),
    }
}

/// Appends the filters of the `i`-th clip.
fn push_video_layer(filter: &mut String, i: usize, c: &Clip, width: u32, height: u32)
    requires
        i < usize::MAX,
        -EXACT_MICROS <= c.position.0 <= EXACT_MICROS,
    ensures
        final(filter)@ == old(filter)@ + video_layer(i as nat, c@, width, height),
{
    let mut s = String::from_str("[");
    push_decimal(&mut s, (i + 1) as u64);
    s.append(":v]setpts=PTS-STARTPTS+");
    let pos = seconds_text(c.position);
    s.append(pos.as_str());
    s.append("/TB,scale=");
    push_decimal(&mut s, width as u64);
    s.append(":");
    push_decimal(&mut s, height as u64);
    let lut = layer_lut_string(&c.lut_path);
    s.append(lut.as_str());
    s.append("[v");
    push_decimal(&mut s, i as u64);
    s.append("];");
    let under = under_label_string(i);
    s.append(under.as_str());
    s.append("[v");
    push_decimal(&mut s, i as u64);
    s.append("]overlay=eof_action=pass:shortest=0:x=0:y=0");
    let label = label_string("[layer", i as u64);
    s.append(label.as_str());
    s.append(";");
    assert(s@ == video_layer(i as nat, c@, width, height));
    filter.append(s.as_str());
}

/// Appends the delay filter of the `i`-th clip's audio and its label,
/// when it has audio.
fn push_audio_layer(filter: &mut String, labels: &mut Vec<String>, i: usize, delay: &Option<String>)
    requires
        i < usize::MAX,
    ensures
        final(filter)@ == old(filter)@ + audio_layer(i as nat, opt_text(*delay)),
        texts(final(labels)@) == texts(old(labels)@) + (if delay is Some {
            seq!["[a"@ + decimal(i as nat) + "]"@]
        } else {
            Seq::<Seq<char>>::empty()
        }),
{
    match delay {
        Some(d) => {
            let mut s = String::from_str("[");
            push_decimal(&mut s, (i + 1) as u64);
            s.append(":a]asetpts=PTS-STARTPTS,adelay=");
            s.append(d.as_str());
            s.append(":all=1[a");
            push_decimal(&mut s, i as u64);
            s.append("];");
            assert(s@ == audio_layer(i as nat, opt_text(*delay)));
            filter.append(s.as_str());
            push_arg(labels, label_string("[a", i as u64));
            assert(texts(labels@) =~= texts(old(labels)@) + seq!["[a"@ + decimal(i as nat) + "]"@]);
        },
        None => {
            assert(filter@ =~= old(filter)@ + audio_layer(i as nat, opt_text(*delay)));
            assert(texts(labels@) =~= texts(old(labels)@) + Seq::<Seq<char>>::empty());
        },
    }
}

/// The filter that turns the delayed audio streams into one.
fn mix_string(labels: &Vec<String>) -> (s: String)
    ensures
        s@ == mix_text(texts(labels@)),
{
    assert(texts(labels@).len() == labels@.len());
    if labels.len() == 1 {
        let mut s = labels[0].clone();
        s.append("anull[audio]");
        assert(texts(labels@)[0] == labels@[0]@);
        s
    } else if labels.len() > 1 {
        let mut s = join_texts(&labels, "");
        s.append("amix=inputs=");
        push_decimal(&mut s, labels.len() as u64);
        s.append(":duration=longest[audio]");
        s
    } else {
        String::new()
    }
}

/// The trimmed inputs of the clips.
fn push_clip_inputs(args: &mut Vec<String>, clips: &Vec<Clip>)
    requires
        clips_print_exactly(clip_list_views(clips@)),
    ensures
        texts(final(args)@) == texts(old(args)@) + clip_inputs(clip_list_views(clips@)),
{
    let ghost views = clip_list_views(clips@);
    let ghost head = texts(args@);
    let mut i: usize = 0;
    while i < clips.len()
        invariant
            i <= clips.len(),
            views == clip_list_views(clips@),
            clips_print_exactly(views),
            texts(args@) == head + clip_inputs(views.take(i as int)),
        decreases clips.len() - i,
    {
        let c = &clips[i];
        assert(views[i as int] == c@);
        assert(views.take(i + 1).drop_last() =~= views.take(i as int));
        push_str_arg(args, "-ss");
        push_arg(args, seconds_text(c.in_point));
        push_str_arg(args, "-to");
        push_arg(args, seconds_text(c.out_point));
        push_str_arg(args, "-i");
        push_arg(args, c.source_path.clone());
        assert(texts(args@) =~= head + clip_inputs(views.take(i + 1)));
        i = i + 1;
    }
    assert(views.take(clips.len() as int) =~= views);
}

/// The filter graph of a timeline render.
fn timeline_filter_string(
    clips: &Vec<Clip>,
    audio_delays: &Vec<Option<String>>,
    width: u32,
    height: u32,
) -> (r: (String, usize))
    requires
        audio_delays.len() == clips.len(),
        clips_print_exactly(clip_list_views(clips@)),
    ensures
        r.0@ == timeline_filter(clip_list_views(clips@), opt_texts(audio_delays@), width, height),
        r.1 == audio_labels(opt_texts(audio_delays@), clips.len() as nat).len(),
{
    let ghost views = clip_list_views(clips@);
    let ghost delays = opt_texts(audio_delays@);
    let mut filter = String::new();
    let mut labels: Vec<String> = Vec::new();
    let mut k: usize = 0;
    while k < clips.len()
        invariant
            k <= clips.len(),
            clips.len() == audio_delays.len(),
            views == clip_list_views(clips@),
            delays == opt_texts(audio_delays@),
            clips_print_exactly(views),
            filter@ == layers_text(views.take(k as int), delays, width, height),
            texts(labels@) == audio_labels(delays, k as nat),
        decreases clips.len() - k,
    {
        let c = &clips[k];
        assert(views[k as int] == c@);
        assert(views.take(k + 1).drop_last() =~= views.take(k as int));
        assert(views.take(k + 1).last() == c@);
        push_video_layer(&mut filter, k, c, width, height);
        assert(delays[k as int] == opt_text(audio_delays@[k as int]));
        push_audio_layer(&mut filter, &mut labels, k, &audio_delays[k]);
        k = k + 1;
    }
    assert(views.take(clips.len() as int) =~= views);
    let under = under_label_string(clips.len());
    filter.append(under.as_str());
    filter.append("format=yuv420p[video];");
    let mix = mix_string(&labels);
    filter.append(mix.as_str());
    assert(texts(labels@).len() == labels@.len());
    (filter, labels.len())
}

/// Appends the arguments that follow the inputs of a timeline render.
fn push_timeline_tail(
    args: &mut Vec<String>,
    filter: String,
    has_audio: bool,
    settings: &ExportSettings,
    numbers: &TimelineNumbers,
)
    ensures
        texts(final(args)@) == texts(old(args)@) + timeline_tail(filter@, has_audio, settings, numbers),
{
    let ghost f = filter@;
    let ghost head = texts(args@);
    push_str_arg(args, "-filter_complex");
    push_arg(args, filter);
    push_str_arg(args, "-map");
    push_str_arg(args, "[video]");
    push_str_arg(args, "-r");
    push_arg(args, numbers.fps_text.clone());
    push_str_arg(args, "-c:v");
    push_str_arg(args, settings.video_codec.ffmpeg_name());
    push_str_arg(args, "-crf");
    let crf: u8 = match settings.crf {
        Some(v) => v,
        None => 23,
    };
    push_arg(args, decimal_text(crf as u64));
    push_str_arg(args, "-c:a");
    push_str_arg(args, settings.audio_codec.ffmpeg_name());
    if has_audio {
        push_str_arg(args, "-map");
        push_str_arg(args, "[audio]");
    }
    if settings.container != ExportContainer::Webm {
        push_str_arg(args, "-movflags");
        push_str_arg(args, "+faststart");
    }
    push_arg(args, settings.output_path.clone());
    assert(texts(args@) =~= head + timeline_tail(f, has_audio, settings, numbers));
}

/// The arguments that render the given clips (the project's video clips,
/// as [`timeline_video_clips`] lists them) into their timeline positions
/// over a black background; `audio_delays[i]` is the printed delay in
/// milliseconds of the `i`-th clip's audio, `None` for a clip without
/// audio. Fails when the settings are invalid, or when there is no clip.
pub fn export_timeline_args(
    clips: &Vec<Clip>,
    audio_delays: &Vec<Option<String>>,
    settings: &ExportSettings,
    numbers: &TimelineNumbers,
) -> (r: Result<Vec<String>, MediaError>)
    requires
        audio_delays.len() == clips.len(),
        clips_print_exactly(clip_list_views(clips@)),
    ensures
        settings.validation_error() matches Some(m) ==> is_parse_error(r, m),
        settings.validation_error() is None && clips.len() == 0 ==> is_parse_error(
            r,
            "timeline has no video clips to export"@,
        ),
        settings.validation_error() is None && clips.len() > 0 ==> (r matches Ok(args) && texts(args@)
            == timeline_args(clip_list_views(clips@), opt_texts(audio_delays@), settings, numbers)),
{
    match settings.validate() {
        Err(e) => {
            return Err(e);
        },
        Ok(()) => {},
    }
    if clips.len() == 0 {
        return Err(MediaError::Parse(String::from_str("timeline has no video clips to export")));
    }
    let ghost views = clip_list_views(clips@);
    let ghost delays = opt_texts(audio_delays@);
    let mut args: Vec<String> = Vec::new();
    push_str_arg(&mut args, "-y");
    push_str_arg(&mut args, "-f");
    push_str_arg(&mut args, "lavfi");
    push_str_arg(&mut args, "-i");
    let mut background = String::from_str("color=c=black:s=");
    push_decimal(&mut background, settings.width as u64);
    background.append("x");
    push_decimal(&mut background, settings.height as u64);
    background.append(":r=");
    background.append(numbers.fps_text.as_str());
    background.append(":d=");
    background.append(numbers.duration_text.as_str());
    push_arg(&mut args, background);
    push_clip_inputs(&mut args, clips);
    let (filter, audio_count) = timeline_filter_string(clips, audio_delays, settings.width, settings.height);
    push_timeline_tail(&mut args, filter, audio_count > 0, settings, numbers);
    assert(texts(args@) =~= timeline_args(views, delays, settings, numbers));
    Ok(args)
}

} // verus!
