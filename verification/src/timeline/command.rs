//! Timeline edits: the `Command` enum, what each command does to a project
//! (`apply_spec`), and its executable counterpart (`Command::apply`).

use vstd::prelude::*;

use crate::timeline::error::CoreError;
use crate::timeline::ids::{ClipId, TrackId};
use crate::timeline::model::{
    clip_end, clip_end_fits, fits_i64, f64_bits_positive, owner_index, plain_clip, track_index,
    ClipView, OsdSource, ProjectView, SpeedKeyframe, StabilizationProfile, TextOverlay,
    TextOverlayView, Timecode, TrackKind, TrackView, clone_keyframes,
};

verus! {

broadcast use vstd::std_specs::hash::group_hash_axioms;

/// Data needed to create a new clip; the command mints the clip's id.
#[derive(Debug)]
pub struct NewClip {
    pub source_path: String,
    pub in_point: Timecode,
    pub out_point: Timecode,
    pub position: Timecode,
}

/// The mathematical value of a [`NewClip`].
pub struct NewClipView {
    pub source_path: Seq<char>,
    pub in_point: Timecode,
    pub out_point: Timecode,
    pub position: Timecode,
}

impl View for NewClip {
    type V = NewClipView;

    open spec fn view(&self) -> NewClipView {
        NewClipView {
            source_path: self.source_path@,
            in_point: self.in_point,
            out_point: self.out_point,
            position: self.position,
        }
    }
}

impl Clone for NewClip {
    fn clone(&self) -> (r: Self)
        ensures
            r@ == self@,
    {
        NewClip {
            source_path: self.source_path.clone(),
            in_point: self.in_point,
            out_point: self.out_point,
            position: self.position,
        }
    }
}

/// One timeline edit. Every mutation of a project goes through one of
/// these.
#[derive(Debug)]
pub enum Command {
    AddTrack { kind: TrackKind, name: String },
    RemoveTrack { track_id: TrackId },
    AddClip { track_id: TrackId, clip: NewClip },
    RemoveClip { clip_id: ClipId },
    TrimClip { clip_id: ClipId, new_in: Timecode, new_out: Timecode },
    /// Trim the clip's start and move its left edge to `new_position` in
    /// one undoable step.
    TrimClipStart { clip_id: ClipId, new_in: Timecode, new_position: Timecode },
    /// Split at an absolute timeline position.
    SplitClip { clip_id: ClipId, at: Timecode },
    ReorderClip { track_id: TrackId, clip_id: ClipId, new_index: usize },
    MoveClip { clip_id: ClipId, new_track_id: TrackId, new_position: Timecode },
    ApplyStabilization { clip_id: ClipId, profile: StabilizationProfile },
    ApplyLut { clip_id: ClipId, lut_path: String },
    SetSpeedRamp { clip_id: ClipId, keyframes: Vec<SpeedKeyframe> },
    AddTextOverlay { clip_id: ClipId, overlay: TextOverlay },
    AddOsdOverlay { clip_id: ClipId, source: OsdSource },
}

/// The mathematical value of a [`Command`].
pub enum CommandView {
    AddTrack { kind: TrackKind, name: Seq<char> },
    RemoveTrack { track_id: TrackId },
    AddClip { track_id: TrackId, clip: NewClipView },
    RemoveClip { clip_id: ClipId },
    TrimClip { clip_id: ClipId, new_in: Timecode, new_out: Timecode },
    TrimClipStart { clip_id: ClipId, new_in: Timecode, new_position: Timecode },
    SplitClip { clip_id: ClipId, at: Timecode },
    ReorderClip { track_id: TrackId, clip_id: ClipId, new_index: usize },
    MoveClip { clip_id: ClipId, new_track_id: TrackId, new_position: Timecode },
    ApplyStabilization { clip_id: ClipId, profile: StabilizationProfile },
    ApplyLut { clip_id: ClipId, lut_path: Seq<char> },
    SetSpeedRamp { clip_id: ClipId, keyframes: Seq<SpeedKeyframe> },
    AddTextOverlay { clip_id: ClipId, overlay: TextOverlayView },
    AddOsdOverlay { clip_id: ClipId, source: OsdSource },
}

impl View for Command {
    type V = CommandView;

    open spec fn view(&self) -> CommandView {
        match self {
            Command::AddTrack { kind, name } => CommandView::AddTrack { kind: *kind, name: name@ },
            Command::RemoveTrack { track_id } => CommandView::RemoveTrack { track_id: *track_id },
            Command::AddClip { track_id, clip } => CommandView::AddClip {
                track_id: *track_id,
                clip: clip@,
            },
            Command::RemoveClip { clip_id } => CommandView::RemoveClip { clip_id: *clip_id },
            Command::TrimClip { clip_id, new_in, new_out } => CommandView::TrimClip {
                clip_id: *clip_id,
                new_in: *new_in,
                new_out: *new_out,
            },
            Command::TrimClipStart { clip_id, new_in, new_position } => CommandView::TrimClipStart {
                clip_id: *clip_id,
                new_in: *new_in,
                new_position: *new_position,
            },
            Command::SplitClip { clip_id, at } => CommandView::SplitClip {
                clip_id: *clip_id,
                at: *at,
            },
            Command::ReorderClip { track_id, clip_id, new_index } => CommandView::ReorderClip {
                track_id: *track_id,
                clip_id: *clip_id,
                new_index: *new_index,
            },
            Command::MoveClip { clip_id, new_track_id, new_position } => CommandView::MoveClip {
                clip_id: *clip_id,
                new_track_id: *new_track_id,
                new_position: *new_position,
            },
            Command::ApplyStabilization { clip_id, profile } => CommandView::ApplyStabilization {
                clip_id: *clip_id,
                profile: *profile,
            },
            Command::ApplyLut { clip_id, lut_path } => CommandView::ApplyLut {
                clip_id: *clip_id,
                lut_path: lut_path@,
            },
            Command::SetSpeedRamp { clip_id, keyframes } => CommandView::SetSpeedRamp {
                clip_id: *clip_id,
                keyframes: keyframes@,
            },
            Command::AddTextOverlay { clip_id, overlay } => CommandView::AddTextOverlay {
                clip_id: *clip_id,
                overlay: overlay@,
            },
            Command::AddOsdOverlay { clip_id, source } => CommandView::AddOsdOverlay {
                clip_id: *clip_id,
                source: *source,
            },
        }
    }
}

impl Clone for Command {
    fn clone(&self) -> (r: Self)
        ensures
            r@ == self@,
    {
        match self {
            Command::AddTrack { kind, name } => Command::AddTrack { kind: *kind, name: name.clone() },
            Command::RemoveTrack { track_id } => Command::RemoveTrack { track_id: *track_id },
            Command::AddClip { track_id, clip } => Command::AddClip {
                track_id: *track_id,
                clip: clip.clone(),
            },
            Command::RemoveClip { clip_id } => Command::RemoveClip { clip_id: *clip_id },
            Command::TrimClip { clip_id, new_in, new_out } => Command::TrimClip {
                clip_id: *clip_id,
                new_in: *new_in,
                new_out: *new_out,
            },
            Command::TrimClipStart { clip_id, new_in, new_position } => Command::TrimClipStart {
                clip_id: *clip_id,
                new_in: *new_in,
                new_position: *new_position,
            },
            Command::SplitClip { clip_id, at } => Command::SplitClip { clip_id: *clip_id, at: *at },
            Command::ReorderClip { track_id, clip_id, new_index } => Command::ReorderClip {
                track_id: *track_id,
                clip_id: *clip_id,
                new_index: *new_index,
            },
            Command::MoveClip { clip_id, new_track_id, new_position } => Command::MoveClip {
                clip_id: *clip_id,
                new_track_id: *new_track_id,
                new_position: *new_position,
            },
            Command::ApplyStabilization { clip_id, profile } => Command::ApplyStabilization {
                clip_id: *clip_id,
                profile: *profile,
            },
            Command::ApplyLut { clip_id, lut_path } => Command::ApplyLut {
                clip_id: *clip_id,
                lut_path: lut_path.clone(),
            },
            Command::SetSpeedRamp { clip_id, keyframes } => Command::SetSpeedRamp {
                clip_id: *clip_id,
                keyframes: clone_keyframes(keyframes),
            },
            Command::AddTextOverlay { clip_id, overlay } => Command::AddTextOverlay {
                clip_id: *clip_id,
                overlay: overlay.clone(),
            },
            Command::AddOsdOverlay { clip_id, source } => Command::AddOsdOverlay {
                clip_id: *clip_id,
                source: *source,
            },
        }
    }
}

// ---------------------------------------------------------------------------
// What each command does, mathematically.
// ---------------------------------------------------------------------------

/// `s` without any occurrence of `id`.
pub open spec fn remove_all(s: Seq<ClipId>, id: ClipId) -> Seq<ClipId>
    decreases s.len(),
{
    if s.len() == 0 {
        s
    } else {
        let r = remove_all(s.drop_last(), id);
        if s.last() == id {
            r
        } else {
            r.push(s.last())
        }
    }
}

/// The track with this order in place of its own.
pub open spec fn with_order(t: TrackView, order: Seq<ClipId>) -> TrackView {
    TrackView { id: t.id, kind: t.kind, name: t.name, clip_order: order }
}

/// Every track with `id` taken out of its playback order.
pub open spec fn detach_all(ts: Seq<TrackView>, id: ClipId) -> Seq<TrackView>
    decreases ts.len(),
{
    if ts.len() == 0 {
        ts
    } else {
        detach_all(ts.drop_last(), id).push(
            with_order(ts.last(), remove_all(ts.last().clip_order, id)),
        )
    }
}

/// The tracks without those whose id is `id`.
pub open spec fn drop_track(ts: Seq<TrackView>, id: TrackId) -> Seq<TrackView>
    decreases ts.len(),
{
    if ts.len() == 0 {
        ts
    } else {
        let r = drop_track(ts.drop_last(), id);
        if ts.last().id == id {
            r
        } else {
            r.push(ts.last())
        }
    }
}

/// Index of the first occurrence of `id` in `s`.
#[verifier::opaque]
pub open spec fn first_index(s: Seq<ClipId>, id: ClipId) -> int {
    choose|i: int| 0 <= i < s.len() && s[i] == id && forall|j: int| 0 <= j < i ==> s[j] != id
}

pub proof fn lemma_first_index(s: Seq<ClipId>, id: ClipId, k: int)
    requires
        0 <= k < s.len(),
        s[k] == id,
        forall|j: int| 0 <= j < k ==> s[j] != id,
    ensures
        first_index(s, id) == k,
{
    reveal(first_index);
    assert(exists|i: int| 0 <= i < s.len() && s[i] == id && forall|j: int| 0 <= j < i ==> s[j] != id);
    let c = first_index(s, id);
    if c < k {
        assert(s[c] != id);
    } else if c > k {
        assert(s[k] != id);
    }
}

/// The clip moved to `position`.
pub open spec fn placed(c: ClipView, position: Timecode) -> ClipView {
    ClipView { position, ..c }
}

/// A project with one clip replaced.
pub open spec fn with_clip(p: ProjectView, id: ClipId, c: ClipView) -> ProjectView {
    ProjectView { clips: p.clips.insert(id.0, c), ..p }
}

/// A project with its tracks replaced.
pub open spec fn with_tracks(p: ProjectView, ts: Seq<TrackView>) -> ProjectView {
    ProjectView { tracks: ts, ..p }
}

/// A speed ramp the timeline accepts: non-empty, strictly increasing in
/// time, and every rate greater than zero.
pub open spec fn valid_ramp(ks: Seq<SpeedKeyframe>) -> bool {
    &&& ks.len() > 0
    &&& forall|i: int| 1 <= i < ks.len() ==> ks[i - 1].at.0 < #[trigger] ks[i].at.0
    &&& forall|i: int| 0 <= i < ks.len() ==> f64_bits_positive(#[trigger] ks[i].rate_bits)
}

/// The inputs on which applying `cmd` neither overflows nor panics: the
/// arithmetic on the touched clip's timecodes fits in `i64`, and a clip
/// found on a track is present in the clip map of a track found first by
/// its own id.
pub open spec fn executable_on(cmd: CommandView, p: ProjectView) -> bool {
    match cmd {
        CommandView::TrimClip { clip_id, new_in, new_out } => p.clips.contains_key(clip_id.0)
            && new_out.0 <= new_in.0 ==> fits_i64(
            p.clips[clip_id.0].out_point.0 - p.clips[clip_id.0].in_point.0,
        ),
        CommandView::TrimClipStart { clip_id, new_in, .. } => p.clips.contains_key(clip_id.0)
            && p.clips[clip_id.0].out_point.0 <= new_in.0 ==> fits_i64(
            p.clips[clip_id.0].out_point.0 - p.clips[clip_id.0].in_point.0,
        ),
        CommandView::SplitClip { clip_id, .. } => match owner_index(p.tracks, clip_id) {
            Some(ti) => {
                &&& p.clips.contains_key(clip_id.0)
                &&& clip_end_fits(p.clips[clip_id.0])
                &&& track_index(p.tracks, p.tracks[ti].id) == Some(ti)
            },
            None => true,
        },
        _ => true,
    }
}

/// Adds an empty track with id `fresh`.
pub open spec fn add_track_spec(p: ProjectView, kind: TrackKind, name: Seq<char>, fresh: u128) -> Result<ProjectView, CoreError> {
    Ok(with_tracks(p, p.tracks.push(TrackView { id: TrackId(fresh), kind, name, clip_order: Seq::empty() })))
}

/// The project with each of these clips removed from the clip map and
/// from every track, in order.
pub open spec fn remove_clips(p: ProjectView, ids: Seq<ClipId>) -> ProjectView
    decreases ids.len(),
{
    if ids.len() == 0 {
        p
    } else {
        let q = remove_clips(p, ids.drop_last());
        ProjectView { tracks: detach_all(q.tracks, ids.last()), clips: q.clips.remove(ids.last().0), ..q }
    }
}

/// Removes every track with this id, and every clip of the first one.
pub open spec fn remove_track_spec(p: ProjectView, track_id: TrackId) -> Result<ProjectView, CoreError> {
    match track_index(p.tracks, track_id) {
        None => Err(CoreError::TrackNotFound(track_id)),
        Some(i) => Ok(remove_clips(with_tracks(p, drop_track(p.tracks, track_id)), p.tracks[i].clip_order)),
    }
}

/// Whether the clip `id` of the map starts later than `pos`.
pub open spec fn starts_after(clips: Map<u128, ClipView>, id: ClipId, pos: Timecode) -> bool {
    clips.contains_key(id.0) && clips[id.0].position.0 > pos.0
}

/// Where a clip placed at `pos` goes in a playback order: before the first
/// clip that starts later, or at the end when none does.
pub open spec fn insert_index(order: Seq<ClipId>, clips: Map<u128, ClipView>, pos: Timecode) -> nat
    decreases order.len(),
{
    if order.len() == 0 {
        0
    } else if starts_after(clips, order[0], pos) {
        0
    } else {
        1 + insert_index(order.drop_first(), clips, pos)
    }
}

/// The insertion point is the first clip that starts later.
pub proof fn lemma_insert_index(order: Seq<ClipId>, clips: Map<u128, ClipView>, pos: Timecode, k: int)
    requires
        0 <= k <= order.len(),
        forall|j: int| 0 <= j < k ==> !starts_after(clips, #[trigger] order[j], pos),
        k == order.len() || starts_after(clips, order[k], pos),
    ensures
        insert_index(order, clips, pos) == k,
    decreases k,
{
    if k > 0 {
        assert forall|j: int| 0 <= j < k - 1 implies !starts_after(clips, #[trigger] order.drop_first()[j], pos) by {
            assert(order.drop_first()[j] == order[j + 1]);
        }
        assert(!starts_after(clips, order[0], pos));
        if k < order.len() {
            assert(order.drop_first()[k - 1] == order[k]);
        }
        lemma_insert_index(order.drop_first(), clips, pos, k - 1);
    }
}

/// Adds a clip with id `fresh`, inserting it into the playback order of
/// the first track with this id so that the order stays sorted by
/// timeline position: before the first clip that starts later.
pub open spec fn add_clip_spec(p: ProjectView, track_id: TrackId, clip: NewClipView, fresh: u128) -> Result<ProjectView, CoreError> {
    if clip.out_point.0 <= clip.in_point.0 {
        Err(CoreError::InvalidTrim {
            clip: ClipId(fresh),
            in_point: clip.in_point.0,
            out_point: clip.out_point.0,
            source_duration: 0,
        })
    } else {
        match track_index(p.tracks, track_id) {
            None => Err(CoreError::TrackNotFound(track_id)),
            Some(i) => {
                let order = p.tracks[i].clip_order;
                Ok(ProjectView {
                    tracks: p.tracks.update(
                        i,
                        with_order(
                            p.tracks[i],
                            order.insert(insert_index(order, p.clips, clip.position) as int, ClipId(fresh)),
                        ),
                    ),
                    clips: p.clips.insert(
                        fresh,
                        placed(plain_clip(ClipId(fresh), clip.source_path, clip.in_point, clip.out_point), clip.position),
                    ),
                    ..p
                })
            },
        }
    }
}

/// Removes a clip from the clip map and from every track.
pub open spec fn remove_clip_spec(p: ProjectView, clip_id: ClipId) -> Result<ProjectView, CoreError> {
    if !p.clips.contains_key(clip_id.0) {
        Err(CoreError::ClipNotFound(clip_id))
    } else {
        Ok(ProjectView { tracks: detach_all(p.tracks, clip_id), clips: p.clips.remove(clip_id.0), ..p })
    }
}

/// Sets a clip's in and out points.
pub open spec fn trim_clip_spec(p: ProjectView, clip_id: ClipId, new_in: Timecode, new_out: Timecode) -> Result<ProjectView, CoreError> {
    if !p.clips.contains_key(clip_id.0) {
        Err(CoreError::ClipNotFound(clip_id))
    } else {
        let c = p.clips[clip_id.0];
        if new_out.0 <= new_in.0 {
            Err(CoreError::InvalidTrim {
                clip: clip_id,
                in_point: new_in.0,
                out_point: new_out.0,
                source_duration: (c.out_point.0 - c.in_point.0) as i64,
            })
        } else {
            Ok(with_clip(p, clip_id, ClipView { in_point: new_in, out_point: new_out, ..c }))
        }
    }
}

/// Sets a clip's in point and its position together.
pub open spec fn trim_clip_start_spec(p: ProjectView, clip_id: ClipId, new_in: Timecode, new_position: Timecode) -> Result<ProjectView, CoreError> {
    if !p.clips.contains_key(clip_id.0) {
        Err(CoreError::ClipNotFound(clip_id))
    } else {
        let c = p.clips[clip_id.0];
        if c.out_point.0 <= new_in.0 {
            Err(CoreError::InvalidTrim {
                clip: clip_id,
                in_point: new_in.0,
                out_point: c.out_point.0,
                source_duration: (c.out_point.0 - c.in_point.0) as i64,
            })
        } else {
            Ok(with_clip(p, clip_id, ClipView { in_point: new_in, position: new_position, ..c }))
        }
    }
}

/// Splits a clip at an absolute timeline position: the clip keeps the
/// head, a new clip with id `fresh` takes the tail and follows it on its
/// track.
pub open spec fn split_clip_spec(p: ProjectView, clip_id: ClipId, at: Timecode, fresh: u128) -> Result<ProjectView, CoreError> {
    match owner_index(p.tracks, clip_id) {
        None => Err(CoreError::ClipNotFound(clip_id)),
        Some(ti) => {
            let c = p.clips[clip_id.0];
            let start = c.position.0;
            let end = clip_end(c);
            if at.0 <= start || at.0 >= end {
                Err(CoreError::InvalidSplit { clip: clip_id, at: at.0, start: start, end: end as i64 })
            } else {
                let split = (c.in_point.0 + (at.0 - start)) as i64;
                let tail = placed(
                    plain_clip(ClipId(fresh), c.source_path, Timecode(split), Timecode((c.in_point.0 + (end - start)) as i64)),
                    at,
                );
                let t = p.tracks[ti];
                Ok(ProjectView {
                    clips: p.clips.insert(clip_id.0, ClipView { out_point: Timecode(split), ..c }).insert(fresh, tail),
                    tracks: p.tracks.update(
                        ti,
                        with_order(t, t.clip_order.insert(first_index(t.clip_order, clip_id) + 1, ClipId(fresh))),
                    ),
                    ..p
                })
            }
        },
    }
}

/// Moves a clip to `new_index` (capped at the end) in its track's order.
pub open spec fn reorder_clip_spec(p: ProjectView, track_id: TrackId, clip_id: ClipId, new_index: usize) -> Result<ProjectView, CoreError> {
    match track_index(p.tracks, track_id) {
        None => Err(CoreError::TrackNotFound(track_id)),
        Some(ti) => {
            let t = p.tracks[ti];
            if !t.clip_order.contains(clip_id) {
                Err(CoreError::ClipNotFound(clip_id))
            } else {
                let rest = t.clip_order.remove(first_index(t.clip_order, clip_id));
                let idx = if new_index < rest.len() { new_index as int } else { rest.len() as int };
                Ok(with_tracks(p, p.tracks.update(ti, with_order(t, rest.insert(idx, clip_id)))))
            }
        },
    }
}

/// Moves a clip to the end of another track's order and to a new position.
pub open spec fn move_clip_spec(p: ProjectView, clip_id: ClipId, new_track_id: TrackId, new_position: Timecode) -> Result<ProjectView, CoreError> {
    if !p.clips.contains_key(clip_id.0) {
        Err(CoreError::ClipNotFound(clip_id))
    } else {
        match track_index(p.tracks, new_track_id) {
            None => Err(CoreError::TrackNotFound(new_track_id)),
            Some(ti) => {
                let ts = detach_all(p.tracks, clip_id);
                Ok(ProjectView {
                    tracks: ts.update(ti, with_order(ts[ti], ts[ti].clip_order.push(clip_id))),
                    clips: p.clips.insert(clip_id.0, placed(p.clips[clip_id.0], new_position)),
                    ..p
                })
            },
        }
    }
}

/// Replaces one clip by `f(clip)`, or reports it missing.
pub open spec fn edit_clip_spec(p: ProjectView, clip_id: ClipId, c: ClipView) -> Result<ProjectView, CoreError> {
    if !p.clips.contains_key(clip_id.0) {
        Err(CoreError::ClipNotFound(clip_id))
    } else {
        Ok(with_clip(p, clip_id, c))
    }
}

/// What applying `cmd` to `p` gives, where `fresh` is the value of the one
/// new random id the command may mint.
pub open spec fn apply_spec(cmd: CommandView, p: ProjectView, fresh: u128) -> Result<ProjectView, CoreError> {
    match cmd {
        CommandView::AddTrack { kind, name } => add_track_spec(p, kind, name, fresh),
        CommandView::RemoveTrack { track_id } => remove_track_spec(p, track_id),
        CommandView::AddClip { track_id, clip } => add_clip_spec(p, track_id, clip, fresh),
        CommandView::RemoveClip { clip_id } => remove_clip_spec(p, clip_id),
        CommandView::TrimClip { clip_id, new_in, new_out } => trim_clip_spec(p, clip_id, new_in, new_out),
        CommandView::TrimClipStart { clip_id, new_in, new_position } => trim_clip_start_spec(p, clip_id, new_in, new_position),
        CommandView::SplitClip { clip_id, at } => split_clip_spec(p, clip_id, at, fresh),
        CommandView::ReorderClip { track_id, clip_id, new_index } => reorder_clip_spec(p, track_id, clip_id, new_index),
        CommandView::MoveClip { clip_id, new_track_id, new_position } => move_clip_spec(p, clip_id, new_track_id, new_position),
        CommandView::ApplyStabilization { clip_id, profile } =>
            edit_clip_spec(p, clip_id, ClipView { stabilization: Some(profile), ..p.clips[clip_id.0] }),
        CommandView::ApplyLut { clip_id, lut_path } =>
            edit_clip_spec(p, clip_id, ClipView { lut_path: Some(lut_path), ..p.clips[clip_id.0] }),
        CommandView::SetSpeedRamp { clip_id, keyframes } => if !valid_ramp(keyframes) {
            Err(CoreError::InvalidSpeedRamp)
        } else {
            edit_clip_spec(p, clip_id, ClipView { speed_keyframes: keyframes, ..p.clips[clip_id.0] })
        },
        CommandView::AddTextOverlay { clip_id, overlay } => edit_clip_spec(
            p,
            clip_id,
            ClipView { text_overlays: p.clips[clip_id.0].text_overlays.push(overlay), ..p.clips[clip_id.0] },
        ),
        CommandView::AddOsdOverlay { clip_id, source } =>
            edit_clip_spec(p, clip_id, ClipView { osd_source: Some(source), ..p.clips[clip_id.0] }),
    }
}

/// How a call that may fail relates to a specified outcome: on success the
/// project becomes the specified one; on failure it is left as it was and
/// the specified error comes back.
pub open spec fn outcome(spec: Result<ProjectView, CoreError>, before: ProjectView, after: ProjectView, r: Result<(), CoreError>) -> bool {
    match spec {
        Ok(np) => r is Ok && after == np,
        Err(e) => r == Err::<(), CoreError>(e) && after == before,
    }
}

/// What an `apply` call promises.
pub open spec fn applied(cmd: CommandView, before: ProjectView, after: ProjectView, fresh: u128, r: Result<(), CoreError>) -> bool {
    outcome(apply_spec(cmd, before, fresh), before, after, r)
}

} // verus!
