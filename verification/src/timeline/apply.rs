//! The executable side of [`Command`]: each edit, proved to do exactly what
//! `apply_spec` says.

use vstd::prelude::*;

use crate::timeline::command::{
    insert_index, lemma_insert_index, remove_clips, starts_after,
    add_clip_spec, add_track_spec, move_clip_spec, outcome, remove_clip_spec, remove_track_spec,
    reorder_clip_spec, split_clip_spec, trim_clip_spec, trim_clip_start_spec, applied, apply_spec,
    detach_all, drop_track, executable_on, first_index, lemma_first_index, remove_all, valid_ramp,
    with_order, with_tracks, Command, CommandView, NewClip,
};
use crate::timeline::error::CoreError;
use crate::timeline::laws::lemma_detach_all_facts;
use crate::timeline::ids::{fresh_uuid, ClipId, TrackId};
use crate::timeline::model::{
    clip_end_fits, clip_views, lemma_owner_index_facts, position_of, track_views, Clip, ClipView,
    OsdSource, Project, ProjectView, SpeedKeyframe, StabilizationProfile, TextOverlay, Timecode,
    Track, TrackKind, TrackView, clone_keyframes,
};

verus! {

broadcast use vstd::std_specs::hash::group_hash_axioms;

/// `order` without any occurrence of `id`.
fn remove_all_exec(order: &Vec<ClipId>, id: ClipId) -> (r: Vec<ClipId>)
    ensures
        r@ == remove_all(order@, id),
{
    let mut r: Vec<ClipId> = Vec::new();
    let mut i: usize = 0;
    while i < order.len()
        invariant
            i <= order.len(),
            r@ == remove_all(order@.subrange(0, i as int), id),
        decreases order.len() - i,
    {
        proof {
            assert(order@.subrange(0, i as int + 1).drop_last() =~= order@.subrange(0, i as int));
        }
        if order[i] != id {
            r.push(order[i]);
        }
        i = i + 1;
    }
    assert(order@.subrange(0, order.len() as int) =~= order@);
    r
}

/// A copy of `t` with `order` as its playback order.
fn track_with_order(t: &Track, order: Vec<ClipId>) -> (r: Track)
    ensures
        r@ == with_order(t@, order@),
{
    Track { id: t.id, kind: t.kind, name: t.name.clone(), clip_order: order }
}

/// Every track with `id` taken out of its playback order.
fn detach_all_exec(tracks: &Vec<Track>, id: ClipId) -> (r: Vec<Track>)
    ensures
        track_views(r@) == detach_all(track_views(tracks@), id),
{
    let mut r: Vec<Track> = Vec::new();
    let mut i: usize = 0;
    while i < tracks.len()
        invariant
            i <= tracks.len(),
            track_views(r@) == detach_all(track_views(tracks@.subrange(0, i as int)), id),
        decreases tracks.len() - i,
    {
        let t = track_with_order(&tracks[i], remove_all_exec(&tracks[i].clip_order, id));
        proof {
            let pre = tracks@.subrange(0, i as int);
            let post = tracks@.subrange(0, i as int + 1);
            assert(post =~= pre.push(tracks@[i as int]));
            assert(track_views(post) =~= track_views(pre).push(tracks@[i as int]@));
            assert(track_views(post).drop_last() =~= track_views(pre));
            assert(track_views(r@.push(t)) =~= track_views(r@).push(t@));
        }
        r.push(t);
        i = i + 1;
    }
    assert(tracks@.subrange(0, tracks.len() as int) =~= tracks@);
    r
}

/// The tracks without those whose id is `id`.
fn drop_track_exec(tracks: &Vec<Track>, id: TrackId) -> (r: Vec<Track>)
    ensures
        track_views(r@) == drop_track(track_views(tracks@), id),
{
    let mut r: Vec<Track> = Vec::new();
    let mut i: usize = 0;
    while i < tracks.len()
        invariant
            i <= tracks.len(),
            track_views(r@) == drop_track(track_views(tracks@.subrange(0, i as int)), id),
        decreases tracks.len() - i,
    {
        proof {
            let pre = tracks@.subrange(0, i as int);
            let post = tracks@.subrange(0, i as int + 1);
            assert(post =~= pre.push(tracks@[i as int]));
            assert(track_views(post) =~= track_views(pre).push(tracks@[i as int]@));
            assert(track_views(post).drop_last() =~= track_views(pre));
        }
        if tracks[i].id != id {
            let t = tracks[i].clone();
            proof {
                assert(track_views(r@.push(t)) =~= track_views(r@).push(t@));
            }
            r.push(t);
        }
        i = i + 1;
    }
    assert(tracks@.subrange(0, tracks.len() as int) =~= tracks@);
    r
}

/// Replaces the track at `i`.
fn set_track(p: &mut Project, i: usize, t: Track)
    requires
        i < old(p).tracks.len(),
    ensures
        final(p)@ == with_tracks(old(p)@, old(p)@.tracks.update(i as int, t@)),
{
    let ghost old_views = track_views(p.tracks@);
    p.tracks.set(i, t);
    assert(track_views(p.tracks@) =~= old_views.update(i as int, t@));
    assert(p@ =~= with_tracks(old(p)@, old(p)@.tracks.update(i as int, t@)));
}

/// Replaces (or adds) the clip under `key`.
fn put_clip(p: &mut Project, key: u128, c: Clip)
    ensures
        final(p)@ == (ProjectView { clips: old(p)@.clips.insert(key, c@), ..old(p)@ }),
{
    let ghost old_views = clip_views(p.clips@);
    p.clips.insert(key, c);
    assert(clip_views(p.clips@) =~= old_views.insert(key, c@));
    assert(p@ =~= (ProjectView { clips: old(p)@.clips.insert(key, c@), ..old(p)@ }));
}

/// A copy of the clip stored under `id`.
fn clip_copy(p: &Project, id: ClipId) -> (r: Option<Clip>)
    ensures
        match r {
            Some(c) => p@.clips.contains_key(id.0) && c@ == p@.clips[id.0],
            None => !p@.clips.contains_key(id.0),
        },
{
    match p.clips.get(&id.0) {
        Some(c) => Some(c.clone()),
        None => None,
    }
}

/// Whether a speed ramp is acceptable: non-empty, strictly increasing in
/// time, all rates greater than zero.
pub fn check_ramp(keyframes: &Vec<SpeedKeyframe>) -> (ok: bool)
    ensures
        ok == valid_ramp(keyframes@),
{
    if keyframes.len() == 0 {
        return false;
    }
    let mut i: usize = 0;
    while i < keyframes.len()
        invariant
            i <= keyframes.len(),
            keyframes.len() > 0,
            forall|j: int| 1 <= j < i ==> keyframes@[j - 1].at.0 < #[trigger] keyframes@[j].at.0,
            forall|j: int| 0 <= j < i ==> crate::timeline::model::f64_bits_positive(
                #[trigger] keyframes@[j].rate_bits,
            ),
        decreases keyframes.len() - i,
    {
        let bits = keyframes[i].rate_bits;
        if !(0 < bits && bits <= 0x7ff0_0000_0000_0000u64) {
            return false;
        }
        if i > 0 && !(keyframes[i - 1].at.0 < keyframes[i].at.0) {
            return false;
        }
        i = i + 1;
    }
    true
}

impl Command {
    fn add_track(p: &mut Project, kind: TrackKind, name: &String, fresh: u128) -> (r: Result<(), CoreError>)
        ensures
            outcome(add_track_spec(old(p)@, kind, name@, fresh), old(p)@, final(p)@, r),
    {
        let ghost old_views = track_views(p.tracks@);
        let t = Track { id: TrackId(fresh), kind, name: name.clone(), clip_order: Vec::new() };
        assert(t@.clip_order =~= Seq::<ClipId>::empty());
        p.tracks.push(t);
        assert(track_views(p.tracks@) =~= old_views.push(t@));
        assert(p@ =~= with_tracks(
            old(p)@,
            old(p)@.tracks.push(
                TrackView { id: TrackId(fresh), kind, name: name@, clip_order: Seq::empty() },
            ),
        ));
        Ok(())
    }

    fn remove_track(p: &mut Project, track_id: TrackId) -> (r: Result<(), CoreError>)
        ensures
            outcome(remove_track_spec(old(p)@, track_id), old(p)@, final(p)@, r),
    {
        match p.track_position(track_id) {
            None => Err(CoreError::TrackNotFound(track_id)),
            Some(i) => {
                let order = p.tracks[i].clip_order.clone();
                assert(order@ =~= old(p)@.tracks[i as int].clip_order);
                let kept = drop_track_exec(&p.tracks, track_id);
                p.tracks = kept;
                let ghost base = with_tracks(old(p)@, drop_track(old(p)@.tracks, track_id));
                assert(p@ =~= base);
                assert(order@.take(0) =~= Seq::<ClipId>::empty());
                let mut k: usize = 0;
                while k < order.len()
                    invariant
                        k <= order.len(),
                        p@ == remove_clips(base, order@.take(k as int)),
                    decreases order.len() - k,
                {
                    let id = order[k];
                    let ghost before = p@;
                    let detached = detach_all_exec(&p.tracks, id);
                    p.tracks = detached;
                    let ghost old_views = clip_views(p.clips@);
                    let _ = p.clips.remove(&id.0);
                    assert(clip_views(p.clips@) =~= old_views.remove(id.0));
                    assert(order@.take(k + 1).drop_last() =~= order@.take(k as int));
                    assert(order@.take(k + 1).last() == id);
                    assert(p@ =~= (ProjectView {
                        tracks: detach_all(before.tracks, id),
                        clips: before.clips.remove(id.0),
                        ..before
                    }));
                    k = k + 1;
                }
                assert(order@.take(order.len() as int) =~= order@);
                Ok(())
            },
        }
    }

    fn add_clip(p: &mut Project, track_id: TrackId, clip: &NewClip, fresh: u128) -> (r: Result<(), CoreError>)
        ensures
            outcome(add_clip_spec(old(p)@, track_id, clip@, fresh), old(p)@, final(p)@, r),
    {
        if clip.out_point.0 <= clip.in_point.0 {
            return Err(
                CoreError::InvalidTrim {
                    clip: ClipId(fresh),
                    in_point: clip.in_point.0,
                    out_point: clip.out_point.0,
                    source_duration: 0,
                },
            );
        }
        match p.track_position(track_id) {
            None => Err(CoreError::TrackNotFound(track_id)),
            Some(i) => {
                let mut order = p.tracks[i].clip_order.clone();
                assert(order@ =~= p@.tracks[i as int].clip_order);
                let mut k: usize = 0;
                while k < order.len()
                    invariant
                        k <= order.len(),
                        forall|j: int| 0 <= j < k ==> !starts_after(p@.clips, #[trigger] order@[j], clip.position),
                    ensures
                        k <= order.len(),
                        forall|j: int| 0 <= j < k ==> !starts_after(p@.clips, #[trigger] order@[j], clip.position),
                        k == order.len() || starts_after(p@.clips, order@[k as int], clip.position),
                    decreases order.len() - k,
                {
                    let later = match p.clips.get(&order[k].0) {
                        Some(c) => c.position.0 > clip.position.0,
                        None => false,
                    };
                    if later {
                        break;
                    }
                    k = k + 1;
                }
                proof {
                    lemma_insert_index(order@, p@.clips, clip.position, k as int);
                }
                order.insert(k, ClipId(fresh));
                let t = track_with_order(&p.tracks[i], order);
                set_track(p, i, t);
                let mut c = Clip::with_id(
                    ClipId(fresh),
                    clip.source_path.clone(),
                    clip.in_point,
                    clip.out_point,
                );
                c.position = clip.position;
                put_clip(p, fresh, c);
                Ok(())
            },
        }
    }

    fn remove_clip(p: &mut Project, clip_id: ClipId) -> (r: Result<(), CoreError>)
        ensures
            outcome(remove_clip_spec(old(p)@, clip_id), old(p)@, final(p)@, r),
    {
        if !p.clips.contains_key(&clip_id.0) {
            return Err(CoreError::ClipNotFound(clip_id));
        }
        let detached = detach_all_exec(&p.tracks, clip_id);
        p.tracks = detached;
        let ghost old_views = clip_views(p.clips@);
        let _ = p.clips.remove(&clip_id.0);
        assert(clip_views(p.clips@) =~= old_views.remove(clip_id.0));
        assert(p@ =~= (ProjectView {
            tracks: detach_all(old(p)@.tracks, clip_id),
            clips: old(p)@.clips.remove(clip_id.0),
            ..old(p)@
        }));
        Ok(())
    }

    fn trim_clip(p: &mut Project, clip_id: ClipId, new_in: Timecode, new_out: Timecode) -> (r: Result<(), CoreError>)
        requires
            executable_on(CommandView::TrimClip { clip_id, new_in, new_out }, old(p)@),
        ensures
            outcome(trim_clip_spec(old(p)@, clip_id, new_in, new_out), old(p)@, final(p)@, r),
    {
        match clip_copy(p, clip_id) {
            None => Err(CoreError::ClipNotFound(clip_id)),
            Some(c) => {
                if new_out.0 <= new_in.0 {
                    return Err(
                        CoreError::InvalidTrim {
                            clip: clip_id,
                            in_point: new_in.0,
                            out_point: new_out.0,
                            source_duration: c.out_point.0 - c.in_point.0,
                        },
                    );
                }
                let mut c = c;
                c.in_point = new_in;
                c.out_point = new_out;
                put_clip(p, clip_id.0, c);
                Ok(())
            },
        }
    }

    fn trim_clip_start(p: &mut Project, clip_id: ClipId, new_in: Timecode, new_position: Timecode) -> (r: Result<(), CoreError>)
        requires
            executable_on(CommandView::TrimClipStart { clip_id, new_in, new_position }, old(p)@),
        ensures
            outcome(trim_clip_start_spec(old(p)@, clip_id, new_in, new_position), old(p)@, final(p)@, r),
    {
        match clip_copy(p, clip_id) {
            None => Err(CoreError::ClipNotFound(clip_id)),
            Some(c) => {
                if c.out_point.0 <= new_in.0 {
                    return Err(
                        CoreError::InvalidTrim {
                            clip: clip_id,
                            in_point: new_in.0,
                            out_point: c.out_point.0,
                            source_duration: c.out_point.0 - c.in_point.0,
                        },
                    );
                }
                let mut c = c;
                c.in_point = new_in;
                c.position = new_position;
                put_clip(p, clip_id.0, c);
                Ok(())
            },
        }
    }

    fn split_clip(p: &mut Project, clip_id: ClipId, at: Timecode, fresh: u128) -> (r: Result<(), CoreError>)
        requires
            executable_on(CommandView::SplitClip { clip_id, at }, old(p)@),
        ensures
            outcome(split_clip_spec(old(p)@, clip_id, at, fresh), old(p)@, final(p)@, r),
    {
        let ghost old_p = p@;
        let ti = match p.owner_position(clip_id) {
            None => {
                return Err(CoreError::ClipNotFound(clip_id));
            },
            Some(ti) => ti,
        };
        assert(old_p.clips.contains_key(clip_id.0));
        assert(clip_end_fits(old_p.clips[clip_id.0]));
        let c = match clip_copy(p, clip_id) {
            Some(c) => c,
            None => {
                return Err(CoreError::ClipNotFound(clip_id));
            },
        };
        let ghost cv = old_p.clips[clip_id.0];
        assert(c@ == cv);
        let start = c.position.0;
        let end = c.position.0 + (c.out_point.0 - c.in_point.0);
        if at.0 <= start || at.0 >= end {
            return Err(CoreError::InvalidSplit { clip: clip_id, at: at.0, start, end });
        }
        let offset = at.0 - start;
        let split = c.in_point.0 + offset;
        let in_point = c.in_point;
        let source = c.source_path.clone();
        let mut head = c;
        head.out_point = Timecode(split);
        let ghost head_v = head@;
        assert(head_v == ClipView { out_point: Timecode(split), ..cv });
        put_clip(p, clip_id.0, head);
        let mut tail = Clip::with_id(
            ClipId(fresh),
            source,
            Timecode(split),
            Timecode(in_point.0 + (end - start)),
        );
        tail.position = at;
        let ghost tail_v = tail@;
        put_clip(p, fresh, tail);
        let ghost tv = old_p.tracks[ti as int];
        proof {
            lemma_owner_index_facts(old_p.tracks, clip_id);
        }
        assert(p@.tracks == old_p.tracks);
        let idx = match position_of(&p.tracks[ti].clip_order, clip_id) {
            Some(idx) => idx,
            None => {
                return Err(CoreError::ClipNotFound(clip_id));
            },
        };
        proof {
            lemma_first_index(tv.clip_order, clip_id, idx as int);
        }
        let mut order = p.tracks[ti].clip_order.clone();
        assert(order@ =~= tv.clip_order);
        order.insert(idx + 1, ClipId(fresh));
        let t = track_with_order(&p.tracks[ti], order);
        assert(t@ == with_order(tv, tv.clip_order.insert(first_index(tv.clip_order, clip_id) + 1, ClipId(fresh))));
        set_track(p, ti, t);
        Ok(())
    }

    fn reorder_clip(p: &mut Project, track_id: TrackId, clip_id: ClipId, new_index: usize) -> (r: Result<(), CoreError>)
        ensures
            outcome(reorder_clip_spec(old(p)@, track_id, clip_id, new_index), old(p)@, final(p)@, r),
    {
        let ti = match p.track_position(track_id) {
            None => {
                return Err(CoreError::TrackNotFound(track_id));
            },
            Some(ti) => ti,
        };
        let ghost tv = p@.tracks[ti as int];
        let cur = match position_of(&p.tracks[ti].clip_order, clip_id) {
            None => {
                return Err(CoreError::ClipNotFound(clip_id));
            },
            Some(cur) => cur,
        };
        proof {
            lemma_first_index(tv.clip_order, clip_id, cur as int);
        }
        let mut order = p.tracks[ti].clip_order.clone();
        assert(order@ =~= tv.clip_order);
        let moved = order.remove(cur);
        let idx = if new_index < order.len() {
            new_index
        } else {
            order.len()
        };
        order.insert(idx, moved);
        let t = track_with_order(&p.tracks[ti], order);
        set_track(p, ti, t);
        Ok(())
    }

    fn move_clip(p: &mut Project, clip_id: ClipId, new_track_id: TrackId, new_position: Timecode) -> (r: Result<(), CoreError>)
        ensures
            outcome(move_clip_spec(old(p)@, clip_id, new_track_id, new_position), old(p)@, final(p)@, r),
    {
        if !p.clips.contains_key(&clip_id.0) {
            return Err(CoreError::ClipNotFound(clip_id));
        }
        let ti = match p.track_position(new_track_id) {
            None => {
                return Err(CoreError::TrackNotFound(new_track_id));
            },
            Some(ti) => ti,
        };
        let detached = detach_all_exec(&p.tracks, clip_id);
        proof {
            lemma_detach_all_facts(old(p)@.tracks, clip_id);
        }
        p.tracks = detached;
        let mut order = p.tracks[ti].clip_order.clone();
        assert(order@ =~= p@.tracks[ti as int].clip_order);
        order.push(clip_id);
        let t = track_with_order(&p.tracks[ti], order);
        set_track(p, ti, t);
        let mut c = match clip_copy(p, clip_id) {
            Some(c) => c,
            None => {
                assert(false);
                return Err(CoreError::ClipNotFound(clip_id));
            },
        };
        c.position = new_position;
        put_clip(p, clip_id.0, c);
        assert(p@ =~= move_clip_spec(old(p)@, clip_id, new_track_id, new_position)->Ok_0);
        Ok(())
    }

    fn apply_stabilization(p: &mut Project, clip_id: ClipId, profile: StabilizationProfile) -> (r: Result<(), CoreError>)
        ensures
            outcome(apply_spec(CommandView::ApplyStabilization { clip_id, profile }, old(p)@, 0), old(p)@, final(p)@, r),
    {
        match clip_copy(p, clip_id) {
            None => Err(CoreError::ClipNotFound(clip_id)),
            Some(c) => {
                let mut c = c;
                c.stabilization = Some(profile);
                put_clip(p, clip_id.0, c);
                Ok(())
            },
        }
    }

    fn apply_lut(p: &mut Project, clip_id: ClipId, lut_path: &String) -> (r: Result<(), CoreError>)
        ensures
            outcome(apply_spec(CommandView::ApplyLut { clip_id, lut_path: lut_path@ }, old(p)@, 0), old(p)@, final(p)@, r),
    {
        match clip_copy(p, clip_id) {
            None => Err(CoreError::ClipNotFound(clip_id)),
            Some(c) => {
                let mut c = c;
                c.lut_path = Some(lut_path.clone());
                put_clip(p, clip_id.0, c);
                Ok(())
            },
        }
    }

    fn set_speed_ramp(p: &mut Project, clip_id: ClipId, keyframes: &Vec<SpeedKeyframe>) -> (r: Result<(), CoreError>)
        ensures
            outcome(apply_spec(CommandView::SetSpeedRamp { clip_id, keyframes: keyframes@ }, old(p)@, 0), old(p)@, final(p)@, r),
    {
        if !check_ramp(keyframes) {
            return Err(CoreError::InvalidSpeedRamp);
        }
        match clip_copy(p, clip_id) {
            None => Err(CoreError::ClipNotFound(clip_id)),
            Some(c) => {
                let mut c = c;
                c.speed_keyframes = clone_keyframes(keyframes);
                put_clip(p, clip_id.0, c);
                Ok(())
            },
        }
    }

    fn add_text_overlay(p: &mut Project, clip_id: ClipId, overlay: &TextOverlay) -> (r: Result<(), CoreError>)
        ensures
            outcome(apply_spec(CommandView::AddTextOverlay { clip_id, overlay: overlay@ }, old(p)@, 0), old(p)@, final(p)@, r),
    {
        match clip_copy(p, clip_id) {
            None => Err(CoreError::ClipNotFound(clip_id)),
            Some(c) => {
                let mut c = c;
                let ghost before = c@;
                let o = overlay.clone();
                c.text_overlays.push(o);
                assert(c@.text_overlays =~= before.text_overlays.push(overlay@));
                put_clip(p, clip_id.0, c);
                Ok(())
            },
        }
    }

    fn add_osd_overlay(p: &mut Project, clip_id: ClipId, source: OsdSource) -> (r: Result<(), CoreError>)
        ensures
            outcome(apply_spec(CommandView::AddOsdOverlay { clip_id, source }, old(p)@, 0), old(p)@, final(p)@, r),
    {
        match clip_copy(p, clip_id) {
            None => Err(CoreError::ClipNotFound(clip_id)),
            Some(c) => {
                let mut c = c;
                c.osd_source = Some(source);
                put_clip(p, clip_id.0, c);
                Ok(())
            },
        }
    }

    /// Applies this command to `project`, using `fresh` as the value of the
    /// one new id the command may mint (a new track's, a new clip's, or a
    /// split's tail clip's).
    pub fn apply_with_id(&self, project: &mut Project, fresh: u128) -> (r: Result<(), CoreError>)
        requires
            executable_on(self@, old(project)@),
        ensures
            applied(self@, old(project)@, final(project)@, fresh, r),
    {
        match self {
            Command::AddTrack { kind, name } => Command::add_track(project, *kind, name, fresh),
            Command::RemoveTrack { track_id } => Command::remove_track(project, *track_id),
            Command::AddClip { track_id, clip } => Command::add_clip(project, *track_id, clip, fresh),
            Command::RemoveClip { clip_id } => Command::remove_clip(project, *clip_id),
            Command::TrimClip { clip_id, new_in, new_out } => Command::trim_clip(
                project,
                *clip_id,
                *new_in,
                *new_out,
            ),
            Command::TrimClipStart { clip_id, new_in, new_position } => Command::trim_clip_start(
                project,
                *clip_id,
                *new_in,
                *new_position,
            ),
            Command::SplitClip { clip_id, at } => Command::split_clip(project, *clip_id, *at, fresh),
            Command::ReorderClip { track_id, clip_id, new_index } => Command::reorder_clip(
                project,
                *track_id,
                *clip_id,
                *new_index,
            ),
            Command::MoveClip { clip_id, new_track_id, new_position } => Command::move_clip(
                project,
                *clip_id,
                *new_track_id,
                *new_position,
            ),
            Command::ApplyStabilization { clip_id, profile } => Command::apply_stabilization(
                project,
                *clip_id,
                *profile,
            ),
            Command::ApplyLut { clip_id, lut_path } => Command::apply_lut(project, *clip_id, lut_path),
            Command::SetSpeedRamp { clip_id, keyframes } => Command::set_speed_ramp(
                project,
                *clip_id,
                keyframes,
            ),
            Command::AddTextOverlay { clip_id, overlay } => Command::add_text_overlay(
                project,
                *clip_id,
                overlay,
            ),
            Command::AddOsdOverlay { clip_id, source } => Command::add_osd_overlay(
                project,
                *clip_id,
                *source,
            ),
        }
    }

    /// Applies this command to `project`; an id the command mints is a
    /// fresh random UUID.
    pub fn apply(&self, project: &mut Project) -> (r: Result<(), CoreError>)
        requires
            executable_on(self@, old(project)@),
        ensures
            exists|fresh: u128| applied(self@, old(project)@, final(project)@, fresh, r),
    {
        let fresh = fresh_uuid();
        self.apply_with_id(project, fresh)
    }
}

impl Command {
    /// Whether applying this command to `project` stays within the
    /// arithmetic that [`Command::apply`] may perform (see
    /// [`executable_on`]).
    pub fn is_executable_on(&self, project: &Project) -> (b: bool)
        ensures
            b == executable_on(self@, project@),
    {
        match self {
            Command::TrimClip { clip_id, new_in, new_out } => match project.clip(*clip_id) {
                Some(c) => !(new_out.0 <= new_in.0) || c.out_point.0.checked_sub(c.in_point.0).is_some(),
                None => true,
            },
            Command::TrimClipStart { clip_id, new_in, .. } => match project.clip(*clip_id) {
                Some(c) => !(c.out_point.0 <= new_in.0) || c.out_point.0.checked_sub(c.in_point.0).is_some(),
                None => true,
            },
            Command::SplitClip { clip_id, .. } => match project.owner_position(*clip_id) {
                Some(ti) => {
                    let fits = match project.clip(*clip_id) {
                        Some(c) => match c.out_point.0.checked_sub(c.in_point.0) {
                            Some(d) => c.position.0.checked_add(d).is_some(),
                            None => false,
                        },
                        None => false,
                    };
                    proof {
                        assert(project@.tracks[ti as int] == project.tracks@[ti as int]@);
                    }
                    let own = project.track_position(project.tracks[ti].id);
                    fits && own == Some(ti)
                },
                None => true,
            },
            _ => true,
        }
    }
}

} // verus!
