//! Properties every timeline edit keeps.

use vstd::prelude::*;

use crate::timeline::command::{
    add_clip_spec, apply_spec, detach_all, drop_track, first_index, insert_index, remove_all, remove_clips,
    remove_track_spec, split_clip_spec, starts_after, with_order, with_tracks, CommandView, NewClipView,
};
use crate::timeline::ids::{ClipId, TrackId};
use crate::timeline::model::{
    lemma_owner_index_facts, lemma_track_index_facts, owner_index, track_index, ClipView, ProjectView,
    Timecode, TrackView,
};

verus! {

/// Every clip id listed in a track's playback order names a clip of the
/// project.
pub open spec fn references_resolve(p: ProjectView) -> bool {
    forall|i: int, j: int|
        0 <= i < p.tracks.len() && 0 <= j < p.tracks[i].clip_order.len() ==> p.clips.contains_key(
            #[trigger] p.tracks[i].clip_order[j].0,
        )
}

/// What is left after removing `id` was there before, and is not `id`.
pub proof fn lemma_remove_all_subset(s: Seq<ClipId>, id: ClipId)
    ensures
        forall|k: int|
            0 <= k < remove_all(s, id).len() ==> s.contains(#[trigger] remove_all(s, id)[k])
                && remove_all(s, id)[k] != id,
    decreases s.len(),
{
    if s.len() > 0 {
        lemma_remove_all_subset(s.drop_last(), id);
        let r = remove_all(s.drop_last(), id);
        assert forall|k: int| 0 <= k < remove_all(s, id).len() implies s.contains(
            #[trigger] remove_all(s, id)[k],
        ) && remove_all(s, id)[k] != id by {
            if k < r.len() {
                let x = r[k];
                assert(s.drop_last().contains(x));
                let m = choose|m: int| 0 <= m < s.drop_last().len() && s.drop_last()[m] == x;
                assert(s[m] == x);
            } else {
                assert(s[s.len() - 1] == s.last());
            }
        }
    }
}

/// Detaching keeps the number of tracks and each track's identity, and
/// removes the clip from every order.
pub proof fn lemma_detach_all_facts(ts: Seq<TrackView>, id: ClipId)
    ensures
        detach_all(ts, id).len() == ts.len(),
        forall|j: int|
            0 <= j < ts.len() ==> #[trigger] detach_all(ts, id)[j] == with_order(
                ts[j],
                remove_all(ts[j].clip_order, id),
            ),
    decreases ts.len(),
{
    if ts.len() > 0 {
        lemma_detach_all_facts(ts.drop_last(), id);
    }
}

/// Every track left after dropping was one of the tracks before.
pub proof fn lemma_drop_track_subset(ts: Seq<TrackView>, id: crate::timeline::ids::TrackId)
    ensures
        forall|k: int|
            0 <= k < drop_track(ts, id).len() ==> exists|m: int|
                0 <= m < ts.len() && ts[m] == #[trigger] drop_track(ts, id)[k],
    decreases ts.len(),
{
    if ts.len() > 0 {
        lemma_drop_track_subset(ts.drop_last(), id);
        let r = drop_track(ts.drop_last(), id);
        assert forall|k: int| 0 <= k < drop_track(ts, id).len() implies exists|m: int|
            0 <= m < ts.len() && ts[m] == #[trigger] drop_track(ts, id)[k] by {
            if k < r.len() {
                let m = choose|m: int| 0 <= m < ts.drop_last().len() && ts.drop_last()[m] == r[k];
                assert(ts[m] == drop_track(ts, id)[k]);
            } else {
                assert(ts[ts.len() - 1] == drop_track(ts, id)[k]);
            }
        }
    }
}

/// Removing a clip from the clip map and from every track keeps every
/// reference resolvable.
proof fn lemma_remove_clip_keeps_references(p: ProjectView, clip_id: ClipId)
    requires
        references_resolve(p),
    ensures
        references_resolve(
            ProjectView { tracks: detach_all(p.tracks, clip_id), clips: p.clips.remove(clip_id.0), ..p },
        ),
{
    let np = ProjectView { tracks: detach_all(p.tracks, clip_id), clips: p.clips.remove(clip_id.0), ..p };
    lemma_detach_all_facts(p.tracks, clip_id);
    assert forall|i: int, j: int|
        0 <= i < np.tracks.len() && 0 <= j < np.tracks[i].clip_order.len() implies np.clips.contains_key(
        #[trigger] np.tracks[i].clip_order[j].0,
    ) by {
        lemma_remove_all_subset(p.tracks[i].clip_order, clip_id);
        let x = np.tracks[i].clip_order[j];
        assert(p.tracks[i].clip_order.contains(x));
        let m = choose|m: int| 0 <= m < p.tracks[i].clip_order.len() && p.tracks[i].clip_order[m] == x;
        assert(p.clips.contains_key(p.tracks[i].clip_order[m].0));
    }
}

/// Removing clips one after another keeps every reference resolvable.
proof fn lemma_remove_clips_keeps_references(p: ProjectView, ids: Seq<ClipId>)
    requires
        references_resolve(p),
    ensures
        references_resolve(remove_clips(p, ids)),
    decreases ids.len(),
{
    if ids.len() > 0 {
        lemma_remove_clips_keeps_references(p, ids.drop_last());
        lemma_remove_clip_keeps_references(remove_clips(p, ids.drop_last()), ids.last());
    }
}

/// The insertion point of a clip lies within the order.
proof fn lemma_insert_index_bounds(order: Seq<ClipId>, clips: Map<u128, ClipView>, pos: Timecode)
    ensures
        insert_index(order, clips, pos) <= order.len(),
    decreases order.len(),
{
    if order.len() > 0 {
        lemma_insert_index_bounds(order.drop_first(), clips, pos);
    }
}

/// A successful edit keeps every clip reference of every track resolvable:
/// an edit never leaves a track pointing at a clip the project lacks.
pub proof fn lemma_apply_keeps_references(cmd: CommandView, p: ProjectView, fresh: u128)
    requires
        references_resolve(p),
        apply_spec(cmd, p, fresh) is Ok,
    ensures
        references_resolve(apply_spec(cmd, p, fresh)->Ok_0),
{
    let np = apply_spec(cmd, p, fresh)->Ok_0;
    match cmd {
        CommandView::AddTrack { .. } => {
            assert forall|i: int, j: int|
                0 <= i < np.tracks.len() && 0 <= j < np.tracks[i].clip_order.len() implies np.clips.contains_key(
                #[trigger] np.tracks[i].clip_order[j].0,
            ) by {
                assert(i < p.tracks.len());
            }
        },
        CommandView::RemoveTrack { track_id } => {
            lemma_drop_track_subset(p.tracks, track_id);
            let base = with_tracks(p, drop_track(p.tracks, track_id));
            assert forall|i: int, j: int|
                0 <= i < base.tracks.len() && 0 <= j < base.tracks[i].clip_order.len() implies base.clips.contains_key(
                #[trigger] base.tracks[i].clip_order[j].0,
            ) by {
                let m = choose|m: int| 0 <= m < p.tracks.len() && p.tracks[m] == base.tracks[i];
                assert(p.tracks[m].clip_order[j] == base.tracks[i].clip_order[j]);
            }
            lemma_track_index_facts(p.tracks, track_id);
            let ti = track_index(p.tracks, track_id)->0;
            lemma_remove_clips_keeps_references(base, p.tracks[ti].clip_order);
        },
        CommandView::AddClip { track_id, clip } => {
            lemma_track_index_facts(p.tracks, track_id);
            let ti = track_index(p.tracks, track_id)->0;
            let t = p.tracks[ti];
            let k = insert_index(t.clip_order, p.clips, clip.position) as int;
            lemma_insert_index_bounds(t.clip_order, p.clips, clip.position);
            let o = t.clip_order.insert(k, ClipId(fresh));
            assert forall|i: int, j: int|
                0 <= i < np.tracks.len() && 0 <= j < np.tracks[i].clip_order.len() implies np.clips.contains_key(
                #[trigger] np.tracks[i].clip_order[j].0,
            ) by {
                if i != ti {
                    assert(np.tracks[i] == p.tracks[i]);
                } else {
                    assert(np.tracks[i].clip_order == o);
                    if j < k {
                        assert(o[j] == t.clip_order[j]);
                    } else if j > k {
                        assert(o[j] == t.clip_order[j - 1]);
                    }
                }
            }
        },
        CommandView::RemoveClip { clip_id } => {
            lemma_remove_clip_keeps_references(p, clip_id);
        },
        CommandView::SplitClip { clip_id, at } => {
            lemma_owner_index_facts(p.tracks, clip_id);
            let ti = owner_index(p.tracks, clip_id)->0;
            let t = p.tracks[ti];
            let pos = first_index(t.clip_order, clip_id) + 1;
            assert forall|i: int, j: int|
                0 <= i < np.tracks.len() && 0 <= j < np.tracks[i].clip_order.len() implies np.clips.contains_key(
                #[trigger] np.tracks[i].clip_order[j].0,
            ) by {
                if i != ti {
                    assert(np.tracks[i] == p.tracks[i]);
                } else {
                    lemma_first_index_bounds(t.clip_order, clip_id);
                    let o = t.clip_order.insert(pos, ClipId(fresh));
                    assert(np.tracks[i].clip_order == o);
                    if j < pos {
                        assert(o[j] == t.clip_order[j]);
                    } else if j > pos {
                        assert(o[j] == t.clip_order[j - 1]);
                    }
                }
            }
        },
        CommandView::ReorderClip { track_id, clip_id, new_index } => {
            lemma_track_index_facts(p.tracks, track_id);
            let ti = track_index(p.tracks, track_id)->0;
            let t = p.tracks[ti];
            lemma_first_index_bounds(t.clip_order, clip_id);
            let cur = first_index(t.clip_order, clip_id);
            let rest = t.clip_order.remove(cur);
            assert forall|i: int, j: int|
                0 <= i < np.tracks.len() && 0 <= j < np.tracks[i].clip_order.len() implies np.clips.contains_key(
                #[trigger] np.tracks[i].clip_order[j].0,
            ) by {
                if i != ti {
                    assert(np.tracks[i] == p.tracks[i]);
                } else {
                    let idx = if new_index < rest.len() { new_index as int } else { rest.len() as int };
                    let o = rest.insert(idx, clip_id);
                    assert(np.tracks[i].clip_order == o);
                    assert(p.clips.contains_key(t.clip_order[cur].0));
                    if j < idx {
                        assert(o[j] == rest[j]);
                        if j < cur {
                            assert(rest[j] == t.clip_order[j]);
                        } else {
                            assert(rest[j] == t.clip_order[j + 1]);
                        }
                    } else if j > idx {
                        assert(o[j] == rest[j - 1]);
                        if j - 1 < cur {
                            assert(rest[j - 1] == t.clip_order[j - 1]);
                        } else {
                            assert(rest[j - 1] == t.clip_order[j]);
                        }
                    }
                }
            }
        },
        CommandView::MoveClip { clip_id, new_track_id, .. } => {
            lemma_detach_all_facts(p.tracks, clip_id);
            lemma_track_index_facts(p.tracks, new_track_id);
            let ti = track_index(p.tracks, new_track_id)->0;
            let ts = detach_all(p.tracks, clip_id);
            assert forall|i: int, j: int|
                0 <= i < np.tracks.len() && 0 <= j < np.tracks[i].clip_order.len() implies np.clips.contains_key(
                #[trigger] np.tracks[i].clip_order[j].0,
            ) by {
                if i == ti && j == ts[ti].clip_order.len() {
                } else {
                    assert(np.tracks[i].clip_order[j] == ts[i].clip_order[j]);
                    lemma_remove_all_subset(p.tracks[i].clip_order, clip_id);
                    let x = ts[i].clip_order[j];
                    assert(p.tracks[i].clip_order.contains(x));
                    let m = choose|m: int| 0 <= m < p.tracks[i].clip_order.len() && p.tracks[i].clip_order[m] == x;
                    assert(p.clips.contains_key(p.tracks[i].clip_order[m].0));
                }
            }
        },
        _ => {
            assert(np.tracks == p.tracks);
            assert forall|i: int, j: int|
                0 <= i < np.tracks.len() && 0 <= j < np.tracks[i].clip_order.len() implies np.clips.contains_key(
                #[trigger] np.tracks[i].clip_order[j].0,
            ) by {
                assert(p.clips.contains_key(p.tracks[i].clip_order[j].0));
            }
        },
    }
}

/// The first index of a present element is in range and holds it.
pub proof fn lemma_first_index_bounds(s: Seq<ClipId>, id: ClipId)
    requires
        s.contains(id),
    ensures
        0 <= first_index(s, id) < s.len(),
        s[first_index(s, id)] == id,
{
    reveal(first_index);
    let i = choose|i: int| 0 <= i < s.len() && s[i] == id;
    lemma_first_occurrence(s, id, i);
}

/// Below any occurrence there is a first one.
proof fn lemma_first_occurrence(s: Seq<ClipId>, id: ClipId, i: int)
    requires
        0 <= i < s.len(),
        s[i] == id,
    ensures
        exists|m: int| 0 <= m < s.len() && s[m] == id && forall|j: int| 0 <= j < m ==> s[j] != id,
    decreases i,
{
    if exists|j: int| 0 <= j < i && s[j] == id {
        let j = choose|j: int| 0 <= j < i && s[j] == id;
        lemma_first_occurrence(s, id, j);
    } else {
        assert(forall|j: int| 0 <= j < i ==> s[j] != id);
    }
}

/// Whether every clip of a playback order is in the clip map and the
/// order is sorted by timeline position.
pub open spec fn sorted_by_position(order: Seq<ClipId>, clips: Map<u128, ClipView>) -> bool {
    &&& forall|j: int| 0 <= j < order.len() ==> clips.contains_key(#[trigger] order[j].0)
    &&& forall|a: int, b: int|
        0 <= a < b < order.len() ==> clips[#[trigger] order[a].0].position.0 <= clips[#[trigger] order[b].0].position.0
}

/// Every clip before the insertion point starts no later than `pos`, and
/// the clip at it starts later.
proof fn lemma_insert_index_facts(order: Seq<ClipId>, clips: Map<u128, ClipView>, pos: Timecode)
    ensures
        insert_index(order, clips, pos) <= order.len(),
        forall|j: int| 0 <= j < insert_index(order, clips, pos) ==> !starts_after(clips, #[trigger] order[j], pos),
        insert_index(order, clips, pos) < order.len() ==> starts_after(
            clips,
            order[insert_index(order, clips, pos) as int],
            pos,
        ),
    decreases order.len(),
{
    if order.len() > 0 && !starts_after(clips, order[0], pos) {
        let rest = order.drop_first();
        lemma_insert_index_facts(rest, clips, pos);
        assert forall|j: int| 0 <= j < insert_index(order, clips, pos) implies !starts_after(
            clips,
            #[trigger] order[j],
            pos,
        ) by {
            if j > 0 {
                assert(order[j] == rest[j - 1]);
            }
        }
        if insert_index(order, clips, pos) < order.len() {
            assert(order[insert_index(order, clips, pos) as int] == rest[insert_index(rest, clips, pos) as int]);
        }
    }
}

/// Adding a clip under a fresh id keeps a playback order that is sorted by
/// timeline position sorted.
pub proof fn lemma_add_clip_keeps_order_sorted(p: ProjectView, track_id: TrackId, clip: NewClipView, fresh: u128)
    requires
        add_clip_spec(p, track_id, clip, fresh) is Ok,
        !p.clips.contains_key(fresh),
        track_index(p.tracks, track_id) matches Some(i) && sorted_by_position(p.tracks[i].clip_order, p.clips),
    ensures
        ({
            let np = add_clip_spec(p, track_id, clip, fresh)->Ok_0;
            let i = track_index(p.tracks, track_id)->0;
            sorted_by_position(np.tracks[i].clip_order, np.clips)
        }),
{
    let np = add_clip_spec(p, track_id, clip, fresh)->Ok_0;
    lemma_track_index_facts(p.tracks, track_id);
    let i = track_index(p.tracks, track_id)->0;
    let order = p.tracks[i].clip_order;
    let pos = clip.position;
    let k = insert_index(order, p.clips, pos) as int;
    lemma_insert_index_facts(order, p.clips, pos);
    let o = order.insert(k, ClipId(fresh));
    assert(np.tracks[i].clip_order == o);
    assert(np.clips[fresh].position == pos);
    assert forall|j: int| 0 <= j < o.len() implies np.clips.contains_key(#[trigger] o[j].0) by {
        if j < k {
            assert(o[j] == order[j]);
        } else if j > k {
            assert(o[j] == order[j - 1]);
        }
    }
    assert forall|a: int, b: int| 0 <= a < b < o.len() implies np.clips[#[trigger] o[a].0].position.0
        <= np.clips[#[trigger] o[b].0].position.0 by {
        let va = if a < k { a } else { a - 1 };
        let vb = if b < k { b } else { b - 1 };
        if a != k {
            assert(o[a] == order[va]);
            assert(order[va].0 != fresh);
        }
        if b != k {
            assert(o[b] == order[vb]);
            assert(order[vb].0 != fresh);
        }
        if a == k {
            assert(starts_after(p.clips, order[k], pos));
            if vb > k {
                assert(p.clips[order[k].0].position.0 <= p.clips[order[vb].0].position.0);
            }
        } else if b == k {
            assert(!starts_after(p.clips, order[va], pos));
        } else {
            assert(va < vb);
            assert(p.clips[order[va].0].position.0 <= p.clips[order[vb].0].position.0);
        }
    }
}

/// No track left after dropping has the dropped id.
proof fn lemma_drop_track_gone(ts: Seq<TrackView>, id: TrackId)
    ensures
        forall|k: int| 0 <= k < drop_track(ts, id).len() ==> (#[trigger] drop_track(ts, id)[k]).id != id,
    decreases ts.len(),
{
    if ts.len() > 0 {
        lemma_drop_track_gone(ts.drop_last(), id);
    }
}

/// Removing clips keeps the tracks' number and identities, and removes
/// exactly those clips from the clip map.
proof fn lemma_remove_clips_facts(p: ProjectView, ids: Seq<ClipId>)
    ensures
        remove_clips(p, ids).tracks.len() == p.tracks.len(),
        forall|j: int| 0 <= j < p.tracks.len() ==> (#[trigger] remove_clips(p, ids).tracks[j]).id == p.tracks[j].id,
        forall|k: u128|
            #[trigger] remove_clips(p, ids).clips.contains_key(k) <==> p.clips.contains_key(k) && !ids.contains(
                ClipId(k),
            ),
        forall|k: u128| #[trigger] remove_clips(p, ids).clips.contains_key(k) ==> remove_clips(p, ids).clips[k] == p.clips[k],
    decreases ids.len(),
{
    if ids.len() > 0 {
        let q = remove_clips(p, ids.drop_last());
        lemma_remove_clips_facts(p, ids.drop_last());
        lemma_detach_all_facts(q.tracks, ids.last());
        assert forall|j: int| 0 <= j < p.tracks.len() implies (#[trigger] remove_clips(p, ids).tracks[j]).id
            == p.tracks[j].id by {
            assert(detach_all(q.tracks, ids.last())[j] == with_order(q.tracks[j], remove_all(q.tracks[j].clip_order, ids.last())));
        }
        assert forall|k: u128| #[trigger] remove_clips(p, ids).clips.contains_key(k) <==> p.clips.contains_key(k)
            && !ids.contains(ClipId(k)) by {
            if ids.contains(ClipId(k)) && ClipId(k) != ids.last() {
                let m = choose|m: int| 0 <= m < ids.len() && ids[m] == ClipId(k);
                assert(ids.drop_last()[m] == ClipId(k));
            }
            if ids.drop_last().contains(ClipId(k)) {
                let m = choose|m: int| 0 <= m < ids.len() - 1 && ids.drop_last()[m] == ClipId(k);
                assert(ids[m] == ClipId(k));
            }
            if ClipId(k) == ids.last() {
                assert(ids[ids.len() - 1] == ClipId(k));
            }
        }
    }
}

/// Removing a track leaves no track with its id, removes every clip of its
/// playback order, and keeps every other clip as it was.
pub proof fn lemma_remove_track_drops_its_clips(p: ProjectView, track_id: TrackId)
    requires
        remove_track_spec(p, track_id) is Ok,
    ensures
        ({
            let np = remove_track_spec(p, track_id)->Ok_0;
            let order = p.tracks[track_index(p.tracks, track_id)->0].clip_order;
            &&& forall|k: int| 0 <= k < np.tracks.len() ==> (#[trigger] np.tracks[k]).id != track_id
            &&& forall|j: int| 0 <= j < order.len() ==> !np.clips.contains_key(#[trigger] order[j].0)
            &&& forall|k: u128|
                p.clips.contains_key(k) && !order.contains(ClipId(k)) ==> #[trigger] np.clips.contains_key(k)
                    && np.clips[k] == p.clips[k]
        }),
{
    lemma_track_index_facts(p.tracks, track_id);
    let i = track_index(p.tracks, track_id)->0;
    let order = p.tracks[i].clip_order;
    let base = with_tracks(p, drop_track(p.tracks, track_id));
    lemma_drop_track_gone(p.tracks, track_id);
    lemma_remove_clips_facts(base, order);
    let np = remove_clips(base, order);
    assert forall|k: int| 0 <= k < np.tracks.len() implies (#[trigger] np.tracks[k]).id != track_id by {
        assert(np.tracks[k].id == base.tracks[k].id);
    }
    assert forall|j: int| 0 <= j < order.len() implies !np.clips.contains_key(#[trigger] order[j].0) by {
        assert(order.contains(ClipId(order[j].0)));
    }
}

/// Splitting a clip at `at` keeps its start and source, ends it at `at`,
/// and adds a tail clip that starts at `at` where the head ends, plays
/// the rest of the same source from where the head stops, and ends where
/// the clip ended.
pub proof fn lemma_split_tail_follows_head(p: ProjectView, clip_id: ClipId, at: Timecode, fresh: u128)
    requires
        split_clip_spec(p, clip_id, at, fresh) is Ok,
        fresh != clip_id.0,
    ensures
        ({
            let np = split_clip_spec(p, clip_id, at, fresh)->Ok_0;
            let c = p.clips[clip_id.0];
            let head = np.clips[clip_id.0];
            let tail = np.clips[fresh];
            &&& np.clips.contains_key(clip_id.0) && np.clips.contains_key(fresh)
            &&& head.position == c.position && head.in_point == c.in_point
            &&& head.position.0 + (head.out_point.0 - head.in_point.0) == at.0
            &&& tail.position == at
            &&& tail.in_point == head.out_point
            &&& tail.source_path == c.source_path
            &&& tail.position.0 + (tail.out_point.0 - tail.in_point.0) == c.position.0 + (c.out_point.0
                - c.in_point.0)
        }),
{
}

} // verus!
