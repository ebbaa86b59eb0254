//! Importing source media into the timeline: after the candidate files
//! were found and probed, keep the readable ones that the project does not
//! reference yet and append them, end to end, to the first video track
//! (creating one when there is none).


use vstd::prelude::*;
use vstd::std_specs::hash::spec_hash_map_iter;
use vstd::std_specs::iter::IteratorSpec;
use vstd::string::StringExecFns;

use crate::gpu::float_text::{lower_equals, lowered};
use crate::text::chars_of;
use crate::timeline::bus::{execute_spec, BusView, CommandBus};
use crate::timeline::command::{insert_index, with_order, Command, CommandView, NewClip, NewClipView};
use crate::timeline::error::CoreError;
use crate::timeline::ids::{ClipId, TrackId};
use crate::timeline::model::{
    clip_end, clip_end_fits, lemma_track_index_facts, opt_text, track_index, Project, ProjectView,
    Timecode, TrackKind, TrackView,
};

verus! {

broadcast use vstd::std_specs::hash::group_hash_axioms;

/// A candidate file and what probing it gave: its duration in
/// microseconds, or the message of the failure.
#[derive(Debug)]
pub struct Candidate {
    pub path: String,
    pub probe: Result<i64, String>,
}

/// The mathematical value of a [`Candidate`].
pub struct CandidateView {
    pub path: Seq<char>,
    pub probe: Result<i64, Seq<char>>,
}

impl View for Candidate {
    type V = CandidateView;

    open spec fn view(&self) -> CandidateView {
        CandidateView {
            path: self.path@,
            probe: match self.probe {
                Ok(d) => Ok(d),
                Err(m) => Err(m@),
            },
        }
    }
}

/// The views of a list of candidates.
pub open spec fn candidate_views(s: Seq<Candidate>) -> Seq<CandidateView> {
    s.map_values(|c: Candidate| c@)
}

/// The candidates with a positive duration, as (path, duration), in order.
pub open spec fn readable_items(cs: Seq<CandidateView>) -> Seq<(Seq<char>, i64)>
    decreases cs.len(),
{
    if cs.len() == 0 {
        Seq::empty()
    } else {
        let before = readable_items(cs.drop_last());
        match cs.last().probe {
            Ok(d) if d > 0 => before.push((cs.last().path, d)),
            _ => before,
        }
    }
}

/// The paths of the candidates that could not be read or have no
/// duration, in order.
pub open spec fn unreadable_paths(cs: Seq<CandidateView>) -> Seq<Seq<char>>
    decreases cs.len(),
{
    if cs.len() == 0 {
        Seq::empty()
    } else {
        let before = unreadable_paths(cs.drop_last());
        match cs.last().probe {
            Ok(d) if d > 0 => before,
            _ => before.push(cs.last().path),
        }
    }
}

/// The message of the first failed probe.
pub open spec fn first_failure(cs: Seq<CandidateView>) -> Option<Seq<char>>
    decreases cs.len(),
{
    if cs.len() == 0 {
        None
    } else {
        match first_failure(cs.drop_last()) {
            Some(m) => Some(m),
            None => match cs.last().probe {
                Err(m) => Some(m),
                Ok(_) => None,
            },
        }
    }
}

/// The source paths that the project's clips reference.
pub open spec fn clip_sources(p: ProjectView) -> Set<Seq<char>> {
    Set::new(|s: Seq<char>| exists|k: u128| p.clips.contains_key(k) && #[trigger] p.clips[k].source_path == s)
}

/// The items whose path the project does not reference yet.
pub open spec fn new_items(items: Seq<(Seq<char>, i64)>, sources: Set<Seq<char>>) -> Seq<(Seq<char>, i64)>
    decreases items.len(),
{
    if items.len() == 0 {
        Seq::empty()
    } else {
        let before = new_items(items.drop_last(), sources);
        if sources.contains(items.last().0) {
            before
        } else {
            before.push(items.last())
        }
    }
}

/// The paths of the items that the project already references.
pub open spec fn known_paths(items: Seq<(Seq<char>, i64)>, sources: Set<Seq<char>>) -> Seq<Seq<char>>
    decreases items.len(),
{
    if items.len() == 0 {
        Seq::empty()
    } else {
        let before = known_paths(items.drop_last(), sources);
        if sources.contains(items.last().0) {
            before.push(items.last().0)
        } else {
            before
        }
    }
}

/// The total duration of some items.
pub open spec fn total(items: Seq<(Seq<char>, i64)>) -> int
    decreases items.len(),
{
    if items.len() == 0 {
        0
    } else {
        total(items.drop_last()) + items.last().1
    }
}

/// Whether `d` is the project's duration as [`Project::duration`] gives
/// it: the latest clip end, or zero without clips.
pub open spec fn is_duration(p: ProjectView, d: int) -> bool {
    if p.clips.is_empty() {
        d == 0
    } else {
        &&& exists|k: u128| #[trigger] p.clips.contains_key(k) && d == clip_end(p.clips[k])
        &&& forall|k: u128| #[trigger] p.clips.contains_key(k) ==> clip_end(p.clips[k]) <= d
    }
}

/// The first video track's id.
pub open spec fn first_video_track(tracks: Seq<TrackView>) -> Option<TrackId>
    decreases tracks.len(),
{
    if tracks.len() == 0 {
        None
    } else {
        match first_video_track(tracks.drop_last()) {
            Some(t) => Some(t),
            None => if tracks.last().kind == TrackKind::Video {
                Some(tracks.last().id)
            } else {
                None
            },
        }
    }
}

/// The commands that add the items end to end to `track`, the first one
/// at `start`.
pub open spec fn add_clip_commands(track: TrackId, items: Seq<(Seq<char>, i64)>, start: int) -> Seq<CommandView>
    decreases items.len(),
{
    if items.len() == 0 {
        Seq::empty()
    } else {
        add_clip_commands(track, items.drop_last(), start).push(
            CommandView::AddClip {
                track_id: track,
                clip: NewClipView {
                    source_path: items.last().0,
                    in_point: Timecode(0),
                    out_point: Timecode(items.last().1),
                    position: Timecode((start + total(items.drop_last())) as i64),
                },
            },
        )
    }
}

/// The commands of an import: a new video track named `V1` when the
/// project has none (its id being the first fresh id), then the clips.
pub open spec fn import_commands(
    p: ProjectView,
    items: Seq<(Seq<char>, i64)>,
    start: int,
    ids: Seq<u128>,
) -> Seq<CommandView> {
    match first_video_track(p.tracks) {
        Some(t) => add_clip_commands(t, items, start),
        None => seq![CommandView::AddTrack { kind: TrackKind::Video, name: "V1"@ }] + add_clip_commands(
            TrackId(ids[0]),
            items,
            start,
        ),
    }
}

/// The bus after executing the commands in order, the `i`-th minting the
/// id `ids[i]`; `None` when one of them fails.
pub open spec fn run_commands(b: BusView, cmds: Seq<CommandView>, ids: Seq<u128>) -> Option<BusView>
    decreases cmds.len(),
{
    if cmds.len() == 0 {
        Some(b)
    } else {
        match run_commands(b, cmds.drop_last(), ids.drop_last()) {
            Some(b2) => match execute_spec(b2, cmds.last(), ids.last()) {
                Ok(b3) => Some(b3),
                Err(_) => None,
            },
            None => None,
        }
    }
}

/// Why an import failed.
#[derive(Debug, PartialEq, Eq)]
pub enum ImportError {
    /// No candidate file was found.
    NoCandidates,
    /// No candidate could be imported; the text is the first probe
    /// failure, or a note that no usable video stream was found.
    NothingReadable(String),
    /// The command bus refused an edit.
    Core(CoreError),
}

/// What an import did.
#[derive(Debug)]
pub struct ImportOutcome {
    /// The files now referenced by new clips, in order.
    pub imported_paths: Vec<String>,
    /// The files left out: unreadable ones first, then those the project
    /// already referenced.
    pub skipped_paths: Vec<String>,
}

/// The texts of a list of strings.
pub open spec fn string_views(v: Seq<String>) -> Seq<Seq<char>> {
    v.map_values(|s: String| s@)
}

/// Whether some clip of the project references `path`.
fn references_source(project: &Project, path: &String) -> (b: bool)
    ensures
        b == clip_sources(project@).contains(path@),
{
    let ghost s = spec_hash_map_iter(&project.clips).remaining();
    for item in it: project.clips.iter()
        invariant
            it.seq() == s,
            s == spec_hash_map_iter(&project.clips).remaining(),
            forall|i: int| 0 <= i < it.index() ==> (*s[i].1).source_path@ != path@,
    {
        let ghost i = it.index();
        assert(item == s[i]);
        assert(project.clips@.contains_key(*item.0) && project.clips@[*item.0] == *item.1);
        if item.1.source_path == *path {
            assert(project@.clips.contains_key(*item.0));
            assert(project@.clips[*item.0].source_path == path@);
            return true;
        }
    }
    proof {
        assert forall|k: u128| project@.clips.contains_key(k) implies #[trigger] project@.clips[k].source_path != path@ by {
            assert(project.clips@.contains_key(k));
            assert(s.contains((&k, &project.clips@[k])));
            let j = choose|j: int| 0 <= j < s.len() && s[j] == (&k, &project.clips@[k]);
            assert((*s[j].1).source_path@ != path@);
        }
    }
    false
}

/// The views of a list of (path, duration) items.
pub open spec fn item_views(v: Seq<(String, i64)>) -> Seq<(Seq<char>, i64)> {
    v.map_values(|x: (String, i64)| (x.0@, x.1))
}

/// Splits the candidates into the readable ones, the paths of the others,
/// and the first probe failure.
fn classify(cs: &Vec<Candidate>) -> (r: (Vec<(String, i64)>, Vec<String>, Option<String>))
    ensures
        item_views(r.0@) == readable_items(candidate_views(cs@)),
        string_views(r.1@) == unreadable_paths(candidate_views(cs@)),
        opt_text(r.2) == first_failure(candidate_views(cs@)),
{
    let ghost v = candidate_views(cs@);
    let mut readable: Vec<(String, i64)> = Vec::new();
    let mut unreadable: Vec<String> = Vec::new();
    let mut failure: Option<String> = None;
    let mut i: usize = 0;
    while i < cs.len()
        invariant
            i <= cs.len(),
            v == candidate_views(cs@),
            item_views(readable@) == readable_items(v.take(i as int)),
            string_views(unreadable@) == unreadable_paths(v.take(i as int)),
            opt_text(failure) == first_failure(v.take(i as int)),
        decreases cs.len() - i,
    {
        let c = &cs[i];
        proof {
            assert(v.take(i + 1).drop_last() =~= v.take(i as int));
            assert(v.take(i + 1).last() == c@);
        }
        let ghost r0 = item_views(readable@);
        let ghost u0 = string_views(unreadable@);
        match &c.probe {
            Ok(d) => {
                if *d > 0 {
                    readable.push((c.path.clone(), *d));
                    assert(item_views(readable@) =~= r0.push((c.path@, *d)));
                } else {
                    unreadable.push(c.path.clone());
                    assert(string_views(unreadable@) =~= u0.push(c.path@));
                }
            },
            Err(m) => {
                unreadable.push(c.path.clone());
                assert(string_views(unreadable@) =~= u0.push(c.path@));
                if failure.is_none() {
                    failure = Some(m.clone());
                }
            },
        }
        i = i + 1;
    }
    assert(v.take(cs.len() as int) =~= v);
    (readable, unreadable, failure)
}

/// Splits items into those whose path the project does not reference yet
/// and the paths of those it does.
fn split_known(project: &Project, items: &Vec<(String, i64)>) -> (r: (Vec<(String, i64)>, Vec<String>))
    ensures
        item_views(r.0@) == new_items(item_views(items@), clip_sources(project@)),
        string_views(r.1@) == known_paths(item_views(items@), clip_sources(project@)),
{
    let ghost v = item_views(items@);
    let ghost src = clip_sources(project@);
    let mut fresh: Vec<(String, i64)> = Vec::new();
    let mut known: Vec<String> = Vec::new();
    let mut i: usize = 0;
    while i < items.len()
        invariant
            i <= items.len(),
            v == item_views(items@),
            src == clip_sources(project@),
            item_views(fresh@) == new_items(v.take(i as int), src),
            string_views(known@) == known_paths(v.take(i as int), src),
        decreases items.len() - i,
    {
        let (path, d) = (&items[i].0, items[i].1);
        proof {
            assert(v.take(i + 1).drop_last() =~= v.take(i as int));
            assert(v.take(i + 1).last() == (path@, d));
        }
        let ghost f0 = item_views(fresh@);
        let ghost k0 = string_views(known@);
        if references_source(project, path) {
            known.push(path.clone());
            assert(string_views(known@) =~= k0.push(path@));
        } else {
            fresh.push((path.clone(), d));
            assert(item_views(fresh@) =~= f0.push((path@, d)));
        }
        i = i + 1;
    }
    assert(v.take(items.len() as int) =~= v);
    (fresh, known)
}

/// A track with this id exists.
pub open spec fn has_track(p: ProjectView, id: TrackId) -> bool {
    exists|i: int| 0 <= i < p.tracks.len() && #[trigger] p.tracks[i].id == id
}

/// A present track is found.
proof fn lemma_track_found(tracks: Seq<TrackView>, id: TrackId, i: int)
    requires
        0 <= i < tracks.len(),
        tracks[i].id == id,
    ensures
        track_index(tracks, id) is Some,
{
    reveal(track_index);
}

/// Whether all items have a positive duration.
pub open spec fn all_positive(items: Seq<(Seq<char>, i64)>) -> bool {
    forall|k: int| 0 <= k < items.len() ==> #[trigger] items[k].1 > 0
}

/// With positive durations, a prefix's total is at most the whole total.
proof fn lemma_total_prefix(items: Seq<(Seq<char>, i64)>, k: int)
    requires
        0 <= k <= items.len(),
        all_positive(items),
    ensures
        0 <= total(items.take(k)) <= total(items),
    decreases items.len() - k,
{
    if k < items.len() {
        lemma_total_prefix(items, k + 1);
        assert(items.take(k + 1).drop_last() =~= items.take(k));
        assert(items.take(k + 1).last() == items[k]);
        assert(all_positive(items.take(k)));
        lemma_total_nonnegative(items.take(k));
    } else {
        assert(items.take(k) =~= items);
        lemma_total_nonnegative(items);
    }
}

/// With positive durations, the total is not negative.
proof fn lemma_total_nonnegative(items: Seq<(Seq<char>, i64)>)
    requires
        all_positive(items),
    ensures
        total(items) >= 0,
    decreases items.len(),
{
    if items.len() > 0 {
        assert(all_positive(items.drop_last()));
        lemma_total_nonnegative(items.drop_last());
        assert(items.last().1 > 0);
    }
}

/// Appends the items to `track`, end to end from `start`, through the
/// bus.
fn add_items(
    bus: &mut CommandBus,
    track: TrackId,
    items: &Vec<(String, i64)>,
    start: i64,
    Ghost(b0): Ghost<BusView>,
    Ghost(pre): Ghost<Seq<CommandView>>,
    Ghost(pre_ids): Ghost<Seq<u128>>,
) -> (r: Ghost<Seq<u128>>)
    requires
        run_commands(b0, pre, pre_ids) == Some(old(bus)@),
        pre.len() == pre_ids.len(),
        has_track(old(bus)@.project, track),
        all_positive(item_views(items@)),
        start + total(item_views(items@)) <= i64::MAX,
    ensures
        r@.len() == items.len(),
        run_commands(b0, pre + add_clip_commands(track, item_views(items@), start as int), pre_ids + r@)
            == Some(final(bus)@),
{
    let ghost v = item_views(items@);
    let ghost mut ids: Seq<u128> = Seq::empty();
    let mut next: i64 = start;
    let mut k: usize = 0;
    proof {
        assert(pre + add_clip_commands(track, v.take(0), start as int) =~= pre);
        assert(pre_ids + ids =~= pre_ids);
        lemma_total_nonnegative(v);
    }
    while k < items.len()
        invariant
            k <= items.len(),
            v == item_views(items@),
            all_positive(v),
            start + total(v) <= i64::MAX,
            ids.len() == k,
            pre.len() == pre_ids.len(),
            next == start + total(v.take(k as int)),
            has_track(bus@.project, track),
            run_commands(b0, pre + add_clip_commands(track, v.take(k as int), start as int), pre_ids + ids)
                == Some(bus@),
        decreases items.len() - k,
    {
        let d = items[k].1;
        proof {
            lemma_total_prefix(v, k + 1);
            assert(v.take(k + 1).drop_last() =~= v.take(k as int));
            assert(v.take(k + 1).last() == v[k as int]);
            assert(v[k as int].1 == d);
            assert(d > 0);
        }
        let command = Command::AddClip {
            track_id: track,
            clip: NewClip {
                source_path: items[k].0.clone(),
                in_point: Timecode(0),
                out_point: Timecode(d),
                position: Timecode(next),
            },
        };
        let ghost before = bus@;
        let ghost cv = command@;
        proof {
            let i = choose|i: int| 0 <= i < before.project.tracks.len() && #[trigger] before.project.tracks[i].id
                == track;
            lemma_track_found(before.project.tracks, track, i);
        }
        match bus.execute(command) {
            Ok(()) => {},
            Err(e) => {
                proof {
                    let f = choose|f: u128|
                        match #[trigger] execute_spec(before, cv, f) {
                            Ok(nb) => false,
                            Err(e) => true,
                        };
                }
                return Ghost(ids);
            },
        }
        proof {
            let f = choose|f: u128|
                match #[trigger] execute_spec(before, cv, f) {
                    Ok(nb) => bus@ == nb,
                    Err(e) => bus@ == before,
                };
            let p = before.project;
            let i = choose|i: int| 0 <= i < p.tracks.len() && #[trigger] p.tracks[i].id == track;
            lemma_track_found(p.tracks, track, i);
            lemma_track_index_facts(p.tracks, track);
            let ti = track_index(p.tracks, track)->0;
            assert(execute_spec(before, cv, f) is Ok);
            let o = p.tracks[ti].clip_order;
            assert(bus@.project.tracks == p.tracks.update(
                ti,
                with_order(p.tracks[ti], o.insert(insert_index(o, p.clips, Timecode(next)) as int, ClipId(f))),
            ));
            assert(bus@.project.tracks[i].id == track);
            let cmds_k = pre + add_clip_commands(track, v.take(k as int), start as int);
            let cmds_k1 = pre + add_clip_commands(track, v.take(k + 1), start as int);
            assert(cmds_k1 =~= cmds_k.push(cv));
            assert((pre_ids + ids.push(f)) =~= (pre_ids + ids).push(f));
            assert(cmds_k1.drop_last() =~= cmds_k);
            assert((pre_ids + ids.push(f)).drop_last() =~= pre_ids + ids);
            ids = ids.push(f);
        }
        next = next + d;
        k = k + 1;
    }
    assert(v.take(items.len() as int) =~= v);
    Ghost(ids)
}

/// A video track found in a prefix is the first video track.
proof fn lemma_first_video_stable(tracks: Seq<TrackView>, n: int)
    requires
        0 <= n <= tracks.len(),
        first_video_track(tracks.take(n)) is Some,
    ensures
        first_video_track(tracks) == first_video_track(tracks.take(n)),
    decreases tracks.len() - n,
{
    if n < tracks.len() {
        assert(tracks.take(n + 1).drop_last() =~= tracks.take(n));
        lemma_first_video_stable(tracks, n + 1);
    } else {
        assert(tracks.take(n) =~= tracks);
    }
}

/// The first video track is one of the tracks.
proof fn lemma_first_video_found(tracks: Seq<TrackView>)
    ensures
        first_video_track(tracks) matches Some(t) ==> exists|i: int|
            0 <= i < tracks.len() && #[trigger] tracks[i].id == t,
    decreases tracks.len(),
{
    if tracks.len() > 0 {
        lemma_first_video_found(tracks.drop_last());
        if first_video_track(tracks.drop_last()) is Some {
            let t = first_video_track(tracks.drop_last())->0;
            let i = choose|i: int| 0 <= i < tracks.drop_last().len() && #[trigger] tracks.drop_last()[i].id == t;
            assert(tracks[i].id == t);
        } else if first_video_track(tracks) is Some {
            assert(tracks[tracks.len() - 1].id == tracks.last().id);
        }
    }
}

/// The readable items have positive durations.
proof fn lemma_readable_positive(cs: Seq<CandidateView>)
    ensures
        all_positive(readable_items(cs)),
    decreases cs.len(),
{
    if cs.len() > 0 {
        lemma_readable_positive(cs.drop_last());
    }
}

/// Keeping some items keeps their durations positive.
proof fn lemma_new_items_positive(items: Seq<(Seq<char>, i64)>, sources: Set<Seq<char>>)
    requires
        all_positive(items),
    ensures
        all_positive(new_items(items, sources)),
    decreases items.len(),
{
    if items.len() > 0 {
        assert(all_positive(items.drop_last()));
        lemma_new_items_positive(items.drop_last(), sources);
        assert(items.last() == items[items.len() - 1]);
    }
}

/// The id of the project's first video track.
fn find_video_track(project: &Project) -> (r: Option<TrackId>)
    ensures
        r == first_video_track(project@.tracks),
{
    let mut i: usize = 0;
    while i < project.tracks.len()
        invariant
            i <= project.tracks.len(),
            project@.tracks.len() == project.tracks.len(),
            first_video_track(project@.tracks.take(i as int)) is None,
        decreases project.tracks.len() - i,
    {
        let t = &project.tracks[i];
        proof {
            assert(project@.tracks[i as int] == t@);
            assert(project@.tracks.take(i + 1).drop_last() =~= project@.tracks.take(i as int));
            assert(project@.tracks.take(i + 1).last() == t@);
        }
        if t.kind == TrackKind::Video {
            proof {
                lemma_first_video_stable(project@.tracks, i + 1);
            }
            return Some(t.id);
        }
        i = i + 1;
    }
    assert(project@.tracks.take(project.tracks.len() as int) =~= project@.tracks);
    None
}

/// The detail given when nothing could be imported: the first probe
/// failure, or a note that no usable video stream was found.
pub open spec fn nothing_readable_detail(cs: Seq<CandidateView>) -> Seq<char> {
    match first_failure(cs) {
        Some(m) => m,
        None => "no usable video stream found"@,
    }
}

/// Imports probed candidate files: the readable ones (positive duration)
/// that no clip references yet become clips on the first video track (a
/// new `V1` video track when there is none), placed end to end from the
/// project's current end, in order. Fails without any edit when there is
/// no candidate, or when none of them can be imported.
pub fn import_media(bus: &mut CommandBus, candidates: &Vec<Candidate>) -> (r: Result<ImportOutcome, ImportError>)
    requires
        forall|k: u128|
            #[trigger] old(bus)@.project.clips.contains_key(k) ==> clip_end_fits(old(bus)@.project.clips[k]),
        forall|d: int|
            is_duration(old(bus)@.project, d) ==> d + total(
                new_items(readable_items(candidate_views(candidates@)), clip_sources(old(bus)@.project)),
            ) <= i64::MAX,
    ensures
        candidates.len() == 0 ==> r == Err::<ImportOutcome, ImportError>(ImportError::NoCandidates)
            && final(bus)@ == old(bus)@,
        candidates.len() > 0 && new_items(
            readable_items(candidate_views(candidates@)),
            clip_sources(old(bus)@.project),
        ).len() == 0 ==> (r matches Err(ImportError::NothingReadable(m)) && m@ == nothing_readable_detail(
            candidate_views(candidates@),
        )) && final(bus)@ == old(bus)@,
        candidates.len() > 0 && new_items(
            readable_items(candidate_views(candidates@)),
            clip_sources(old(bus)@.project),
        ).len() > 0 ==> ({
            let cs = candidate_views(candidates@);
            let items = new_items(readable_items(cs), clip_sources(old(bus)@.project));
            &&& r matches Ok(o)
            &&& string_views(r->Ok_0.imported_paths@) == items.map_values(|x: (Seq<char>, i64)| x.0)
            &&& string_views(r->Ok_0.skipped_paths@) == unreadable_paths(cs) + known_paths(
                readable_items(cs),
                clip_sources(old(bus)@.project),
            )
            &&& exists|start: int, ids: Seq<u128>|
                is_duration(old(bus)@.project, start) && run_commands(
                    old(bus)@,
                    import_commands(old(bus)@.project, items, start, ids),
                    ids,
                ) == Some(final(bus)@)
        }),
{
    if candidates.len() == 0 {
        return Err(ImportError::NoCandidates);
    }
    let ghost cs = candidate_views(candidates@);
    let ghost b0 = bus@;
    let (readable, unreadable, failure) = classify(candidates);
    let (fresh, known) = split_known(bus.project(), &readable);
    let ghost items = item_views(fresh@);
    if fresh.len() == 0 {
        let detail = match failure {
            Some(m) => m,
            None => String::from_str("no usable video stream found"),
        };
        return Err(ImportError::NothingReadable(detail));
    }
    let ghost mut pre: Seq<CommandView> = Seq::empty();
    let ghost mut pre_ids: Seq<u128> = Seq::empty();
    let track = match find_video_track(bus.project()) {
        Some(t) => {
            proof {
                lemma_first_video_found(b0.project.tracks);
            }
            t
        },
        None => {
            let command = Command::AddTrack { kind: TrackKind::Video, name: String::from_str("V1") };
            let ghost cv = command@;
            let _ = bus.execute(command);
            proof {
                let f = choose|f: u128|
                    match #[trigger] execute_spec(b0, cv, f) {
                        Ok(nb) => bus@ == nb,
                        Err(e) => bus@ == b0,
                    };
                assert(execute_spec(b0, cv, f) is Ok);
                pre = seq![cv];
                pre_ids = seq![f];
                assert(pre.drop_last() =~= Seq::<CommandView>::empty());
                assert(pre_ids.drop_last() =~= Seq::<u128>::empty());
                assert(run_commands(b0, Seq::<CommandView>::empty(), Seq::<u128>::empty()) == Some(b0));
                assert(pre.last() == cv && pre_ids.last() == f);
                assert(run_commands(b0, pre, pre_ids) == Some(bus@));
                assert(bus@.project.tracks.last().id == TrackId(f));
                assert(bus@.project.tracks[bus@.project.tracks.len() - 1].id == TrackId(f));
            }
            let proj = bus.project();
            let n = proj.tracks.len();
            proof {
                assert(proj@.tracks.len() == n);
                assert(proj@.tracks[n - 1] == proj.tracks[n - 1]@);
            }
            proj.tracks[n - 1].id
        },
    };
    let start = bus.project().duration();
    proof {
        assert(bus@.project.clips == b0.project.clips);
        assert(is_duration(b0.project, start.0 as int));
        assert(all_positive(items)) by {
            lemma_readable_positive(cs);
            lemma_new_items_positive(readable_items(cs), clip_sources(b0.project));
        }
    }
    let Ghost(ids) = add_items(bus, track, &fresh, start.0, Ghost(b0), Ghost(pre), Ghost(pre_ids));
    let mut imported_paths: Vec<String> = Vec::new();
    let mut i: usize = 0;
    while i < fresh.len()
        invariant
            i <= fresh.len(),
            items == item_views(fresh@),
            string_views(imported_paths@) == items.take(i as int).map_values(|x: (Seq<char>, i64)| x.0),
        decreases fresh.len() - i,
    {
        imported_paths.push(fresh[i].0.clone());
        proof {
            assert(items[i as int].0 == fresh@[i as int].0@);
            assert(items.take(i + 1).map_values(|x: (Seq<char>, i64)| x.0) =~= items.take(i as int).map_values(
                |x: (Seq<char>, i64)| x.0,
            ).push(items[i as int].0));
            assert(string_views(imported_paths@) =~= items.take(i + 1).map_values(|x: (Seq<char>, i64)| x.0));
        }
        i = i + 1;
    }
    assert(items.take(fresh.len() as int) =~= items);
    let mut skipped_paths = unreadable;
    let ghost u = string_views(skipped_paths@);
    let mut j: usize = 0;
    while j < known.len()
        invariant
            j <= known.len(),
            string_views(skipped_paths@) == u + string_views(known@).take(j as int),
        decreases known.len() - j,
    {
        let ghost s0 = string_views(skipped_paths@);
        skipped_paths.push(known[j].clone());
        proof {
            assert(string_views(skipped_paths@) =~= s0.push(known@[j as int]@));
            assert(string_views(known@)[j as int] == known@[j as int]@);
            assert(string_views(known@).take(j + 1) =~= string_views(known@).take(j as int).push(known@[j as int]@));
            assert(string_views(skipped_paths@) =~= u + string_views(known@).take(j + 1));
        }
        j = j + 1;
    }
    assert(string_views(known@).take(known.len() as int) =~= string_views(known@));
    proof {
        let all_ids = pre_ids + ids;
        assert(import_commands(b0.project, items, start.0 as int, all_ids) =~= pre + add_clip_commands(
            track,
            items,
            start.0 as int,
        ));
    }
    Ok(ImportOutcome { imported_paths, skipped_paths })
}

/// What [`import_media`] needs to stay within `i64`: every clip's end
/// fits, and so does the end of the last imported clip.
pub open spec fn import_fits(p: ProjectView, cs: Seq<CandidateView>) -> bool {
    &&& forall|k: u128| #[trigger] p.clips.contains_key(k) ==> clip_end_fits(p.clips[k])
    &&& forall|d: int| is_duration(p, d) ==> d + total(new_items(readable_items(cs), clip_sources(p))) <= i64::MAX
}

/// The duration of a project is unique.
proof fn lemma_duration_unique(p: ProjectView, d1: int, d2: int)
    requires
        is_duration(p, d1),
        is_duration(p, d2),
    ensures
        d1 == d2,
{
    if !p.clips.is_empty() {
        let k1 = choose|k: u128| #[trigger] p.clips.contains_key(k) && d1 == clip_end(p.clips[k]);
        let k2 = choose|k: u128| #[trigger] p.clips.contains_key(k) && d2 == clip_end(p.clips[k]);
        assert(clip_end(p.clips[k1]) <= d2);
        assert(clip_end(p.clips[k2]) <= d1);
    }
}

/// Whether every clip's duration and end fit in `i64`.
fn clip_ends_fit(project: &Project) -> (b: bool)
    ensures
        b == forall|k: u128| #[trigger] project@.clips.contains_key(k) ==> clip_end_fits(project@.clips[k]),
{
    let ghost s = spec_hash_map_iter(&project.clips).remaining();
    for item in it: project.clips.iter()
        invariant
            it.seq() == s,
            s == spec_hash_map_iter(&project.clips).remaining(),
            forall|i: int| 0 <= i < it.index() ==> clip_end_fits((*s[i].1)@),
    {
        let ghost i = it.index();
        assert(item == s[i]);
        assert(project.clips@.contains_key(*item.0) && project.clips@[*item.0] == *item.1);
        let c = item.1;
        let fits = match c.out_point.0.checked_sub(c.in_point.0) {
            Some(d) => c.position.0.checked_add(d).is_some(),
            None => false,
        };
        if !fits {
            assert(project@.clips.contains_key(*item.0));
            assert(!clip_end_fits(project@.clips[*item.0]));
            return false;
        }
    }
    proof {
        assert forall|k: u128| #[trigger] project@.clips.contains_key(k) implies clip_end_fits(project@.clips[k]) by {
            assert(project.clips@.contains_key(k));
            assert(s.contains((&k, &project.clips@[k])));
            let j = choose|j: int| 0 <= j < s.len() && s[j] == (&k, &project.clips@[k]);
            assert(clip_end_fits((*s[j].1)@));
        }
    }
    true
}

/// Whether importing these candidates into this project stays within
/// `i64` (see [`import_fits`]).
pub fn import_stays_in_range(project: &Project, candidates: &Vec<Candidate>) -> (b: bool)
    ensures
        b == import_fits(project@, candidate_views(candidates@)),
{
    if !clip_ends_fit(project) {
        return false;
    }
    let end = project.duration();
    let (readable, _, _) = classify(candidates);
    let (fresh, _) = split_known(project, &readable);
    let ghost items = item_views(fresh@);
    proof {
        lemma_readable_positive(candidate_views(candidates@));
        lemma_new_items_positive(readable_items(candidate_views(candidates@)), clip_sources(project@));
        assert(is_duration(project@, end.0 as int));
        assert forall|d: int| is_duration(project@, d) implies d == end.0 by {
            lemma_duration_unique(project@, d, end.0 as int);
        }
    }
    let mut sum: i64 = end.0;
    let mut k: usize = 0;
    while k < fresh.len()
        invariant
            k <= fresh.len(),
            items == item_views(fresh@),
            items == new_items(readable_items(candidate_views(candidates@)), clip_sources(project@)),
            is_duration(project@, end.0 as int),
            all_positive(items),
            sum == end.0 + total(items.take(k as int)),
        decreases fresh.len() - k,
    {
        proof {
            assert(items.take(k + 1).drop_last() =~= items.take(k as int));
            assert(items.take(k + 1).last() == items[k as int]);
            assert(items[k as int].1 == fresh@[k as int].1);
        }
        match sum.checked_add(fresh[k].1) {
            Some(v) => {
                sum = v;
            },
            None => {
                proof {
                    lemma_total_prefix(items, k + 1);
                }
                return false;
            },
        }
        k = k + 1;
    }
    assert(items.take(fresh.len() as int) =~= items);
    true
}

impl ImportError {
    /// What the error says.
    pub open spec fn message_text(&self) -> Seq<char> {
        match self {
            ImportError::NoCandidates => "no supported video files were found"@,
            ImportError::NothingReadable(detail) => "no readable video files could be imported ("@ + detail@
                + ")"@,
            ImportError::Core(e) => e.message_text(),
        }
    }

    /// What the error says.
    pub fn message(&self) -> (s: String)
        ensures
            s@ == self.message_text(),
    {
        match self {
            ImportError::NoCandidates => String::from_str("no supported video files were found"),
            ImportError::NothingReadable(detail) => {
                let mut s = String::from_str("no readable video files could be imported (");
                s.append(detail.as_str());
                s.append(")");
                s
            },
            ImportError::Core(e) => e.message(),
        }
    }
}

/// The file extensions of the video files that imports pick up.
pub open spec fn video_extensions() -> Seq<Seq<char>> {
    seq!["mp4"@, "mov"@, "mkv"@, "m4v"@, "avi"@, "webm"@, "mts"@, "m2ts"@]
}

/// Whether a file with this extension (if it has one) is a video that
/// imports pick up: the extension equals one of [`video_extensions`],
/// ignoring ASCII case.
pub fn is_supported_video(extension: Option<&str>) -> (b: bool)
    ensures
        b == match extension {
            Some(e) => exists|i: int|
                0 <= i < video_extensions().len() && lowered(e@) == #[trigger] video_extensions()[i],
            None => false,
        },
{
    let e = match extension {
        Some(e) => e,
        None => {
            return false;
        },
    };
    let chars = chars_of(e);
    let known = vec![
        chars_of("mp4"),
        chars_of("mov"),
        chars_of("mkv"),
        chars_of("m4v"),
        chars_of("avi"),
        chars_of("webm"),
        chars_of("mts"),
        chars_of("m2ts"),
    ];
    let ghost low = lowered(e@);
    assert(chars@.subrange(0, chars@.len() as int) =~= e@);
    let mut i: usize = 0;
    while i < known.len()
        invariant
            i <= known.len(),
            known.len() == video_extensions().len(),
            forall|j: int| 0 <= j < known.len() ==> (#[trigger] known@[j])@ == video_extensions()[j],
            chars@ == e@,
            low == lowered(e@),
            extension == Some(e),
            forall|j: int| 0 <= j < i ==> low != #[trigger] video_extensions()[j],
        decreases known.len() - i,
    {
        if lower_equals(&chars, 0, chars.len(), &known[i]) {
            assert(chars@.subrange(0, chars@.len() as int) =~= e@);
            assert(known@[i as int]@ == video_extensions()[i as int]);
            assert(low == video_extensions()[i as int]);
            return true;
        }
        assert(chars@.subrange(0, chars@.len() as int) =~= e@);
        i = i + 1;
    }
    false
}

} // verus!
