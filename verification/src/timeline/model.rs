//! The project/timeline data model.
//!
//! Floating-point settings (frame rate, stabilization knobs, overlay
//! positions, speed-ramp rates) are held as their IEEE-754 bit patterns:
//! the timeline logic only stores and compares them, never computes with
//! them.

use std::collections::hash_map::Entry;
use std::collections::HashMap;
use vstd::prelude::*;
use vstd::std_specs::hash::spec_hash_map_iter;
use vstd::std_specs::iter::IteratorSpec;

use crate::timeline::ids::{ClipId, ProjectId, TrackId};

verus! {

broadcast use vstd::std_specs::hash::group_hash_axioms;

/// A point in time or a duration, in microseconds.
#[derive(Debug, Clone, Copy, PartialEq, Eq, PartialOrd, Ord, Hash, Structural)]
pub struct Timecode(pub i64);

/// Whether an integer fits in `i64`.
pub open spec fn fits_i64(x: int) -> bool {
    i64::MIN <= x <= i64::MAX
}

impl Timecode {
    /// The zero timecode.
    pub fn zero() -> (t: Timecode)
        ensures
            t.0 == 0,
    {
        Timecode(0)
    }

    /// `self - rhs`, or `None` when the difference does not fit in `i64`.
    pub fn checked_sub(self, rhs: Timecode) -> (r: Option<Timecode>)
        ensures
            fits_i64(self.0 - rhs.0) ==> r == Some(Timecode((self.0 - rhs.0) as i64)),
            !fits_i64(self.0 - rhs.0) ==> r is None,
    {
        match self.0.checked_sub(rhs.0) {
            Some(v) => Some(Timecode(v)),
            None => None,
        }
    }
}

/// The kind of a track.
#[derive(Debug, Clone, Copy, PartialEq, Eq, Hash, Structural)]
pub enum TrackKind {
    Video,
    Audio,
}

/// A track: clip ids in playback order.
#[derive(Debug)]
pub struct Track {
    pub id: TrackId,
    pub kind: TrackKind,
    pub name: String,
    /// Clip ids in playback order along this track.
    pub clip_order: Vec<ClipId>,
}

/// The mathematical value of a [`Track`].
#[verifier::ext_equal]
pub struct TrackView {
    pub id: TrackId,
    pub kind: TrackKind,
    pub name: Seq<char>,
    pub clip_order: Seq<ClipId>,
}

impl View for Track {
    type V = TrackView;

    open spec fn view(&self) -> TrackView {
        TrackView { id: self.id, kind: self.kind, name: self.name@, clip_order: self.clip_order@ }
    }
}

impl Clone for Track {
    fn clone(&self) -> (r: Self)
        ensures
            r@ == self@,
    {
        let order = self.clip_order.clone();
        assert(order@ =~= self.clip_order@);
        Track { id: self.id, kind: self.kind, name: self.name.clone(), clip_order: order }
    }
}

impl Track {
    /// A new empty track with a fresh random id.
    pub fn new(kind: TrackKind, name: String) -> (t: Track)
        ensures
            t@.kind == kind,
            t@.name == name@,
            t@.clip_order == Seq::<ClipId>::empty(),
    {
        Track { id: TrackId::new(), kind, name, clip_order: Vec::new() }
    }
}

/// Stabilization settings attached to a clip. Each knob holds the bit
/// pattern of an `f32`.
#[derive(Debug, Clone, Copy, PartialEq, Eq, Structural)]
pub struct StabilizationProfile {
    /// 0.0 (off) .. 1.0 (max smoothing).
    pub smoothness_bits: u32,
    /// 0.0 (no correction) .. 1.0 (full correction).
    pub strength_bits: u32,
    pub horizon_lock: bool,
    /// Extra crop applied to hide warped edges, 0.0..1.0 of frame size.
    pub dynamic_fov_bits: u32,
}

impl StabilizationProfile {
    /// The default profile: smoothness 0.5, strength 1.0, no horizon lock,
    /// dynamic FOV 0.1.
    pub fn default_profile() -> (p: StabilizationProfile)
        ensures
            p.smoothness_bits == 0x3f00_0000,
            p.strength_bits == 0x3f80_0000,
            !p.horizon_lock,
            p.dynamic_fov_bits == 0x3dcc_cccd,
    {
        StabilizationProfile {
            smoothness_bits: 0x3f00_0000,
            strength_bits: 0x3f80_0000,
            horizon_lock: false,
            dynamic_fov_bits: 0x3dcc_cccd,
        }
    }
}

/// A positioned, timed text overlay; `x` and `y` hold `f32` bit patterns.
#[derive(Debug)]
pub struct TextOverlay {
    pub text: String,
    pub start: Timecode,
    pub end: Timecode,
    pub x_bits: u32,
    pub y_bits: u32,
}

/// The mathematical value of a [`TextOverlay`].
#[verifier::ext_equal]
pub struct TextOverlayView {
    pub text: Seq<char>,
    pub start: Timecode,
    pub end: Timecode,
    pub x_bits: u32,
    pub y_bits: u32,
}

impl View for TextOverlay {
    type V = TextOverlayView;

    open spec fn view(&self) -> TextOverlayView {
        TextOverlayView {
            text: self.text@,
            start: self.start,
            end: self.end,
            x_bits: self.x_bits,
            y_bits: self.y_bits,
        }
    }
}

impl Clone for TextOverlay {
    fn clone(&self) -> (r: Self)
        ensures
            r@ == self@,
    {
        TextOverlay {
            text: self.text.clone(),
            start: self.start,
            end: self.end,
            x_bits: self.x_bits,
            y_bits: self.y_bits,
        }
    }
}

/// The flight-controller OSD telemetry source of a clip.
#[derive(Debug, Clone, Copy, PartialEq, Eq, Structural)]
pub enum OsdSource {
    Betaflight,
    Inav,
    WalkSnail,
    Hdzero,
}

/// A speed-ramp keyframe: at this source-clip time, play at this rate
/// (`rate_bits` holds the bit pattern of an `f64`).
#[derive(Debug, Clone, Copy, PartialEq, Eq, Structural)]
pub struct SpeedKeyframe {
    pub at: Timecode,
    pub rate_bits: u64,
}

/// Whether the `f64` with these bits is greater than zero: the positive
/// doubles are exactly the bit patterns from the smallest subnormal up to
/// positive infinity.
pub open spec fn f64_bits_positive(bits: u64) -> bool {
    0 < bits <= 0x7ff0_0000_0000_0000u64
}

/// A clip: a trimmed range of a source file placed on the timeline.
#[derive(Debug)]
pub struct Clip {
    pub id: ClipId,
    pub source_path: String,
    /// In/out points within the *source* media.
    pub in_point: Timecode,
    pub out_point: Timecode,
    /// Position on the track's timeline.
    pub position: Timecode,
    pub stabilization: Option<StabilizationProfile>,
    pub lut_path: Option<String>,
    pub speed_keyframes: Vec<SpeedKeyframe>,
    pub text_overlays: Vec<TextOverlay>,
    pub osd_source: Option<OsdSource>,
}

/// The mathematical value of a [`Clip`].
#[verifier::ext_equal]
pub struct ClipView {
    pub id: ClipId,
    pub source_path: Seq<char>,
    pub in_point: Timecode,
    pub out_point: Timecode,
    pub position: Timecode,
    pub stabilization: Option<StabilizationProfile>,
    pub lut_path: Option<Seq<char>>,
    pub speed_keyframes: Seq<SpeedKeyframe>,
    pub text_overlays: Seq<TextOverlayView>,
    pub osd_source: Option<OsdSource>,
}

/// The views of a sequence of overlays.
pub open spec fn overlay_views(s: Seq<TextOverlay>) -> Seq<TextOverlayView> {
    s.map_values(|o: TextOverlay| o@)
}

/// The views of a sequence of tracks.
pub open spec fn track_views(s: Seq<Track>) -> Seq<TrackView> {
    s.map_values(|t: Track| t@)
}

/// The views of the clips of a clip map.
pub open spec fn clip_views(m: Map<u128, Clip>) -> Map<u128, ClipView> {
    m.map_values(|c: Clip| c@)
}

/// The view of an optional string.
pub open spec fn opt_text(s: Option<String>) -> Option<Seq<char>> {
    match s {
        Some(t) => Some(t@),
        None => None,
    }
}

impl View for Clip {
    type V = ClipView;

    open spec fn view(&self) -> ClipView {
        ClipView {
            id: self.id,
            source_path: self.source_path@,
            in_point: self.in_point,
            out_point: self.out_point,
            position: self.position,
            stabilization: self.stabilization,
            lut_path: opt_text(self.lut_path),
            speed_keyframes: self.speed_keyframes@,
            text_overlays: overlay_views(self.text_overlays@),
            osd_source: self.osd_source,
        }
    }
}

/// Clones a string option, keeping its view.
pub fn clone_opt_text(s: &Option<String>) -> (r: Option<String>)
    ensures
        opt_text(r) == opt_text(*s),
{
    match s {
        Some(t) => Some(t.clone()),
        None => None,
    }
}

/// Clones a list of overlays, keeping its view.
pub fn clone_overlays(v: &Vec<TextOverlay>) -> (r: Vec<TextOverlay>)
    ensures
        overlay_views(r@) == overlay_views(v@),
{
    let mut r: Vec<TextOverlay> = Vec::new();
    let mut i: usize = 0;
    while i < v.len()
        invariant
            i <= v.len(),
            overlay_views(r@) =~= overlay_views(v@.subrange(0, i as int)),
        decreases v.len() - i,
    {
        let o = v[i].clone();
        proof {
            assert(v@.subrange(0, i as int + 1) =~= v@.subrange(0, i as int).push(v@[i as int]));
            assert(overlay_views(r@.push(o)) =~= overlay_views(r@).push(o@));
            assert(overlay_views(v@.subrange(0, i as int + 1)) =~= overlay_views(v@.subrange(0, i as int)).push(v@[i as int]@));
        }
        r.push(o);
        i = i + 1;
    }
    assert(v@.subrange(0, v.len() as int) =~= v@);
    r
}

/// Clones a list of keyframes.
pub fn clone_keyframes(v: &Vec<SpeedKeyframe>) -> (r: Vec<SpeedKeyframe>)
    ensures
        r@ == v@,
{
    let mut r: Vec<SpeedKeyframe> = Vec::new();
    let mut i: usize = 0;
    while i < v.len()
        invariant
            i <= v.len(),
            r@ =~= v@.subrange(0, i as int),
        decreases v.len() - i,
    {
        r.push(v[i]);
        i = i + 1;
    }
    assert(v@.subrange(0, v.len() as int) =~= v@);
    r
}

impl Clone for Clip {
    fn clone(&self) -> (r: Self)
        ensures
            r@ == self@,
    {
        Clip {
            id: self.id,
            source_path: self.source_path.clone(),
            in_point: self.in_point,
            out_point: self.out_point,
            position: self.position,
            stabilization: self.stabilization,
            lut_path: clone_opt_text(&self.lut_path),
            speed_keyframes: clone_keyframes(&self.speed_keyframes),
            text_overlays: clone_overlays(&self.text_overlays),
            osd_source: self.osd_source,
        }
    }
}

/// The clip a `Clip::new` call describes: no effects, at position zero.
pub open spec fn plain_clip(id: ClipId, source: Seq<char>, in_point: Timecode, out_point: Timecode) -> ClipView {
    ClipView {
        id,
        source_path: source,
        in_point,
        out_point,
        position: Timecode(0),
        stabilization: None,
        lut_path: None,
        speed_keyframes: Seq::empty(),
        text_overlays: Seq::empty(),
        osd_source: None,
    }
}

impl Clip {
    /// A new clip over `[in_point, out_point)` of the source, with a fresh
    /// random id, at position zero and without effects.
    pub fn new(source_path: String, in_point: Timecode, out_point: Timecode) -> (c: Clip)
        ensures
            c@ == plain_clip(c.id, source_path@, in_point, out_point),
    {
        Clip::with_id(ClipId::new(), source_path, in_point, out_point)
    }

    /// As [`Clip::new`], with the id given.
    pub fn with_id(id: ClipId, source_path: String, in_point: Timecode, out_point: Timecode) -> (c: Clip)
        ensures
            c@ == plain_clip(id, source_path@, in_point, out_point),
    {
        let c = Clip {
            id,
            source_path,
            in_point,
            out_point,
            position: Timecode(0),
            stabilization: None,
            lut_path: None,
            speed_keyframes: Vec::new(),
            text_overlays: Vec::new(),
            osd_source: None,
        };
        assert(c@.text_overlays =~= Seq::<TextOverlayView>::empty());
        c
    }

    /// `out_point - in_point`.
    pub fn source_duration(&self) -> (d: Timecode)
        requires
            fits_i64(self.out_point.0 - self.in_point.0),
        ensures
            d.0 == self.out_point.0 - self.in_point.0,
    {
        Timecode(self.out_point.0 - self.in_point.0)
    }
}

/// The project-file format version this build reads and writes.
pub const PROJECT_FORMAT_VERSION: u32 = 1;

/// A project: the tracks, and the clips they reference by id.
#[derive(Debug)]
pub struct Project {
    pub format_version: u32,
    pub id: ProjectId,
    pub name: String,
    /// Frames per second, as the bit pattern of an `f64`.
    pub fps_bits: u64,
    pub width: u32,
    pub height: u32,
    pub tracks: Vec<Track>,
    /// Clips by the 128-bit value of their [`ClipId`].
    pub clips: HashMap<u128, Clip>,
}

/// The mathematical value of a [`Project`].
#[verifier::ext_equal]
pub struct ProjectView {
    pub format_version: u32,
    pub id: ProjectId,
    pub name: Seq<char>,
    pub fps_bits: u64,
    pub width: u32,
    pub height: u32,
    pub tracks: Seq<TrackView>,
    pub clips: Map<u128, ClipView>,
}

impl View for Project {
    type V = ProjectView;

    open spec fn view(&self) -> ProjectView {
        ProjectView {
            format_version: self.format_version,
            id: self.id,
            name: self.name@,
            fps_bits: self.fps_bits,
            width: self.width,
            height: self.height,
            tracks: track_views(self.tracks@),
            clips: clip_views(self.clips@),
        }
    }
}

/// Clones a list of tracks, keeping its view.
pub fn clone_tracks(v: &Vec<Track>) -> (r: Vec<Track>)
    ensures
        track_views(r@) == track_views(v@),
{
    let mut r: Vec<Track> = Vec::new();
    let mut i: usize = 0;
    while i < v.len()
        invariant
            i <= v.len(),
            track_views(r@) =~= track_views(v@.subrange(0, i as int)),
        decreases v.len() - i,
    {
        let t = v[i].clone();
        proof {
            assert(v@.subrange(0, i as int + 1) =~= v@.subrange(0, i as int).push(v@[i as int]));
            assert(track_views(r@.push(t)) =~= track_views(r@).push(t@));
            assert(track_views(v@.subrange(0, i as int + 1)) =~= track_views(v@.subrange(0, i as int)).push(v@[i as int]@));
        }
        r.push(t);
        i = i + 1;
    }
    assert(v@.subrange(0, v.len() as int) =~= v@);
    r
}

/// Clones a clip map, keeping its view.
pub fn clone_clips(m: &HashMap<u128, Clip>) -> (r: HashMap<u128, Clip>)
    ensures
        clip_views(r@) == clip_views(m@),
{
    let r = m.clone();
    r
}

impl Clone for Project {
    fn clone(&self) -> (r: Self)
        ensures
            r@ == self@,
    {
        Project {
            format_version: self.format_version,
            id: self.id,
            name: self.name.clone(),
            fps_bits: self.fps_bits,
            width: self.width,
            height: self.height,
            tracks: clone_tracks(&self.tracks),
            clips: clone_clips(&self.clips),
        }
    }
}

/// The end of a clip on the timeline: `position + (out_point - in_point)`.
pub open spec fn clip_end(c: ClipView) -> int {
    c.position.0 + (c.out_point.0 - c.in_point.0)
}

/// Whether a clip's duration and end both fit in `i64`, so that computing
/// them does not overflow.
pub open spec fn clip_end_fits(c: ClipView) -> bool {
    fits_i64(c.out_point.0 - c.in_point.0) && fits_i64(clip_end(c))
}

/// Index of the first track with this id.
#[verifier::opaque]
pub open spec fn track_index(tracks: Seq<TrackView>, id: TrackId) -> Option<int> {
    if exists|i: int| 0 <= i < tracks.len() && tracks[i].id == id {
        Some(
            choose|i: int|
                0 <= i < tracks.len() && tracks[i].id == id && forall|j: int|
                    0 <= j < i ==> tracks[j].id != id,
        )
    } else {
        None
    }
}

/// Index of the first track whose playback order holds this clip.
#[verifier::opaque]
pub open spec fn owner_index(tracks: Seq<TrackView>, clip: ClipId) -> Option<int> {
    if exists|i: int| 0 <= i < tracks.len() && tracks[i].clip_order.contains(clip) {
        Some(
            choose|i: int|
                0 <= i < tracks.len() && tracks[i].clip_order.contains(clip) && forall|j: int|
                    0 <= j < i ==> !tracks[j].clip_order.contains(clip),
        )
    } else {
        None
    }
}

/// A first-match index exists whenever some match exists; this pins the
/// `choose` in [`track_index`] down.
pub proof fn lemma_track_index(tracks: Seq<TrackView>, id: TrackId, k: int)
    requires
        0 <= k < tracks.len(),
        tracks[k].id == id,
        forall|j: int| 0 <= j < k ==> tracks[j].id != id,
    ensures
        track_index(tracks, id) == Some(k),
{
    reveal(track_index);
    assert(exists|i: int|
        0 <= i < tracks.len() && tracks[i].id == id && forall|j: int|
            0 <= j < i ==> tracks[j].id != id);
    let c = choose|i: int|
        0 <= i < tracks.len() && tracks[i].id == id && forall|j: int|
            0 <= j < i ==> tracks[j].id != id;
    if c < k {
        assert(tracks[c].id != id);
    } else if c > k {
        assert(tracks[k].id != id);
    }
}

/// As [`lemma_track_index`], for [`owner_index`].
pub proof fn lemma_owner_index(tracks: Seq<TrackView>, clip: ClipId, k: int)
    requires
        0 <= k < tracks.len(),
        tracks[k].clip_order.contains(clip),
        forall|j: int| 0 <= j < k ==> !tracks[j].clip_order.contains(clip),
    ensures
        owner_index(tracks, clip) == Some(k),
{
    reveal(owner_index);
    assert(exists|i: int|
        0 <= i < tracks.len() && tracks[i].clip_order.contains(clip) && forall|j: int|
            0 <= j < i ==> !tracks[j].clip_order.contains(clip));
    let c = choose|i: int|
        0 <= i < tracks.len() && tracks[i].clip_order.contains(clip) && forall|j: int|
            0 <= j < i ==> !tracks[j].clip_order.contains(clip);
    if c < k {
        assert(!tracks[c].clip_order.contains(clip));
    } else if c > k {
        assert(!tracks[k].clip_order.contains(clip));
    }
}

/// What a found owner index gives: it is in range and that track holds
/// the clip.
pub proof fn lemma_owner_index_facts(tracks: Seq<TrackView>, clip: ClipId)
    requires
        owner_index(tracks, clip) is Some,
    ensures
        0 <= owner_index(tracks, clip)->0 < tracks.len(),
        tracks[owner_index(tracks, clip)->0].clip_order.contains(clip),
{
    reveal(owner_index);
    let i = choose|i: int| 0 <= i < tracks.len() && tracks[i].clip_order.contains(clip);
    lemma_first_owner(tracks, clip, i);
}

/// Below any track holding the clip there is a first one.
proof fn lemma_first_owner(tracks: Seq<TrackView>, clip: ClipId, i: int)
    requires
        0 <= i < tracks.len(),
        tracks[i].clip_order.contains(clip),
    ensures
        exists|m: int|
            0 <= m < tracks.len() && tracks[m].clip_order.contains(clip) && forall|j: int|
                0 <= j < m ==> !tracks[j].clip_order.contains(clip),
    decreases i,
{
    if exists|j: int| 0 <= j < i && tracks[j].clip_order.contains(clip) {
        let j = choose|j: int| 0 <= j < i && tracks[j].clip_order.contains(clip);
        lemma_first_owner(tracks, clip, j);
    } else {
        assert(forall|j: int| 0 <= j < i ==> !tracks[j].clip_order.contains(clip));
    }
}

/// Below any track with the id there is a first one.
proof fn lemma_first_track(tracks: Seq<TrackView>, id: TrackId, i: int)
    requires
        0 <= i < tracks.len(),
        tracks[i].id == id,
    ensures
        exists|m: int|
            0 <= m < tracks.len() && tracks[m].id == id && forall|j: int| 0 <= j < m ==> tracks[j].id != id,
    decreases i,
{
    if exists|j: int| 0 <= j < i && tracks[j].id == id {
        let j = choose|j: int| 0 <= j < i && tracks[j].id == id;
        lemma_first_track(tracks, id, j);
    } else {
        assert(forall|j: int| 0 <= j < i ==> tracks[j].id != id);
    }
}

/// What a found track index gives: it is in range and that track has the
/// id.
pub proof fn lemma_track_index_facts(tracks: Seq<TrackView>, id: TrackId)
    requires
        track_index(tracks, id) is Some,
    ensures
        0 <= track_index(tracks, id)->0 < tracks.len(),
        tracks[track_index(tracks, id)->0].id == id,
{
    reveal(track_index);
    let i = choose|i: int| 0 <= i < tracks.len() && tracks[i].id == id;
    lemma_first_track(tracks, id, i);
}

/// The project a `Project::new` call describes.
pub open spec fn fresh_project(id: ProjectId, name: Seq<char>) -> ProjectView {
    ProjectView {
        format_version: PROJECT_FORMAT_VERSION,
        id,
        name,
        fps_bits: 0x404e_0000_0000_0000u64,
        width: 1920,
        height: 1080,
        tracks: Seq::empty(),
        clips: Map::empty(),
    }
}

impl Project {
    /// A new empty project: format version 1, 60 fps, 1920x1080.
    pub fn new(name: String) -> (p: Project)
        ensures
            p@ == fresh_project(p.id, name@),
    {
        let p = Project {
            format_version: PROJECT_FORMAT_VERSION,
            id: ProjectId::new(),
            name,
            fps_bits: 0x404e_0000_0000_0000u64,
            width: 1920,
            height: 1080,
            tracks: Vec::new(),
            clips: HashMap::new(),
        };
        assert(p@.tracks =~= Seq::<TrackView>::empty());
        assert(p@.clips =~= Map::<u128, ClipView>::empty());
        p
    }

    /// Index of the first track with this id.
    pub fn track_position(&self, id: TrackId) -> (r: Option<usize>)
        ensures
            match r {
                Some(i) => i < self.tracks.len() && track_index(self@.tracks, id) == Some(i as int),
                None => track_index(self@.tracks, id) is None,
            },
    {
        let mut i: usize = 0;
        while i < self.tracks.len()
            invariant
                i <= self.tracks.len(),
                forall|j: int| 0 <= j < i ==> self@.tracks[j].id != id,
            decreases self.tracks.len() - i,
        {
            if self.tracks[i].id == id {
                proof {
                    lemma_track_index(self@.tracks, id, i as int);
                }
                return Some(i);
            }
            i = i + 1;
        }
        proof {
            reveal(track_index);
        }
        None
    }

    /// The first track with this id.
    pub fn track(&self, id: TrackId) -> (r: Option<&Track>)
        ensures
            match r {
                Some(t) => track_index(self@.tracks, id) matches Some(i) && t@ == self@.tracks[i],
                None => track_index(self@.tracks, id) is None,
            },
    {
        match self.track_position(id) {
            Some(i) => Some(&self.tracks[i]),
            None => None,
        }
    }

    /// The clip with this id.
    pub fn clip(&self, id: ClipId) -> (r: Option<&Clip>)
        ensures
            match r {
                Some(c) => self@.clips.contains_key(id.0) && c@ == self@.clips[id.0],
                None => !self@.clips.contains_key(id.0),
            },
    {
        self.clips.get(&id.0)
    }

    /// The first track with this id, to change in place: the project
    /// afterwards holds the changed track at its position, and nothing
    /// else changes.
    pub fn track_mut(&mut self, id: TrackId) -> (r: Option<&mut Track>)
        ensures
            match r {
                Some(t) => track_index(old(self)@.tracks, id) matches Some(i) && t@ == old(self)@.tracks[i]
                    && final(self)@ == ProjectView {
                    tracks: old(self)@.tracks.update(i, final(t)@),
                    ..old(self)@
                },
                None => track_index(old(self)@.tracks, id) is None && final(self)@ == old(self)@,
            },
    {
        match self.track_position(id) {
            Some(i) => {
                let t = &mut self.tracks[i];
                Some(t)
            },
            None => None,
        }
    }

    /// The clip with this id, to change in place: the project afterwards
    /// holds the changed clip under the same id, and nothing else changes.
    pub fn clip_mut(&mut self, id: ClipId) -> (r: Option<&mut Clip>)
        ensures
            match r {
                Some(c) => old(self)@.clips.contains_key(id.0) && c@ == old(self)@.clips[id.0] && final(self)@
                    == ProjectView { clips: old(self)@.clips.insert(id.0, final(c)@), ..old(self)@ },
                None => !old(self)@.clips.contains_key(id.0) && final(self)@ == old(self)@,
            },
    {
        match self.clips.entry(id.0) {
            Entry::Occupied(o) => Some(o.into_mut()),
            Entry::Vacant(_) => None,
        }
    }

    /// Index of the first track whose playback order holds this clip.
    pub fn owner_position(&self, clip_id: ClipId) -> (r: Option<usize>)
        ensures
            match r {
                Some(i) => i < self.tracks.len() && owner_index(self@.tracks, clip_id) == Some(i as int),
                None => owner_index(self@.tracks, clip_id) is None,
            },
    {
        let mut i: usize = 0;
        while i < self.tracks.len()
            invariant
                i <= self.tracks.len(),
                forall|j: int| 0 <= j < i ==> !self@.tracks[j].clip_order.contains(clip_id),
            decreases self.tracks.len() - i,
        {
            if position_of(&self.tracks[i].clip_order, clip_id).is_some() {
                proof {
                    lemma_owner_index(self@.tracks, clip_id, i as int);
                }
                return Some(i);
            }
            i = i + 1;
        }
        proof {
            reveal(owner_index);
        }
        None
    }

    /// The track that currently holds this clip, if any.
    pub fn track_of_clip(&self, clip_id: ClipId) -> (r: Option<TrackId>)
        ensures
            match owner_index(self@.tracks, clip_id) {
                Some(i) => r == Some(self@.tracks[i].id),
                None => r is None,
            },
    {
        match self.owner_position(clip_id) {
            Some(i) => Some(self.tracks[i].id),
            None => None,
        }
    }

    /// Total timeline duration: the latest clip end across all clips, or
    /// zero for a project without clips.
    pub fn duration(&self) -> (d: Timecode)
        requires
            forall|k: u128| #[trigger] self@.clips.contains_key(k) ==> clip_end_fits(self@.clips[k]),
        ensures
            self@.clips.is_empty() ==> d.0 == 0,
            !self@.clips.is_empty() ==> {
                &&& exists|k: u128| #[trigger] self@.clips.contains_key(k) && d.0 == clip_end(self@.clips[k])
                &&& forall|k: u128| #[trigger] self@.clips.contains_key(k) ==> clip_end(self@.clips[k]) <= d.0
            },
    {
        let mut best: Option<i64> = None;
        let ghost s = spec_hash_map_iter(&self.clips).remaining();
        let ghost mut seen: int = 0;
        for item in it: self.clips.iter()
            invariant
                it.seq() == s,
                seen == it.index(),
                s == spec_hash_map_iter(&self.clips).remaining(),
                forall|k: u128| #[trigger] self@.clips.contains_key(k) ==> clip_end_fits(self@.clips[k]),
                match best {
                    None => it.index() == 0,
                    Some(b) => {
                        &&& exists|i: int| 0 <= i < it.index() && b == #[trigger] clip_end((*s[i].1)@)
                        &&& forall|i: int| 0 <= i < it.index() ==> #[trigger] clip_end((*s[i].1)@) <= b
                    },
                },
        {
            let ghost i = it.index();
            assert(item == s[i]);
            assert(self.clips@.contains_key(*item.0) && self.clips@[*item.0] == *item.1);
            assert(self@.clips.contains_key(*item.0));
            assert(self@.clips[*item.0] == (*item.1)@);
            let c = item.1;
            let end = c.position.0 + (c.out_point.0 - c.in_point.0);
            best = match best {
                None => Some(end),
                Some(b) => if end > b { Some(end) } else { Some(b) },
            };
            proof {
                seen = seen + 1;
            }
        }
        assert(seen == s.len());
        proof {
            if best is None {
                assert(s.len() == 0);
                assert(self@.clips.dom() =~= Set::<u128>::empty()) by {
                    assert forall|k: u128| !self.clips@.contains_key(k) by {
                        if self.clips@.contains_key(k) {
                            assert(s.contains((&k, &self.clips@[k])));
                        }
                    }
                }
            } else {
                let b = best.unwrap();
                assert(s.len() == self.clips@.dom().len());
                let i0 = choose|i: int| 0 <= i < seen && b == #[trigger] clip_end((*s[i].1)@);
                assert(self.clips@.contains_key(*s[i0].0));
                assert(self@.clips.contains_key(*s[i0].0) && b == clip_end(self@.clips[*s[i0].0]));
                assert forall|k: u128| #[trigger] self@.clips.contains_key(k) implies clip_end(self@.clips[k]) <= b by {
                    assert(s.contains((&k, &self.clips@[k])));
                    let j = choose|j: int| 0 <= j < s.len() && s[j] == (&k, &self.clips@[k]);
                    assert(clip_end((*s[j].1)@) <= b);
                }
                assert(!self@.clips.is_empty()) by {
                    assert(self@.clips.dom().contains(*s[i0].0));
                }
            }
        }
        match best {
            None => Timecode(0),
            Some(b) => Timecode(b),
        }
    }
}

/// The first index of `id` in `order`.
pub fn position_of(order: &Vec<ClipId>, id: ClipId) -> (r: Option<usize>)
    ensures
        match r {
            Some(i) => i < order@.len() && order@[i as int] == id && forall|j: int|
                0 <= j < i ==> order@[j] != id,
            None => !order@.contains(id),
        },
{
    let mut i: usize = 0;
    while i < order.len()
        invariant
            i <= order.len(),
            forall|j: int| 0 <= j < i ==> order@[j] != id,
        decreases order.len() - i,
    {
        if order[i] == id {
            return Some(i);
        }
        i = i + 1;
    }
    None
}

} // verus!
