//! Human-readable summaries of commands, for an undo-history panel.

use vstd::prelude::*;
use vstd::string::StringExecFns;


use crate::timeline::command::{Command, CommandView};
use crate::timeline::ids::{uuid_text, ClipId, TrackId};
use crate::timeline::model::TrackKind;

verus! {

/// The name a track kind is printed with.
pub open spec fn kind_text(kind: TrackKind) -> Seq<char> {
    match kind {
        TrackKind::Video => "Video"@,
        TrackKind::Audio => "Audio"@,
    }
}

/// The summary of a command.
pub open spec fn describe_text(cmd: CommandView) -> Seq<char> {
    match cmd {
        CommandView::AddTrack { kind, name } => "Add "@ + kind_text(kind) + " track '"@ + name + "'"@,
        CommandView::RemoveTrack { track_id } => "Remove track "@ + uuid_text(track_id.0),
        CommandView::AddClip { .. } => "Add clip"@,
        CommandView::RemoveClip { clip_id } => "Remove clip "@ + uuid_text(clip_id.0),
        CommandView::TrimClip { clip_id, .. } => "Trim clip "@ + uuid_text(clip_id.0),
        CommandView::TrimClipStart { clip_id, .. } => "Trim start of clip "@ + uuid_text(clip_id.0),
        CommandView::SplitClip { clip_id, .. } => "Split clip "@ + uuid_text(clip_id.0),
        CommandView::ReorderClip { clip_id, .. } => "Reorder clip "@ + uuid_text(clip_id.0),
        CommandView::MoveClip { clip_id, .. } => "Move clip "@ + uuid_text(clip_id.0),
        CommandView::ApplyStabilization { clip_id, .. } => "Apply stabilization to "@ + uuid_text(clip_id.0),
        CommandView::ApplyLut { clip_id, .. } => "Apply LUT to "@ + uuid_text(clip_id.0),
        CommandView::SetSpeedRamp { clip_id, .. } => "Set speed ramp on "@ + uuid_text(clip_id.0),
        CommandView::AddTextOverlay { clip_id, .. } => "Add text overlay to "@ + uuid_text(clip_id.0),
        CommandView::AddOsdOverlay { clip_id, .. } => "Add OSD overlay to "@ + uuid_text(clip_id.0),
    }
}

/// `prefix` followed by the clip id's text.
fn with_clip_id(prefix: &str, id: ClipId) -> (s: String)
    ensures
        s@ == prefix@ + uuid_text(id.0),
{
    let mut s = String::from_str(prefix);
    let t = id.to_text();
    s.append(t.as_str());
    s
}

/// `prefix` followed by the track id's text.
fn with_track_id(prefix: &str, id: TrackId) -> (s: String)
    ensures
        s@ == prefix@ + uuid_text(id.0),
{
    let mut s = String::from_str(prefix);
    let t = id.to_text();
    s.append(t.as_str());
    s
}

impl Command {
    /// Human-readable summary, e.g. for an undo-history panel.
    pub fn describe(&self) -> (s: String)
        ensures
            s@ == describe_text(self@),
    {
        match self {
            Command::AddTrack { kind, name } => {
                let mut s = String::from_str("Add ");
                match kind {
                    TrackKind::Video => s.append("Video"),
                    TrackKind::Audio => s.append("Audio"),
                }
                s.append(" track '");
                s.append(name.as_str());
                s.append("'");
                s
            },
            Command::RemoveTrack { track_id } => with_track_id("Remove track ", *track_id),
            Command::AddClip { .. } => String::from_str("Add clip"),
            Command::RemoveClip { clip_id } => with_clip_id("Remove clip ", *clip_id),
            Command::TrimClip { clip_id, .. } => with_clip_id("Trim clip ", *clip_id),
            Command::TrimClipStart { clip_id, .. } => with_clip_id("Trim start of clip ", *clip_id),
            Command::SplitClip { clip_id, .. } => with_clip_id("Split clip ", *clip_id),
            Command::ReorderClip { clip_id, .. } => with_clip_id("Reorder clip ", *clip_id),
            Command::MoveClip { clip_id, .. } => with_clip_id("Move clip ", *clip_id),
            Command::ApplyStabilization { clip_id, .. } => with_clip_id(
                "Apply stabilization to ",
                *clip_id,
            ),
            Command::ApplyLut { clip_id, .. } => with_clip_id("Apply LUT to ", *clip_id),
            Command::SetSpeedRamp { clip_id, .. } => with_clip_id("Set speed ramp on ", *clip_id),
            Command::AddTextOverlay { clip_id, .. } => with_clip_id("Add text overlay to ", *clip_id),
            Command::AddOsdOverlay { clip_id, .. } => with_clip_id("Add OSD overlay to ", *clip_id),
        }
    }
}

} // verus!
