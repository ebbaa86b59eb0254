//! Errors of timeline edits and of the command history.

use vstd::prelude::*;
use vstd::string::StringExecFns;

use crate::text::{push_signed, signed_decimal};
use crate::timeline::ids::{uuid_text, ClipId, TrackId};

verus! {

/// Why a timeline edit or a history step was refused.
#[derive(Debug, PartialEq, Eq)]
pub enum CoreError {
    ClipNotFound(ClipId),
    TrackNotFound(TrackId),
    InvalidTrim { clip: ClipId, in_point: i64, out_point: i64, source_duration: i64 },
    InvalidSplit { clip: ClipId, at: i64, start: i64, end: i64 },
    NothingToUndo,
    NothingToRedo,
    TrackNotEmpty(TrackId),
    InvalidSpeedRamp,
    Serde(String),
}

impl CoreError {
    /// What the error says.
    pub open spec fn message_text(&self) -> Seq<char> {
        match self {
            CoreError::ClipNotFound(id) => "clip "@ + uuid_text(id.0) + " not found"@,
            CoreError::TrackNotFound(id) => "track "@ + uuid_text(id.0) + " not found"@,
            CoreError::InvalidTrim { clip, in_point, out_point, source_duration } => "invalid trim: in="@
                + signed_decimal(*in_point as int) + " out="@ + signed_decimal(*out_point as int)
                + " for clip "@ + uuid_text(clip.0) + " (source duration "@ + signed_decimal(
                *source_duration as int,
            ) + ")"@,
            CoreError::InvalidSplit { clip, at, start, end } => "invalid split point "@ + signed_decimal(
                *at as int,
            ) + " for clip "@ + uuid_text(clip.0) + " (bounds ["@ + signed_decimal(*start as int) + ", "@
                + signed_decimal(*end as int) + "])"@,
            CoreError::NothingToUndo => "nothing to undo"@,
            CoreError::NothingToRedo => "nothing to redo"@,
            CoreError::TrackNotEmpty(id) => "track "@ + uuid_text(id.0) + " is not empty"@,
            CoreError::InvalidSpeedRamp => "invalid speed ramp: keyframes must be non-empty and time-ordered"@,
            CoreError::Serde(m) => "serialization error: "@ + m@,
        }
    }

    /// What the error says.
    pub fn message(&self) -> (s: String)
        ensures
            s@ == self.message_text(),
    {
        match self {
            CoreError::ClipNotFound(id) => {
                let mut s = String::from_str("clip ");
                s.append(id.to_text().as_str());
                s.append(" not found");
                s
            },
            CoreError::TrackNotFound(id) => {
                let mut s = String::from_str("track ");
                s.append(id.to_text().as_str());
                s.append(" not found");
                s
            },
            CoreError::InvalidTrim { clip, in_point, out_point, source_duration } => {
                let mut s = String::from_str("invalid trim: in=");
                push_signed(&mut s, *in_point);
                s.append(" out=");
                push_signed(&mut s, *out_point);
                s.append(" for clip ");
                s.append(clip.to_text().as_str());
                s.append(" (source duration ");
                push_signed(&mut s, *source_duration);
                s.append(")");
                s
            },
            CoreError::InvalidSplit { clip, at, start, end } => {
                let mut s = String::from_str("invalid split point ");
                push_signed(&mut s, *at);
                s.append(" for clip ");
                s.append(clip.to_text().as_str());
                s.append(" (bounds [");
                push_signed(&mut s, *start);
                s.append(", ");
                push_signed(&mut s, *end);
                s.append("])");
                s
            },
            CoreError::NothingToUndo => String::from_str("nothing to undo"),
            CoreError::NothingToRedo => String::from_str("nothing to redo"),
            CoreError::TrackNotEmpty(id) => {
                let mut s = String::from_str("track ");
                s.append(id.to_text().as_str());
                s.append(" is not empty");
                s
            },
            CoreError::InvalidSpeedRamp => String::from_str(
                "invalid speed ramp: keyframes must be non-empty and time-ordered",
            ),
            CoreError::Serde(m) => {
                let mut s = String::from_str("serialization error: ");
                s.append(m.as_str());
                s
            },
        }
    }
}

} // verus!
