//! Errors of media probing, export and the external tools.

use vstd::prelude::*;
use vstd::string::StringExecFns;

use crate::text::{push_signed, signed_decimal};

verus! {

/// Why probing, exporting or running one of the FFmpeg tools failed.
#[derive(Debug, PartialEq, Eq)]
pub enum MediaError {
    /// The export was cancelled by the user.
    Cancelled,
    /// The tool could not be started; `reason` is the operating system's
    /// explanation.
    Spawn { binary: String, reason: String },
    /// The tool ran and exited unsuccessfully.
    NonZeroExit { binary: String, status: i32, stderr: String },
    /// Output or settings could not be understood.
    Parse(String),
    /// The tool is not installed.
    BinaryNotFound(String),
}

/// Whether `r` is the parse error with exactly this message.
pub open spec fn is_parse_error<T>(r: Result<T, MediaError>, message: Seq<char>) -> bool {
    r matches Err(MediaError::Parse(m)) && m@ == message
}

impl MediaError {
    /// What the error says.
    pub open spec fn message_text(&self) -> Seq<char> {
        match self {
            MediaError::Cancelled => "export was cancelled"@,
            MediaError::Spawn { binary, reason } => "failed to spawn `"@ + binary@ + "`: "@ + reason@,
            MediaError::NonZeroExit { binary, status, stderr } => "`"@ + binary@ + "` exited with status "@
                + signed_decimal(*status as int) + ": "@ + stderr@,
            MediaError::Parse(m) => "failed to parse ffprobe output: "@ + m@,
            MediaError::BinaryNotFound(b) => "binary `"@ + b@ + "` not found on PATH"@,
        }
    }

    /// What the error says.
    pub fn message(&self) -> (s: String)
        ensures
            s@ == self.message_text(),
    {
        match self {
            MediaError::Cancelled => String::from_str("export was cancelled"),
            MediaError::Spawn { binary, reason } => {
                let mut s = String::from_str("failed to spawn `");
                s.append(binary.as_str());
                s.append("`: ");
                s.append(reason.as_str());
                s
            },
            MediaError::NonZeroExit { binary, status, stderr } => {
                let mut s = String::from_str("`");
                s.append(binary.as_str());
                s.append("` exited with status ");
                push_signed(&mut s, *status as i64);
                s.append(": ");
                s.append(stderr.as_str());
                s
            },
            MediaError::Parse(m) => {
                let mut s = String::from_str("failed to parse ffprobe output: ");
                s.append(m.as_str());
                s
            },
            MediaError::BinaryNotFound(b) => {
                let mut s = String::from_str("binary `");
                s.append(b.as_str());
                s.append("` not found on PATH");
                s
            },
        }
    }
}

} // verus!
