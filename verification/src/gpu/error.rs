//! Errors of setting up the GPU color pipeline.

use vstd::prelude::*;
use vstd::string::StringExecFns;

verus! {

/// Why the GPU color pipeline could not be set up.
#[derive(Debug, PartialEq, Eq)]
pub enum GpuError {
    /// No compatible adapter exists.
    NoAdapter,
    /// The adapter refused a device; the text says why.
    RequestDevice(String),
}

impl GpuError {
    /// What the error says.
    pub open spec fn message_text(&self) -> Seq<char> {
        match self {
            GpuError::NoAdapter => "no compatible GPU adapter available"@,
            GpuError::RequestDevice(m) => "failed to request device: "@ + m@,
        }
    }

    /// What the error says.
    pub fn message(&self) -> (s: String)
        ensures
            s@ == self.message_text(),
    {
        match self {
            GpuError::NoAdapter => String::from_str("no compatible GPU adapter available"),
            GpuError::RequestDevice(m) => {
                let mut s = String::from_str("failed to request device: ");
                s.append(m.as_str());
                s
            },
        }
    }
}

} // verus!
