//! The forward-compatibility guard applied to projects read from files.

use vstd::prelude::*;
use vstd::string::StringExecFns;

use crate::text::{decimal, push_decimal};
use crate::timeline::error::CoreError;
use crate::timeline::model::{Project, PROJECT_FORMAT_VERSION};

verus! {

/// The message given for a project file newer than this build.
pub open spec fn newer_version_message(version: u32) -> Seq<char> {
    "project format version "@ + decimal(version as nat) + " is newer than supported version "@
        + decimal(PROJECT_FORMAT_VERSION as nat)
}

/// Accepts a project read from a file unless its format version is newer
/// than the one this build supports.
pub fn check_format_version(project: Project) -> (r: Result<Project, CoreError>)
    ensures
        project.format_version <= PROJECT_FORMAT_VERSION ==> (r matches Ok(p) && p@ == project@),
        project.format_version > PROJECT_FORMAT_VERSION ==> (r matches Err(CoreError::Serde(m))
            && m@ == newer_version_message(project.format_version)),
{
    if project.format_version > PROJECT_FORMAT_VERSION {
        let mut m = String::from_str("project format version ");
        push_decimal(&mut m, project.format_version as u64);
        m.append(" is newer than supported version ");
        push_decimal(&mut m, PROJECT_FORMAT_VERSION as u64);
        return Err(CoreError::Serde(m));
    }
    Ok(project)
}

} // verus!
