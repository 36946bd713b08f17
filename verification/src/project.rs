//! Versioning of saved projects.

use vstd::prelude::*;

verus! {

/// Version tag stored alongside serialized projects.
#[derive(Debug, Clone, Copy, PartialEq, Eq, Structural)]
pub struct ProjectVersion(pub u32);

/// The current project format version.
pub const CURRENT_PROJECT_VERSION: u32 = 1;

impl Default for ProjectVersion {
    fn default() -> (v: Self)
        ensures
            v == ProjectVersion(CURRENT_PROJECT_VERSION),
    {
        ProjectVersion(CURRENT_PROJECT_VERSION)
    }
}

/// The version a loaded project has after its in-memory upgrade: versions older
/// than the current one are migrated to it; others are kept.
pub fn upgrade_version(version: ProjectVersion) -> (v: ProjectVersion)
    ensures
        v == if version.0 < CURRENT_PROJECT_VERSION {
            ProjectVersion(CURRENT_PROJECT_VERSION)
        } else {
            version
        },
        v.0 >= CURRENT_PROJECT_VERSION,
{
    if version.0 < ProjectVersion::default().0 {
        ProjectVersion::default()
    } else {
        version
    }
}

} // verus!
