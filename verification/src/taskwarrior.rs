//! The task record shape used when supplementary task metadata is fetched
//! for display. Fetching itself is the caller's work.

use vstd::prelude::*;

verus! {

/// One task's metadata.
#[derive(Debug, Clone)]
pub struct Task {
    pub uuid: String,
    pub description: String,
    pub project: String,
    pub tags: Option<Vec<String>>,
    pub trellourl: Option<String>,
    pub githuburl: Option<String>,
}

/// The placeholder label shown for a task that names no project.
pub fn default_project() -> (s: String)
    ensures
        s@ == "---"@,
{
    "---".to_owned()
}

} // verus!
