//! What the machine-local database keeps about recently opened projects.
use vstd::prelude::*;

verus! {

/// A recently opened project, as listed on the start screen.
#[derive(Debug, Clone)]
pub struct RecentProject {
    pub project_id: String,
    pub title: String,
    pub path: String,
    pub updated_at: String,
    pub missing: bool,
}

} // verus!
