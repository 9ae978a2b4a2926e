//! What the service keeps.

use vstd::prelude::*;

verus! {

/// What is kept of a job: the reference it syncs with, and where branch, base and remote branch
/// were when it started. Without a remote branch that text is empty.
#[derive(Debug)]
pub struct JobView {
    pub base_ref: String,
    pub before_head: String,
    pub base_head: String,
    pub remote_head: String,
}

} // verus!
