//! Calls about conflicts.

use vstd::prelude::*;

use crate::config::BranchConfig;
use crate::repo::{CommandOutput, ConflictFileContent, ConflictResolution, ResolvedFile};
use crate::text::texts;

verus! {

/// A step in the handling of conflicts.
pub enum ConflictCall<'a> {
    /// The conflicts in files.
    Blocks { files: &'a Vec<ConflictFileContent> },
    /// Puts resolutions in the place of the conflicts in files.
    Resolve { files: &'a Vec<ConflictFileContent>, resolutions: &'a Vec<ConflictResolution> },
    /// Checks resolved files against the paths in conflict.
    Validate { resolved: &'a Vec<ResolvedFile>, paths: &'a Vec<String> },
    /// The conflicts of the worktree of a branch, with the files.
    Capture { branch: &'a BranchConfig },
    /// Goes on with a sync that stopped without conflicts, as long as resolutions are staged.
    ContinueStaged { branch: &'a BranchConfig, reason: String, first: &'a CommandOutput },
}

/// The model of `ConflictCall`.
pub enum ConflictView {
    Blocks { files: Vec<ConflictFileContent> },
    Resolve { files: Vec<ConflictFileContent>, resolutions: Vec<ConflictResolution> },
    Validate { resolved: Vec<ResolvedFile>, paths: Seq<Seq<char>> },
    Capture { branch: BranchConfig },
    ContinueStaged { branch: BranchConfig, reason: Seq<char>, first: CommandOutput },
}

impl<'a> View for ConflictCall<'a> {
    type V = ConflictView;

    open spec fn view(&self) -> ConflictView {
        match *self {
            ConflictCall::Blocks { files } => ConflictView::Blocks {
                files: *files,
            },
            ConflictCall::Resolve { files, resolutions } => ConflictView::Resolve {
                files: *files,
                resolutions: *resolutions,
            },
            ConflictCall::Validate { resolved, paths } => ConflictView::Validate {
                resolved: *resolved,
                paths: texts(paths@),
            },
            ConflictCall::Capture { branch } => ConflictView::Capture {
                branch: *branch,
            },
            ConflictCall::ContinueStaged { branch, reason, first } => ConflictView::ContinueStaged {
                branch: *branch,
                reason: reason@,
                first: *first,
            },
        }
    }
}

} // verus!
