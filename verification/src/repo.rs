//! What a repository reports.

use vstd::prelude::*;

use crate::text::texts;

verus! {

/// The end of a command.
#[derive(Debug, Clone)]
pub struct CommandOutput {
    pub status: i32,
    pub stdout: String,
    pub stderr: String,
}

impl CommandOutput {
    /// Whether a command ended well: with exit status 0.
    pub open spec fn succeeded(&self) -> bool {
        self.status == 0
    }

    /// Whether the command ended well.
    pub fn success(&self) -> (r: bool)
        ensures
            r == self.succeeded(),
    {
        self.status == 0
    }
}

/// A working tree that stopped on conflicts.
#[derive(Debug, Clone)]
pub struct ConflictSnapshot {
    pub status: String,
    pub files: Vec<String>,
    pub combined_diff: String,
}

/// The model of a conflict snapshot.
pub struct SnapshotView {
    pub status: Seq<char>,
    pub files: Seq<Seq<char>>,
    pub combined_diff: Seq<char>,
}

impl View for ConflictSnapshot {
    type V = SnapshotView;

    open spec fn view(&self) -> SnapshotView {
        SnapshotView {
            status: self.status@,
            files: texts(self.files@),
            combined_diff: self.combined_diff@,
        }
    }
}

impl ConflictSnapshot {
    /// A copy of the snapshot.
    pub fn copy(&self) -> (r: ConflictSnapshot)
        ensures
            r@ == self@,
    {
        ConflictSnapshot {
            status: self.status.clone(),
            files: crate::text::copy_texts(&self.files),
            combined_diff: self.combined_diff.clone(),
        }
    }
}

/// The patch that a sync stopped on.
#[derive(Debug, Clone)]
pub struct SyncPatchContext {
    pub mode: String,
    pub current_patch: String,
}

/// The model of a patch that a sync stopped on.
pub struct PatchView {
    pub mode: Seq<char>,
    pub current_patch: Seq<char>,
}

impl View for SyncPatchContext {
    type V = PatchView;

    open spec fn view(&self) -> PatchView {
        PatchView { mode: self.mode@, current_patch: self.current_patch@ }
    }
}

impl SyncPatchContext {
    /// Nothing known of the patch.
    pub open spec fn unknown() -> PatchView {
        PatchView { mode: Seq::empty(), current_patch: Seq::empty() }
    }

    /// A copy of the context.
    pub fn copy(&self) -> (r: SyncPatchContext)
        ensures
            r@ == self@,
    {
        SyncPatchContext { mode: self.mode.clone(), current_patch: self.current_patch.clone() }
    }
}

impl Default for SyncPatchContext {
    fn default() -> (r: SyncPatchContext)
        ensures
            r@ == SyncPatchContext::unknown(),
    {
        let r = SyncPatchContext { mode: String::new(), current_patch: String::new() };
        assert(r.mode@ =~= Seq::<char>::empty());
        assert(r.current_patch@ =~= Seq::<char>::empty());
        r
    }
}

/// A file with conflict marks in it.
#[derive(Debug, Clone)]
pub struct ConflictFileContent {
    pub path: String,
    pub content: String,
}

/// How many commits two references are apart.
#[derive(Debug, Clone, Copy)]
pub struct AheadBehind {
    pub ahead: usize,
    pub behind: usize,
}

/// One conflict in a file, and the digest by which its resolution must name it.
#[derive(Debug, Clone)]
pub struct ConflictBlock {
    pub path: String,
    pub id: String,
    pub expected_sha256: String,
}

/// The conflicts in files: each one, all of them as an indented JSON text, and the number of bytes
/// of their compact JSON text.
#[derive(Debug)]
pub struct ConflictBlocks {
    pub blocks: Vec<ConflictBlock>,
    pub rendered: String,
    pub payload_bytes: usize,
}

/// The conflicts of a worktree and the files that hold them.
#[derive(Debug)]
pub struct CapturedConflict {
    pub snapshot: ConflictSnapshot,
    pub files: Vec<ConflictFileContent>,
}

/// How going on with a sync ended that had stopped without conflicts.
#[derive(Debug)]
pub enum AutoResolvedSync {
    Completed,
    Conflict(CapturedConflict),
    Failed(String),
}

/// What is at a path: whether it is a regular file, and whether it is a symbolic link.
#[derive(Debug, Clone, Copy)]
pub struct FileFacts {
    pub is_file: bool,
    pub is_symlink: bool,
}

/// The head of an answer to a request over the net: whether its status is 200, the status as it is
/// shown, and the length that it announces.
#[derive(Debug)]
pub struct ResponseFacts {
    pub is_ok: bool,
    pub status: String,
    pub content_length: Option<u64>,
}

/// What one conflict is to be replaced by.
#[derive(Debug, Clone)]
pub struct ConflictResolution {
    pub path: String,
    pub conflict_id: String,
    pub expected_sha256: String,
    pub replacement: String,
}

/// A file without conflict marks.
#[derive(Debug, Clone)]
pub struct ResolvedFile {
    pub path: String,
    pub content: String,
}

} // verus!
