//! Calls of git.

use vstd::prelude::*;

use crate::config::SyncStrategy;
use crate::text::texts;

verus! {

/// A question to git, or a command for it.
pub enum GitCall<'a> {
    /// Checks that there is a repository.
    EnsureRepo,
    /// Sets up the remotes.
    EnsureRemotes,
    /// Fetches all remotes.
    FetchAll,
    /// Fetches one branch.
    FetchBranch { remote: &'a str, branch: &'a str },
    /// The commit of a remote branch, where there is one.
    RemoteHead { remote: &'a str, branch: &'a str },
    /// Checks a branch out at a given start.
    CheckoutAt { branch: &'a str, start: String },
    /// Checks a branch out.
    Checkout { branch: &'a str },
    /// The commit that is checked out.
    Head,
    /// The short form of a commit.
    ShortRef { name: String },
    /// The last commit that two references share, where there is one.
    MergeBase { left: String, right: String },
    /// The commits of a range, one line each, up to a limit.
    Log { range: String, limit: usize },
    /// The files that a range changes, up to a limit.
    ChangedFiles { range: String, limit: usize },
    /// Rebases onto a reference.
    Rebase { base: String },
    /// Merges a reference.
    Merge { base: String },
    /// Goes on with a rebase or merge that stopped.
    Continue { strategy: SyncStrategy },
    /// Gives a rebase or merge up.
    Abort,
    /// What a rebase or merge stopped on, up to a number of bytes.
    Snapshot { limit: usize },
    /// The files in conflict, up to a number of bytes.
    ConflictFiles { files: &'a Vec<String>, limit: usize },
    /// The patch that a rebase or merge stopped on, up to a number of bytes.
    PatchContext { limit: usize },
    /// Writes a file of the tree.
    WriteFile { path: String, content: String },
    /// Stages a file.
    AddFile { path: String },
    /// Runs a test command.
    Test { command: &'a str, sandboxed: bool },
    /// Pushes a branch.
    Push { remote: &'a str, branch: &'a str },
    /// Pushes a branch with force, provided that the remote branch is at a given commit.
    PushWithLease { remote: &'a str, branch: &'a str, expected: &'a str },
    /// Whether there is a local branch.
    LocalBranchExists { branch: &'a str },
    /// Whether there is a reference.
    RefExists { name: String },
    /// Whether there is a remote branch.
    RemoteBranchExists { remote: &'a str, branch: &'a str },
    /// How far a branch and a reference are apart.
    AheadBehind { branch: &'a str, other: String },
    /// The patch between two points, up to a number of bytes.
    RangePatch { from: String, to: String, limit: usize },
    /// Any other command.
    Run { args: Vec<String> },
}

/// The model of `GitCall`.
pub enum GitView {
    EnsureRepo,
    EnsureRemotes,
    FetchAll,
    FetchBranch { remote: Seq<char>, branch: Seq<char> },
    RemoteHead { remote: Seq<char>, branch: Seq<char> },
    CheckoutAt { branch: Seq<char>, start: Seq<char> },
    Checkout { branch: Seq<char> },
    Head,
    ShortRef { name: Seq<char> },
    MergeBase { left: Seq<char>, right: Seq<char> },
    Log { range: Seq<char>, limit: usize },
    ChangedFiles { range: Seq<char>, limit: usize },
    Rebase { base: Seq<char> },
    Merge { base: Seq<char> },
    Continue { strategy: SyncStrategy },
    Abort,
    Snapshot { limit: usize },
    ConflictFiles { files: Seq<Seq<char>>, limit: usize },
    PatchContext { limit: usize },
    WriteFile { path: Seq<char>, content: Seq<char> },
    AddFile { path: Seq<char> },
    Test { command: Seq<char>, sandboxed: bool },
    Push { remote: Seq<char>, branch: Seq<char> },
    PushWithLease { remote: Seq<char>, branch: Seq<char>, expected: Seq<char> },
    LocalBranchExists { branch: Seq<char> },
    RefExists { name: Seq<char> },
    RemoteBranchExists { remote: Seq<char>, branch: Seq<char> },
    AheadBehind { branch: Seq<char>, other: Seq<char> },
    RangePatch { from: Seq<char>, to: Seq<char>, limit: usize },
    Run { args: Seq<Seq<char>> },
}

impl<'a> View for GitCall<'a> {
    type V = GitView;

    open spec fn view(&self) -> GitView {
        match *self {
            GitCall::EnsureRepo => GitView::EnsureRepo,
            GitCall::EnsureRemotes => GitView::EnsureRemotes,
            GitCall::FetchAll => GitView::FetchAll,
            GitCall::FetchBranch { remote, branch } => GitView::FetchBranch {
                remote: remote@,
                branch: branch@,
            },
            GitCall::RemoteHead { remote, branch } => GitView::RemoteHead {
                remote: remote@,
                branch: branch@,
            },
            GitCall::CheckoutAt { branch, start } => GitView::CheckoutAt {
                branch: branch@,
                start: start@,
            },
            GitCall::Checkout { branch } => GitView::Checkout {
                branch: branch@,
            },
            GitCall::Head => GitView::Head,
            GitCall::ShortRef { name } => GitView::ShortRef {
                name: name@,
            },
            GitCall::MergeBase { left, right } => GitView::MergeBase {
                left: left@,
                right: right@,
            },
            GitCall::Log { range, limit } => GitView::Log {
                range: range@,
                limit,
            },
            GitCall::ChangedFiles { range, limit } => GitView::ChangedFiles {
                range: range@,
                limit,
            },
            GitCall::Rebase { base } => GitView::Rebase {
                base: base@,
            },
            GitCall::Merge { base } => GitView::Merge {
                base: base@,
            },
            GitCall::Continue { strategy } => GitView::Continue {
                strategy,
            },
            GitCall::Abort => GitView::Abort,
            GitCall::Snapshot { limit } => GitView::Snapshot {
                limit,
            },
            GitCall::ConflictFiles { files, limit } => GitView::ConflictFiles {
                files: texts(files@),
                limit,
            },
            GitCall::PatchContext { limit } => GitView::PatchContext {
                limit,
            },
            GitCall::WriteFile { path, content } => GitView::WriteFile {
                path: path@,
                content: content@,
            },
            GitCall::AddFile { path } => GitView::AddFile {
                path: path@,
            },
            GitCall::Test { command, sandboxed } => GitView::Test {
                command: command@,
                sandboxed,
            },
            GitCall::Push { remote, branch } => GitView::Push {
                remote: remote@,
                branch: branch@,
            },
            GitCall::PushWithLease { remote, branch, expected } => GitView::PushWithLease {
                remote: remote@,
                branch: branch@,
                expected: expected@,
            },
            GitCall::LocalBranchExists { branch } => GitView::LocalBranchExists {
                branch: branch@,
            },
            GitCall::RefExists { name } => GitView::RefExists {
                name: name@,
            },
            GitCall::RemoteBranchExists { remote, branch } => GitView::RemoteBranchExists {
                remote: remote@,
                branch: branch@,
            },
            GitCall::AheadBehind { branch, other } => GitView::AheadBehind {
                branch: branch@,
                other: other@,
            },
            GitCall::RangePatch { from, to, limit } => GitView::RangePatch {
                from: from@,
                to: to@,
                limit,
            },
            GitCall::Run { args } => GitView::Run {
                args: texts(args@),
            },
        }
    }
}

} // verus!
