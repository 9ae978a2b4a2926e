//! Calls about a job.

use vstd::prelude::*;

use crate::config::BranchConfig;
use crate::llm::types::ConflictOptionsDecision;
use crate::repo::{ConflictFileContent, ConflictSnapshot};
use crate::text::text_option;

verus! {

/// What is kept of the start of a job.
#[derive(Debug)]
pub struct SavedHeads {
    pub worktree_path: String,
    pub base_ref: String,
    pub before_head: String,
    pub base_head: String,
    pub remote_head: String,
}

/// The model of `SavedHeads`.
pub struct HeadsView {
    pub worktree_path: Seq<char>,
    pub base_ref: Seq<char>,
    pub before_head: Seq<char>,
    pub base_head: Seq<char>,
    pub remote_head: Seq<char>,
}

impl View for SavedHeads {
    type V = HeadsView;

    open spec fn view(&self) -> HeadsView {
        HeadsView {
            worktree_path: self.worktree_path@,
            base_ref: self.base_ref@,
            before_head: self.before_head@,
            base_head: self.base_head@,
            remote_head: self.remote_head@,
        }
    }
}

/// A step of the job that a run is about.
pub enum JobCall<'a> {
    /// Sets the state.
    SetState { state: String, summary: String },
    /// The settings.
    Settings,
    /// The settings of a branch.
    Branch { name: &'a str },
    /// Takes the lock of the repository.
    Lock,
    /// Gives the lock of the repository back.
    Unlock,
    /// What is wrong with the settings and the repository, as a text.
    Doctor,
    /// What is kept of the job.
    Load,
    /// Whether there is something at a path.
    WorktreeExists { path: String },
    /// The short form of a commit, where it can be read.
    OptionalRef { reference: String },
    /// Keeps where the job started.
    SaveHeads { heads: SavedHeads },
    /// Keeps what the tests printed.
    SaveTestOutput { output: String },
    /// Keeps that the job failed: its state with a summary, and what was printed.
    SaveFailure { state: String, summary: String, printed: Option<String> },
    /// Keeps the conflicts.
    SaveConflict { snapshot: &'a ConflictSnapshot, files: &'a Vec<ConflictFileContent> },
    /// Keeps that a person must decide: the state of the job, how risky it is, and the ways out.
    SaveGuidance {
        state: String,
        risk: String,
        summary: String,
        options: Option<&'a ConflictOptionsDecision>,
    },
    /// Adds an event.
    Emit { kind: String, message: String },
    /// Notifies of an event, unless that was done.
    NotifyOnce { event: String, subject: String, body: String },
    /// Removes the worktree.
    RemoveWorktree,
    /// Removes the worktree of a failed job.
    CleanupWorktree,
    /// Runs the checks and tests of a branch, with the reviews of the commits since a point.
    RunTests { branch: &'a BranchConfig, before_head: &'a str },
    /// Pushes a branch, and gives the tag of a release where one was pushed.
    PushJob { branch: &'a BranchConfig },
    /// Whether the end of the job was notified.
    WasNotified,
    /// Keeps that the end of the job was notified.
    RecordNotified,
}

/// The model of `JobCall`.
pub enum JobCallView {
    SetState { state: Seq<char>, summary: Seq<char> },
    Settings,
    Branch { name: Seq<char> },
    Lock,
    Unlock,
    Doctor,
    Load,
    WorktreeExists { path: Seq<char> },
    OptionalRef { reference: Seq<char> },
    SaveHeads { heads: HeadsView },
    SaveTestOutput { output: Seq<char> },
    SaveFailure { state: Seq<char>, summary: Seq<char>, printed: Option<Seq<char>> },
    SaveConflict { snapshot: ConflictSnapshot, files: Vec<ConflictFileContent> },
    SaveGuidance {
        state: Seq<char>,
        risk: Seq<char>,
        summary: Seq<char>,
        options: Option<ConflictOptionsDecision>,
    },
    Emit { kind: Seq<char>, message: Seq<char> },
    NotifyOnce { event: Seq<char>, subject: Seq<char>, body: Seq<char> },
    RemoveWorktree,
    CleanupWorktree,
    RunTests { branch: BranchConfig, before_head: Seq<char> },
    PushJob { branch: BranchConfig },
    WasNotified,
    RecordNotified,
}

impl<'a> View for JobCall<'a> {
    type V = JobCallView;

    open spec fn view(&self) -> JobCallView {
        match *self {
            JobCall::SetState { state, summary } => JobCallView::SetState {
                state: state@,
                summary: summary@,
            },
            JobCall::Settings => JobCallView::Settings,
            JobCall::Branch { name } => JobCallView::Branch {
                name: name@,
            },
            JobCall::Lock => JobCallView::Lock,
            JobCall::Unlock => JobCallView::Unlock,
            JobCall::Doctor => JobCallView::Doctor,
            JobCall::Load => JobCallView::Load,
            JobCall::WorktreeExists { path } => JobCallView::WorktreeExists {
                path: path@,
            },
            JobCall::OptionalRef { reference } => JobCallView::OptionalRef {
                reference: reference@,
            },
            JobCall::SaveHeads { heads } => JobCallView::SaveHeads {
                heads: heads@,
            },
            JobCall::SaveTestOutput { output } => JobCallView::SaveTestOutput {
                output: output@,
            },
            JobCall::SaveFailure { state, summary, printed } => JobCallView::SaveFailure {
                state: state@,
                summary: summary@,
                printed: text_option(printed),
            },
            JobCall::SaveConflict { snapshot, files } => JobCallView::SaveConflict {
                snapshot: *snapshot,
                files: *files,
            },
            JobCall::SaveGuidance { state, risk, summary, options } => JobCallView::SaveGuidance {
                state: state@,
                risk: risk@,
                summary: summary@,
                options: match options {
                    Some(found) => Some(*found),
                    None => None,
                },
            },
            JobCall::Emit { kind, message } => JobCallView::Emit {
                kind: kind@,
                message: message@,
            },
            JobCall::NotifyOnce { event, subject, body } => JobCallView::NotifyOnce {
                event: event@,
                subject: subject@,
                body: body@,
            },
            JobCall::RemoveWorktree => JobCallView::RemoveWorktree,
            JobCall::CleanupWorktree => JobCallView::CleanupWorktree,
            JobCall::RunTests { branch, before_head } => JobCallView::RunTests {
                branch: *branch,
                before_head: before_head@,
            },
            JobCall::PushJob { branch } => JobCallView::PushJob {
                branch: *branch,
            },
            JobCall::WasNotified => JobCallView::WasNotified,
            JobCall::RecordNotified => JobCallView::RecordNotified,
        }
    }
}

} // verus!
