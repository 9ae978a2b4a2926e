//! Calls in the investigation of a signal.

use vstd::prelude::*;

use crate::protection::types::{
    ArtifactView, CandidateArtifact, DeliveryDraft, FindingView, PlanView, ProtectionFinding,
    RemediationPlan, SecuritySignal, SignalView, VerificationResult, VerificationView,
};

verus! {

/// The model of a candidate, where there is one.
pub open spec fn artifact_option(candidate: Option<CandidateArtifact>) -> Option<ArtifactView> {
    match candidate {
        Some(c) => Some(c@),
        None => None,
    }
}

/// The model of a verification, where there is one.
pub open spec fn verification_option(verification: Option<VerificationResult>) -> Option<
    VerificationView,
> {
    match verification {
        Some(v) => Some(v@),
        None => None,
    }
}

/// A step in the investigation of a signal.
pub enum SignalCall<'a> {
    /// The content of the lock file of the project, where it has one.
    ReadLock,
    /// What is at a path of the project.
    Inspect { path: String },
    /// Whether a file of the project lies inside it once links are followed.
    IsInside { path: String },
    /// The bytes of a file of the project.
    Read { path: String },
    /// Opens the store, in a directory that is created.
    OpenStore,
    /// The time.
    Now,
    /// A name that was never used.
    NewId,
    /// Keeps a signal.
    SaveSignal { signal: SecuritySignal },
    /// Keeps a finding.
    SaveFinding { finding: ProtectionFinding },
    /// Keeps a plan.
    SavePlan { plan: RemediationPlan },
    /// Keeps a candidate.
    SaveCandidate { candidate: CandidateArtifact },
    /// Keeps whether a candidate holds.
    SaveVerification { verification: VerificationResult },
    /// Creates the directory that holds a worktree.
    PrepareWorktree { worktree: String },
    /// Whether a worktree is there.
    WorktreeIsDir { worktree: String },
    /// Prepares a draft on a finding for the repository that a remote names, where it names one.
    Draft { remote: &'a str, finding: ProtectionFinding, artifact: Option<CandidateArtifact>, outcome: Option<VerificationResult> },
    /// Keeps a draft.
    SaveDraft { draft: &'a DeliveryDraft },
}

/// The model of `SignalCall`.
pub enum SignalCallView {
    ReadLock,
    Inspect { path: Seq<char> },
    IsInside { path: Seq<char> },
    Read { path: Seq<char> },
    OpenStore,
    Now,
    NewId,
    SaveSignal { signal: SignalView },
    SaveFinding { finding: FindingView },
    SavePlan { plan: PlanView },
    SaveCandidate { candidate: ArtifactView },
    SaveVerification { verification: VerificationView },
    PrepareWorktree { worktree: Seq<char> },
    WorktreeIsDir { worktree: Seq<char> },
    Draft { remote: Seq<char>, finding: FindingView, artifact: Option<ArtifactView>, outcome: Option<VerificationView> },
    SaveDraft { draft: DeliveryDraft },
}

impl<'a> View for SignalCall<'a> {
    type V = SignalCallView;

    open spec fn view(&self) -> SignalCallView {
        match *self {
            SignalCall::ReadLock => SignalCallView::ReadLock,
            SignalCall::Inspect { path } => SignalCallView::Inspect {
                path: path@,
            },
            SignalCall::IsInside { path } => SignalCallView::IsInside {
                path: path@,
            },
            SignalCall::Read { path } => SignalCallView::Read {
                path: path@,
            },
            SignalCall::OpenStore => SignalCallView::OpenStore,
            SignalCall::Now => SignalCallView::Now,
            SignalCall::NewId => SignalCallView::NewId,
            SignalCall::SaveSignal { signal } => SignalCallView::SaveSignal {
                signal: signal@,
            },
            SignalCall::SaveFinding { finding } => SignalCallView::SaveFinding {
                finding: finding@,
            },
            SignalCall::SavePlan { plan } => SignalCallView::SavePlan {
                plan: plan@,
            },
            SignalCall::SaveCandidate { candidate } => SignalCallView::SaveCandidate {
                candidate: candidate@,
            },
            SignalCall::SaveVerification { verification } => SignalCallView::SaveVerification {
                verification: verification@,
            },
            SignalCall::PrepareWorktree { worktree } => SignalCallView::PrepareWorktree {
                worktree: worktree@,
            },
            SignalCall::WorktreeIsDir { worktree } => SignalCallView::WorktreeIsDir {
                worktree: worktree@,
            },
            SignalCall::Draft { remote, finding, artifact, outcome } => SignalCallView::Draft {
                remote: remote@,
                finding: finding@,
                artifact: artifact_option(artifact),
                outcome: verification_option(outcome),
            },
            SignalCall::SaveDraft { draft } => SignalCallView::SaveDraft {
                draft: *draft,
            },
        }
    }
}

} // verus!
