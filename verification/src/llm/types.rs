//! What the language model is asked and what it answers.

use vstd::prelude::*;

use crate::protection::dependency::graph::CargoReachabilitySnapshot;
use crate::protection::types::FixContract;
use crate::repo::{
    ConflictFileContent, ConflictResolution, ConflictSnapshot, ResolvedFile, SnapshotView,
    SyncPatchContext,
};
use crate::text::text_option;

verus! {

/// A commit that is to be reviewed.
#[derive(Debug)]
pub struct SecurityReviewRequest {
    pub project: String,
    pub project_description: String,
    pub profiles: Vec<String>,
    pub commit: String,
    pub patch: String,
}

/// A contract that is to be verified.
#[derive(Debug)]
pub struct SecurityContractVerificationRequest {
    pub project: String,
    pub commit: String,
    pub contract: FixContract,
    pub final_patch: String,
    pub test_commands: Vec<String>,
    pub test_output: String,
}

/// A signal for which files are to be chosen.
#[derive(Debug)]
pub struct SignalFileSelectionRequest {
    pub project: String,
    pub project_description: String,
    pub signal_summary: String,
    pub signal_reference: Option<String>,
    pub signal_content: String,
    pub tracked_files: Vec<String>,
    pub cargo_reachability: Option<CargoReachabilitySnapshot>,
}

/// A signal that is to be judged.
#[derive(Debug)]
pub struct SignalInvestigationRequest {
    pub project: String,
    pub project_description: String,
    pub signal_summary: String,
    pub signal_reference: Option<String>,
    pub signal_content: String,
    pub file_evidence: Vec<(String, String)>,
    pub cargo_reachability: Option<CargoReachabilitySnapshot>,
}

/// What the prompts say of a signal, and what the project reaches.
pub struct SignalFacts {
    pub project: Seq<char>,
    pub project_description: Seq<char>,
    pub summary: Seq<char>,
    pub reference: Option<Seq<char>>,
    pub content: Seq<char>,
    pub reachability: Option<CargoReachabilitySnapshot>,
}

impl SignalFileSelectionRequest {
    /// What the request says of the signal.
    pub open spec fn facts(&self) -> SignalFacts {
        SignalFacts {
            project: self.project@,
            project_description: self.project_description@,
            summary: self.signal_summary@,
            reference: text_option(self.signal_reference),
            content: self.signal_content@,
            reachability: self.cargo_reachability,
        }
    }
}

/// The models of a list of files with their contents.
pub open spec fn file_views(files: Seq<(String, String)>) -> Seq<(Seq<char>, Seq<char>)> {
    files.map_values(|f: (String, String)| (f.0@, f.1@))
}

impl SignalInvestigationRequest {
    /// What the request says of the signal.
    pub open spec fn facts(&self) -> SignalFacts {
        SignalFacts {
            project: self.project@,
            project_description: self.project_description@,
            summary: self.signal_summary@,
            reference: text_option(self.signal_reference),
            content: self.signal_content@,
            reachability: self.cargo_reachability,
        }
    }
}

/// A conflict that is to be explained.
#[derive(Debug)]
pub struct ConflictAnalysisRequest<'a> {
    pub branch: String,
    pub base: String,
    pub branch_note: Option<String>,
    pub patch_context: SyncPatchContext,
    pub snapshot: &'a ConflictSnapshot,
}

/// A conflict that is to be resolved.
#[derive(Debug)]
pub struct AutoResolveConflictRequest<'a> {
    pub branch: String,
    pub base: String,
    pub branch_note: Option<String>,
    pub patch_context: SyncPatchContext,
    pub snapshot: &'a ConflictSnapshot,
    pub files: &'a Vec<ConflictFileContent>,
}

/// What a prompt says of a conflict.
pub struct ConflictFacts {
    pub branch: Seq<char>,
    pub base: Seq<char>,
    pub branch_note: Option<Seq<char>>,
    pub mode: Seq<char>,
    pub current_patch: Seq<char>,
    pub snapshot: SnapshotView,
}

impl<'a> View for ConflictAnalysisRequest<'a> {
    type V = ConflictFacts;

    open spec fn view(&self) -> ConflictFacts {
        ConflictFacts {
            branch: self.branch@,
            base: self.base@,
            branch_note: text_option(self.branch_note),
            mode: self.patch_context.mode@,
            current_patch: self.patch_context.current_patch@,
            snapshot: self.snapshot@,
        }
    }
}

impl<'a> View for AutoResolveConflictRequest<'a> {
    type V = ConflictFacts;

    open spec fn view(&self) -> ConflictFacts {
        ConflictFacts {
            branch: self.branch@,
            base: self.base@,
            branch_note: text_option(self.branch_note),
            mode: self.patch_context.mode@,
            current_patch: self.patch_context.current_patch@,
            snapshot: self.snapshot@,
        }
    }
}

/// How a conflict is to be resolved, and how risky that is.
#[derive(Debug)]
pub struct AutoResolveDecision {
    pub risk: String,
    pub summary: String,
    pub resolutions: Vec<ConflictResolution>,
}

/// One way out of a conflict.
#[derive(Debug)]
pub struct ConflictOption {
    pub id: String,
    pub title: String,
    pub description: String,
    pub tradeoffs: String,
}

/// The ways out of a conflict.
#[derive(Debug)]
pub struct ConflictOptionsDecision {
    pub classification: String,
    pub summary: String,
    pub options: Vec<ConflictOption>,
}

/// A resolution of a conflict as whole files.
#[derive(Debug)]
pub struct ConflictProposal {
    pub summary: String,
    pub files: Vec<ResolvedFile>,
}

/// A resolution of a conflict that a person chose.
#[derive(Debug)]
pub struct ConflictResolutionProposal {
    pub summary: String,
    pub resolutions: Vec<ConflictResolution>,
}

} // verus!
