//! Calls of the protection rules and of the release rules.

use vstd::prelude::*;

use crate::protection::types::{BatchView, CommitSecurityReviewBatch};
use crate::text::texts;

verus! {

/// A check of the protection rules.
pub enum ProtectionCall<'a> {
    /// Checks the files before anything is built.
    Gate,
    /// Reviews the commits between two points; there may be none.
    Reviews { from: String, to: String },
    /// Checks that reviews let the work go on.
    CanProceed { batch: &'a CommitSecurityReviewBatch },
    /// Verifies the contracts of reviews against what the tests printed.
    VerifyContracts { batch: &'a CommitSecurityReviewBatch, tests: &'a Vec<String>, output: String },
    /// Verifies the contract of a candidate against what the tests printed.
    VerifySignalContract { evaluated: CommitSecurityReviewBatch, tests: &'a Vec<String>, output: String },
    /// The fingerprint of the protection settings.
    PolicyFingerprint,
    /// Pushes the tag of a release of a branch to a remote, where one is due.
    ReleaseTag { remote: &'a str, branch: &'a str },
}

/// The model of `ProtectionCall`.
pub enum ProtectionView {
    Gate,
    Reviews { from: Seq<char>, to: Seq<char> },
    CanProceed { batch: CommitSecurityReviewBatch },
    VerifyContracts { batch: CommitSecurityReviewBatch, tests: Seq<Seq<char>>, output: Seq<char> },
    VerifySignalContract { evaluated: BatchView, tests: Seq<Seq<char>>, output: Seq<char> },
    PolicyFingerprint,
    ReleaseTag { remote: Seq<char>, branch: Seq<char> },
}

impl<'a> View for ProtectionCall<'a> {
    type V = ProtectionView;

    open spec fn view(&self) -> ProtectionView {
        match *self {
            ProtectionCall::Gate => ProtectionView::Gate,
            ProtectionCall::Reviews { from, to } => ProtectionView::Reviews {
                from: from@,
                to: to@,
            },
            ProtectionCall::CanProceed { batch } => ProtectionView::CanProceed {
                batch: *batch,
            },
            ProtectionCall::VerifyContracts { batch, tests, output } => ProtectionView::VerifyContracts {
                batch: *batch,
                tests: texts(tests@),
                output: output@,
            },
            ProtectionCall::VerifySignalContract { evaluated, tests, output } => ProtectionView::VerifySignalContract {
                evaluated: evaluated@,
                tests: texts(tests@),
                output: output@,
            },
            ProtectionCall::PolicyFingerprint => ProtectionView::PolicyFingerprint,
            ProtectionCall::ReleaseTag { remote, branch } => ProtectionView::ReleaseTag {
                remote: remote@,
                branch: branch@,
            },
        }
    }
}

} // verus!
