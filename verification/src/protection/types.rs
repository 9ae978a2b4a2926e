//! What security handling reads and writes.

use vstd::prelude::*;

use crate::text::{copy_texts, text_option, texts};

verus! {

/// How severe a finding is.
#[derive(Debug, Clone, Copy, PartialEq, Eq, Structural)]
pub enum SecuritySeverity {
    P0,
    P1,
    P2,
    P3,
    Informational,
}

/// How sure a judgement is.
#[derive(Debug, Clone, Copy, PartialEq, Eq, Structural)]
pub enum SecurityConfidence {
    High,
    Medium,
    Low,
}

/// The kind of a weakness.
#[derive(Debug, Clone, Copy, PartialEq, Eq, Structural)]
pub enum SecurityCategory {
    RemoteCodeExecution,
    CommandInjection,
    CodeInjection,
    ServerSideRequestForgery,
    AuthenticationBypass,
    AuthorizationBypass,
    SignatureBypass,
    ProofVerificationBypass,
    ArbitraryFileRead,
    ArbitraryFileWrite,
    PathTraversal,
    UnsafeDeserialization,
    SecretOrKeyDisclosure,
    SupplyChainMalware,
    ConsensusSafety,
    UnauthorizedUpgrade,
    PermanentServiceHalt,
    ResourceExhaustion,
    InformationDisclosure,
    Other,
}

/// What is recommended against a weakness.
#[derive(Debug, Clone, Copy, PartialEq, Eq, Structural)]
pub enum RemediationAction {
    KeepCurrent,
    PinVersion,
    ApplyUpstreamPatch,
    UpgradeVersion,
    LocalSecurityPatch,
    ConfigurationMitigation,
    DisableFeature,
}

/// What becomes of a reviewed change. Dispositions that no rule here tells apart are kept by their
/// label.
#[derive(Debug)]
pub enum SecurityDisposition {
    Allow,
    VerifyRequired,
    Other(String),
}

/// The model of `SecurityDisposition`.
pub enum DispositionView {
    Allow,
    VerifyRequired,
    Other(Seq<char>),
}

impl View for SecurityDisposition {
    type V = DispositionView;

    open spec fn view(&self) -> DispositionView {
        match *self {
            SecurityDisposition::Allow => DispositionView::Allow,
            SecurityDisposition::VerifyRequired => DispositionView::VerifyRequired,
            SecurityDisposition::Other(label) => DispositionView::Other(label@),
        }
    }
}

/// The label of a disposition.
pub open spec fn disposition_label(disposition: DispositionView) -> Seq<char> {
    match disposition {
        DispositionView::Allow => "Allow"@,
        DispositionView::VerifyRequired => "VerifyRequired"@,
        DispositionView::Other(label) => label,
    }
}

impl SecurityDisposition {
    /// The label of the disposition.
    pub fn label(&self) -> (r: String)
        ensures
            r@ == disposition_label(self@),
    {
        match self {
            SecurityDisposition::Allow => "Allow".to_owned(),
            SecurityDisposition::VerifyRequired => "VerifyRequired".to_owned(),
            SecurityDisposition::Other(label) => label.clone(),
        }
    }
}

/// The state of a finding.
#[derive(Debug, Clone, Copy, PartialEq, Eq, Structural)]
pub enum FindingState {
    Unaffected,
    Affected,
    Uncertain,
    AwaitingDelivery,
}

/// What a security fix must bring about.
#[derive(Debug)]
pub struct FixContract {
    pub security_property: String,
    pub vulnerable_behavior: String,
    pub fixed_behavior: String,
    pub attack_preconditions: Vec<String>,
    pub regression_cases: Vec<String>,
}

/// The model of `FixContract`.
pub struct ContractView {
    pub security_property: Seq<char>,
    pub vulnerable_behavior: Seq<char>,
    pub fixed_behavior: Seq<char>,
    pub attack_preconditions: Seq<Seq<char>>,
    pub regression_cases: Seq<Seq<char>>,
}

impl View for FixContract {
    type V = ContractView;

    open spec fn view(&self) -> ContractView {
        ContractView {
            security_property: self.security_property@,
            vulnerable_behavior: self.vulnerable_behavior@,
            fixed_behavior: self.fixed_behavior@,
            attack_preconditions: texts(self.attack_preconditions@),
            regression_cases: texts(self.regression_cases@),
        }
    }
}

impl FixContract {
    /// A copy of the contract.
    pub fn copy(&self) -> (r: FixContract)
        ensures
            r@ == self@,
    {
        FixContract {
            security_property: self.security_property.clone(),
            vulnerable_behavior: self.vulnerable_behavior.clone(),
            fixed_behavior: self.fixed_behavior.clone(),
            attack_preconditions: copy_texts(&self.attack_preconditions),
            regression_cases: copy_texts(&self.regression_cases),
        }
    }
}

/// The model of a contract, where there is one.
pub open spec fn contract_option(contract: Option<FixContract>) -> Option<ContractView> {
    match contract {
        Some(c) => Some(c@),
        None => None,
    }
}

/// The judgement on a change.
#[derive(Debug)]
pub struct SecurityReviewDecision {
    pub security_fix_detected: bool,
    pub introduced_risk: bool,
    pub severity: SecuritySeverity,
    pub categories: Vec<SecurityCategory>,
    pub affected: Option<bool>,
    pub production_reachable: Option<bool>,
    pub confidence: SecurityConfidence,
    pub summary: String,
    pub mechanism: String,
    pub evidence: Vec<String>,
    pub fix_contract: Option<FixContract>,
}

/// The model of `SecurityReviewDecision`.
pub struct ReviewView {
    pub security_fix_detected: bool,
    pub introduced_risk: bool,
    pub severity: SecuritySeverity,
    pub categories: Seq<SecurityCategory>,
    pub affected: Option<bool>,
    pub production_reachable: Option<bool>,
    pub confidence: SecurityConfidence,
    pub summary: Seq<char>,
    pub mechanism: Seq<char>,
    pub evidence: Seq<Seq<char>>,
    pub fix_contract: Option<ContractView>,
}

impl View for SecurityReviewDecision {
    type V = ReviewView;

    open spec fn view(&self) -> ReviewView {
        ReviewView {
            security_fix_detected: self.security_fix_detected,
            introduced_risk: self.introduced_risk,
            severity: self.severity,
            categories: self.categories@,
            affected: self.affected,
            production_reachable: self.production_reachable,
            confidence: self.confidence,
            summary: self.summary@,
            mechanism: self.mechanism@,
            evidence: texts(self.evidence@),
            fix_contract: contract_option(self.fix_contract),
        }
    }
}

impl SecurityReviewDecision {
    /// A copy of the judgement.
    pub fn copy(&self) -> (r: SecurityReviewDecision)
        ensures
            r@ == self@,
    {
        let mut categories: Vec<SecurityCategory> = Vec::new();
        let mut i: usize = 0;
        while i < self.categories.len()
            invariant
                i <= self.categories@.len(),
                categories@ == self.categories@.take(i as int),
            decreases self.categories@.len() - i,
        {
            categories.push(self.categories[i]);
            i = i + 1;
            assert(categories@ =~= self.categories@.take(i as int));
        }
        assert(categories@ =~= self.categories@);
        SecurityReviewDecision {
            security_fix_detected: self.security_fix_detected,
            introduced_risk: self.introduced_risk,
            severity: self.severity,
            categories,
            affected: self.affected,
            production_reachable: self.production_reachable,
            confidence: self.confidence,
            summary: self.summary.clone(),
            mechanism: self.mechanism.clone(),
            evidence: copy_texts(&self.evidence),
            fix_contract: match &self.fix_contract {
                Some(contract) => Some(contract.copy()),
                None => None,
            },
        }
    }
}

/// The judgement on a commit and what the policy makes of it.
#[derive(Debug)]
pub struct EvaluatedSecurityReview {
    pub commit: String,
    pub decision: SecurityReviewDecision,
    pub disposition: SecurityDisposition,
    pub policy_reasons: Vec<String>,
    pub policy_fingerprint: String,
}

/// The model of `EvaluatedSecurityReview`.
pub struct EvaluatedView {
    pub commit: Seq<char>,
    pub decision: ReviewView,
    pub disposition: DispositionView,
    pub policy_reasons: Seq<Seq<char>>,
    pub policy_fingerprint: Seq<char>,
}

impl View for EvaluatedSecurityReview {
    type V = EvaluatedView;

    open spec fn view(&self) -> EvaluatedView {
        EvaluatedView {
            commit: self.commit@,
            decision: self.decision@,
            disposition: self.disposition@,
            policy_reasons: texts(self.policy_reasons@),
            policy_fingerprint: self.policy_fingerprint@,
        }
    }
}

/// The models of a list of evaluated reviews.
pub open spec fn evaluated_views(list: Seq<EvaluatedSecurityReview>) -> Seq<EvaluatedView> {
    list.map_values(|e: EvaluatedSecurityReview| e@)
}

/// The reviews of the commits between two points.
#[derive(Debug)]
pub struct CommitSecurityReviewBatch {
    pub project: String,
    pub from: String,
    pub to: String,
    pub reviews: Vec<EvaluatedSecurityReview>,
    pub disposition: SecurityDisposition,
    pub cache_hits: usize,
}

/// The model of `CommitSecurityReviewBatch`.
pub struct BatchView {
    pub project: Seq<char>,
    pub from: Seq<char>,
    pub to: Seq<char>,
    pub reviews: Seq<EvaluatedView>,
    pub disposition: DispositionView,
    pub cache_hits: usize,
}

impl View for CommitSecurityReviewBatch {
    type V = BatchView;

    open spec fn view(&self) -> BatchView {
        BatchView {
            project: self.project@,
            from: self.from@,
            to: self.to@,
            reviews: evaluated_views(self.reviews@),
            disposition: self.disposition@,
            cache_hits: self.cache_hits,
        }
    }
}

/// The judgement of an independent verifier on a contract.
#[derive(Debug)]
pub struct SecurityContractVerificationDecision {
    pub security_property_present: bool,
    pub vulnerable_behavior_removed: bool,
    pub regression_evidence_present: bool,
    pub confidence: SecurityConfidence,
    pub summary: String,
    pub evidence: Vec<String>,
    pub missing_regressions: Vec<String>,
}

/// The files that are to be looked at for a signal.
#[derive(Debug)]
pub struct SignalFileSelection {
    pub paths: Vec<String>,
    pub rationale: String,
}

/// A file of a candidate, with its whole content.
#[derive(Debug)]
pub struct CandidateChange {
    pub path: String,
    pub content: String,
    pub reason: String,
}

/// The model of `CandidateChange`.
pub struct ChangeView {
    pub path: Seq<char>,
    pub content: Seq<char>,
    pub reason: Seq<char>,
}

impl View for CandidateChange {
    type V = ChangeView;

    open spec fn view(&self) -> ChangeView {
        ChangeView { path: self.path@, content: self.content@, reason: self.reason@ }
    }
}

/// The models of a list of changes.
pub open spec fn change_views(list: Seq<CandidateChange>) -> Seq<ChangeView> {
    list.map_values(|c: CandidateChange| c@)
}

/// The judgement on a signal, and the candidate for a fix.
#[derive(Debug)]
pub struct SignalInvestigationDecision {
    pub review: SecurityReviewDecision,
    pub affected_packages: Vec<String>,
    pub recommended_action: RemediationAction,
    pub candidate_summary: String,
    pub changes: Vec<CandidateChange>,
}

/// The model of `SignalInvestigationDecision`.
pub struct InvestigationView {
    pub review: ReviewView,
    pub affected_packages: Seq<Seq<char>>,
    pub recommended_action: RemediationAction,
    pub candidate_summary: Seq<char>,
    pub changes: Seq<ChangeView>,
}

impl View for SignalInvestigationDecision {
    type V = InvestigationView;

    open spec fn view(&self) -> InvestigationView {
        InvestigationView {
            review: self.review@,
            affected_packages: texts(self.affected_packages@),
            recommended_action: self.recommended_action,
            candidate_summary: self.candidate_summary@,
            changes: change_views(self.changes@),
        }
    }
}

impl SignalInvestigationDecision {
    /// A copy of the judgement.
    pub fn copy(&self) -> (r: SignalInvestigationDecision)
        ensures
            r@ == self@,
    {
        let mut changes: Vec<CandidateChange> = Vec::new();
        let mut i: usize = 0;
        while i < self.changes.len()
            invariant
                i <= self.changes@.len(),
                changes@.len() == i,
                forall|j: int| 0 <= j < i ==> (#[trigger] changes@[j])@ == self.changes@[j]@,
            decreases self.changes@.len() - i,
        {
            let change = &self.changes[i];
            changes.push(
                CandidateChange {
                    path: change.path.clone(),
                    content: change.content.clone(),
                    reason: change.reason.clone(),
                },
            );
            i = i + 1;
        }
        assert(change_views(changes@) =~= change_views(self.changes@));
        SignalInvestigationDecision {
            review: self.review.copy(),
            affected_packages: copy_texts(&self.affected_packages),
            recommended_action: self.recommended_action,
            candidate_summary: self.candidate_summary.clone(),
            changes,
        }
    }
}

/// Where a signal comes from.
#[derive(Debug, Clone, Copy, PartialEq, Eq, Structural)]
pub enum SecuritySignalSource {
    UserReport,
}

/// A message on a possible weakness, as a person reported it.
#[derive(Debug)]
pub struct SecuritySignal {
    pub id: String,
    pub project: String,
    pub source: SecuritySignalSource,
    pub summary: String,
    pub reference: Option<String>,
    pub dedupe_key: String,
    pub received_at: String,
}

/// The model of `SecuritySignal`.
pub struct SignalView {
    pub id: Seq<char>,
    pub project: Seq<char>,
    pub source: SecuritySignalSource,
    pub summary: Seq<char>,
    pub reference: Option<Seq<char>>,
    pub dedupe_key: Seq<char>,
    pub received_at: Seq<char>,
}

impl View for SecuritySignal {
    type V = SignalView;

    open spec fn view(&self) -> SignalView {
        SignalView {
            id: self.id@,
            project: self.project@,
            source: self.source,
            summary: self.summary@,
            reference: text_option(self.reference),
            dedupe_key: self.dedupe_key@,
            received_at: self.received_at@,
        }
    }
}

impl SecuritySignal {
    /// A copy.
    pub fn copy(&self) -> (r: SecuritySignal)
        ensures
            r@ == self@,
    {
        SecuritySignal {
            id: self.id.clone(),
            project: self.project.clone(),
            source: self.source,
            summary: self.summary.clone(),
            reference: self.reference.clone(),
            dedupe_key: self.dedupe_key.clone(),
            received_at: self.received_at.clone(),
        }
    }
}

/// What a signal means for the project.
#[derive(Debug)]
pub struct ProtectionFinding {
    pub id: String,
    pub project: String,
    pub signal_id: String,
    pub state: FindingState,
    pub classification: String,
    pub severity: String,
    pub confidence: String,
    pub affected: Option<bool>,
    pub build_allowed: bool,
    pub summary: String,
    pub evidence: Vec<String>,
    pub dedupe_key: String,
    pub created_at: String,
    pub updated_at: String,
}

/// The model of `ProtectionFinding`.
pub struct FindingView {
    pub id: Seq<char>,
    pub project: Seq<char>,
    pub signal_id: Seq<char>,
    pub state: FindingState,
    pub classification: Seq<char>,
    pub severity: Seq<char>,
    pub confidence: Seq<char>,
    pub affected: Option<bool>,
    pub build_allowed: bool,
    pub summary: Seq<char>,
    pub evidence: Seq<Seq<char>>,
    pub dedupe_key: Seq<char>,
    pub created_at: Seq<char>,
    pub updated_at: Seq<char>,
}

impl View for ProtectionFinding {
    type V = FindingView;

    open spec fn view(&self) -> FindingView {
        FindingView {
            id: self.id@,
            project: self.project@,
            signal_id: self.signal_id@,
            state: self.state,
            classification: self.classification@,
            severity: self.severity@,
            confidence: self.confidence@,
            affected: self.affected,
            build_allowed: self.build_allowed,
            summary: self.summary@,
            evidence: texts(self.evidence@),
            dedupe_key: self.dedupe_key@,
            created_at: self.created_at@,
            updated_at: self.updated_at@,
        }
    }
}

impl ProtectionFinding {
    /// A copy.
    pub fn copy(&self) -> (r: ProtectionFinding)
        ensures
            r@ == self@,
    {
        ProtectionFinding {
            id: self.id.clone(),
            project: self.project.clone(),
            signal_id: self.signal_id.clone(),
            state: self.state,
            classification: self.classification.clone(),
            severity: self.severity.clone(),
            confidence: self.confidence.clone(),
            affected: self.affected,
            build_allowed: self.build_allowed,
            summary: self.summary.clone(),
            evidence: copy_texts(&self.evidence),
            dedupe_key: self.dedupe_key.clone(),
            created_at: self.created_at.clone(),
            updated_at: self.updated_at.clone(),
        }
    }
}

/// What is to be done about a finding.
#[derive(Debug)]
pub struct RemediationPlan {
    pub id: String,
    pub finding_id: String,
    pub action: RemediationAction,
    pub summary: String,
    pub requirements: Vec<String>,
    pub created_at: String,
}

/// The model of `RemediationPlan`.
pub struct PlanView {
    pub id: Seq<char>,
    pub finding_id: Seq<char>,
    pub action: RemediationAction,
    pub summary: Seq<char>,
    pub requirements: Seq<Seq<char>>,
    pub created_at: Seq<char>,
}

impl View for RemediationPlan {
    type V = PlanView;

    open spec fn view(&self) -> PlanView {
        PlanView {
            id: self.id@,
            finding_id: self.finding_id@,
            action: self.action,
            summary: self.summary@,
            requirements: texts(self.requirements@),
            created_at: self.created_at@,
        }
    }
}

impl RemediationPlan {
    /// A copy.
    pub fn copy(&self) -> (r: RemediationPlan)
        ensures
            r@ == self@,
    {
        RemediationPlan {
            id: self.id.clone(),
            finding_id: self.finding_id.clone(),
            action: self.action,
            summary: self.summary.clone(),
            requirements: copy_texts(&self.requirements),
            created_at: self.created_at.clone(),
        }
    }
}

/// A candidate for a fix, in a worktree of its own.
#[derive(Debug)]
pub struct CandidateArtifact {
    pub id: String,
    pub finding_id: String,
    pub worktree_path: String,
    pub content_sha256: String,
    pub summary: String,
    pub created_at: String,
}

/// The model of `CandidateArtifact`.
pub struct ArtifactView {
    pub id: Seq<char>,
    pub finding_id: Seq<char>,
    pub worktree_path: Seq<char>,
    pub content_sha256: Seq<char>,
    pub summary: Seq<char>,
    pub created_at: Seq<char>,
}

impl View for CandidateArtifact {
    type V = ArtifactView;

    open spec fn view(&self) -> ArtifactView {
        ArtifactView {
            id: self.id@,
            finding_id: self.finding_id@,
            worktree_path: self.worktree_path@,
            content_sha256: self.content_sha256@,
            summary: self.summary@,
            created_at: self.created_at@,
        }
    }
}

impl CandidateArtifact {
    /// A copy.
    pub fn copy(&self) -> (r: CandidateArtifact)
        ensures
            r@ == self@,
    {
        CandidateArtifact {
            id: self.id.clone(),
            finding_id: self.finding_id.clone(),
            worktree_path: self.worktree_path.clone(),
            content_sha256: self.content_sha256.clone(),
            summary: self.summary.clone(),
            created_at: self.created_at.clone(),
        }
    }
}

/// Whether a candidate holds.
#[derive(Debug)]
pub struct VerificationResult {
    pub id: String,
    pub candidate_id: String,
    pub verifier: String,
    pub passed: bool,
    pub summary: String,
    pub evidence: Vec<String>,
    pub created_at: String,
}

/// The model of `VerificationResult`.
pub struct VerificationView {
    pub id: Seq<char>,
    pub candidate_id: Seq<char>,
    pub verifier: Seq<char>,
    pub passed: bool,
    pub summary: Seq<char>,
    pub evidence: Seq<Seq<char>>,
    pub created_at: Seq<char>,
}

impl View for VerificationResult {
    type V = VerificationView;

    open spec fn view(&self) -> VerificationView {
        VerificationView {
            id: self.id@,
            candidate_id: self.candidate_id@,
            verifier: self.verifier@,
            passed: self.passed,
            summary: self.summary@,
            evidence: texts(self.evidence@),
            created_at: self.created_at@,
        }
    }
}

impl VerificationResult {
    /// A copy.
    pub fn copy(&self) -> (r: VerificationResult)
        ensures
            r@ == self@,
    {
        VerificationResult {
            id: self.id.clone(),
            candidate_id: self.candidate_id.clone(),
            verifier: self.verifier.clone(),
            passed: self.passed,
            summary: self.summary.clone(),
            evidence: copy_texts(&self.evidence),
            created_at: self.created_at.clone(),
        }
    }
}

/// A draft that a person may send, as the document that is stored.
#[derive(Debug)]
pub struct DeliveryDraft {
    pub document: String,
}

} // verus!
