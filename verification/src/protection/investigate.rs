//! The investigation of a message on a possible weakness.
//!
//! Files are chosen and read, the model judges, and what follows from its judgement is kept, told
//! and prepared. Nothing is pushed, released or sent.

use vstd::prelude::*;

use crate::calls::git::{GitCall, GitView};
use crate::calls::notify::{NotifyCall, NotifyView};
use crate::calls::signal::{artifact_option, verification_option, SignalCall, SignalCallView};
use crate::calls::{Request, RequestView, Tree};
use crate::command::git;
use crate::config::{Config, ProtectionAutomation};
use crate::data::{evidence_views, json_writing, optional_view, toml_reading, DataView, Evidence};
use crate::digest::{digest_of, text_digest};
use crate::fault::{fault_text, Fault};
use crate::journal::{asked, caught, follows, Halt, Journal, Reply, Run};
use crate::llm::types::{SignalFacts, SignalFileSelectionRequest, SignalInvestigationRequest};
use crate::llm::{investigation, selection, LlmService};
use crate::path::{below, path_below};
use crate::protection::dependency::graph::{
    cargo_reachability_snapshot, is_snapshot_of, nodes_of, snapshot_fault,
    CargoReachabilitySnapshot,
};
use crate::protection::investigate::candidate::{
    failed_candidate_artifacts, failure_kept, name_option, prepare_candidate, prepared, too_long,
};
use crate::protection::investigate::files::{
    files_read_from, offered_files, read_selected_files, signal, tracked_regular_files,
};
use crate::protection::investigate::laws::{
    is_contained, is_kept_as_given, lemma_investigation_is_contained,
    lemma_investigation_is_named_after_its_message, posts_to_settings,
};
use crate::protection::investigate::policy::{
    calls_for_action, confidence_name, confidence_text, configured_project_name,
    dependency_evidence, dependency_lines, project_name, requires_remediation, severity_name,
    severity_text,
};
use crate::protection::types::{
    ArtifactView, CandidateArtifact, DeliveryDraft, FindingState, FindingView, InvestigationView,
    PlanView, ProtectionFinding, RemediationPlan, ReviewView, SecuritySignal, SecuritySignalSource,
    SignalFileSelection, SignalInvestigationDecision, SignalView, VerificationResult,
    VerificationView,
};
use crate::text::{
    append_texts, blank, byte_len, concat2, concat5, copy_texts, first_chars, is_blank, take_chars,
    text_option, texts, utf8_len, Lines,
};

pub mod candidate;
pub mod files;
pub mod laws;
pub mod policy;
pub mod steps;

verus! {

/// The largest message, in bytes.
pub const MAX_SIGNAL_BYTES: usize = 65536;

/// A message as a person reported it.
pub struct ReportedView {
    pub summary: Seq<char>,
    pub reference: Option<Seq<char>>,
    pub content: Seq<char>,
}

/// Why a message is not investigated.
pub open spec fn input_fault(config: Config, message: ReportedView) -> Option<Seq<char>> {
    if !config.protection.enabled {
        Some("安全消息调查要求启用 protection"@)
    } else if is_blank(message.summary) {
        Some("安全消息摘要不能为空"@)
    } else if utf8_len(message.content) > MAX_SIGNAL_BYTES {
        Some("安全消息正文超过 64 KiB"@)
    } else {
        None
    }
}

/// A message as a person reported it.
#[derive(Debug)]
pub struct ReportedSignal {
    pub summary: String,
    pub reference: Option<String>,
    pub content: String,
}

impl View for ReportedSignal {
    type V = ReportedView;

    open spec fn view(&self) -> ReportedView {
        ReportedView {
            summary: self.summary@,
            reference: text_option(self.reference),
            content: self.content@,
        }
    }
}

fn check_input(config: &Config, message: &ReportedSignal) -> (r: Option<&'static str>)
    ensures
        match input_fault(*config, message@) {
            Some(fault) => r matches Some(found) && found@ == fault,
            None => r is None,
        },
{
    if !config.protection.enabled {
        Some("安全消息调查要求启用 protection")
    } else if blank(message.summary.as_str()) {
        Some("安全消息摘要不能为空")
    } else if byte_len(message.content.as_str()) > MAX_SIGNAL_BYTES {
        Some("安全消息正文超过 64 KiB")
    } else {
        None
    }
}

/// The files that are offered, and the content of the lock file.
pub struct ProjectView {
    pub offered: Seq<Seq<char>>,
    pub lock: Option<String>,
}

struct Project<'a> {
    offered: Lines,
    lock: &'a Option<String>,
}

impl<'a> View for Project<'a> {
    type V = ProjectView;

    closed spec fn view(&self) -> ProjectView {
        ProjectView { offered: self.offered@, lock: *self.lock }
    }
}

/// Looks at the project.
#[verifier::opaque]
pub open spec fn project_seen(replies: Seq<Reply>, at: nat) -> Run<ProjectView> {
    match asked::<()>(replies, at, git(Tree::Main, GitView::EnsureRepo)) {
        Run::Ask(request) => Run::Ask(request),
        Run::Fail(chain, at) => Run::Fail(chain, at),
        Run::On(_, at) => match offered_files(replies, at) {
            Run::Ask(request) => Run::Ask(request),
            Run::Fail(chain, at) => Run::Fail(chain, at),
            Run::On(offered, at) => match asked::<Option<String>>(
                replies,
                at,
                signal(SignalCallView::ReadLock),
            ) {
                Run::Ask(request) => Run::Ask(request),
                Run::Fail(chain, at) => Run::Fail(chain, at),
                Run::On(lock, at) => Run::On(ProjectView { offered, lock }, at),
            },
        },
    }
}

fn see_project<'a>(journal: &mut Journal<'a>) -> (r: Result<Project<'a>, Halt<'a>>)
    ensures
        follows(
            *old(journal),
            *final(journal),
            r,
            project_seen(old(journal).all(), old(journal).at()),
        ),
{
    reveal(project_seen);
    let _: &'a () = journal.ask(Request::Git(Tree::Main, GitCall::EnsureRepo))?;
    let offered = tracked_regular_files(journal)?;
    let lock: &'a Option<String> = journal.ask(Request::Signal(SignalCall::ReadLock))?;
    Ok(Project { offered, lock })
}

/// Whether a snapshot is what the content of the lock file at a path comes to: there is none without
/// a lock file, and a lock file that cannot be read or used is a fault.
pub open spec fn is_reachability(
    lock_path: Seq<char>,
    lock: Option<String>,
    found: Result<Option<CargoReachabilitySnapshot>, Seq<Seq<char>>>,
) -> bool {
    match lock {
        None => found == Ok::<Option<CargoReachabilitySnapshot>, Seq<Seq<char>>>(None),
        Some(raw) => match toml_reading(raw@) {
            Err(cause) => found == Err::<Option<CargoReachabilitySnapshot>, Seq<Seq<char>>>(
                seq!["解析 Cargo.lock 失败："@ + lock_path, cause],
            ),
            Ok(document) => match snapshot_fault(nodes_of(document)) {
                Some(message) => found == Err::<Option<CargoReachabilitySnapshot>, Seq<Seq<char>>>(
                    seq![message],
                ),
                None => found matches Ok(Some(snapshot)) && is_snapshot_of(
                    snapshot,
                    nodes_of(document),
                ),
            },
        },
    }
}

/// What the prompts say of a message.
pub open spec fn message_facts(
    config: Config,
    message: ReportedView,
    reachability: Option<CargoReachabilitySnapshot>,
) -> SignalFacts {
    SignalFacts {
        project: project_name(config),
        project_description: config.protection.project_description@,
        summary: message.summary,
        reference: message.reference,
        content: message.content,
        reachability,
    }
}

/// The judgement on a message, and the files it rests on.
pub struct JudgementView {
    pub selection: SignalFileSelection,
    pub decision: InvestigationView,
}

struct Judgement<'a> {
    selection: &'a SignalFileSelection,
    decision: SignalInvestigationDecision,
    reachability: Option<CargoReachabilitySnapshot>,
}

/// Has the model choose files and judge a message from them.
#[verifier::opaque]
pub open spec fn judged(
    config: Config,
    facts: SignalFacts,
    offered: Seq<Seq<char>>,
    replies: Seq<Reply>,
    at: nat,
) -> Run<JudgementView> {
    match selection(config.llm, facts, offered, replies, at) {
        Run::Ask(request) => Run::Ask(request),
        Run::Fail(chain, at) => Run::Fail(chain, at),
        Run::On(None, at) => Run::Fail(seq!["DS 未返回安全消息取证文件选择"@], at),
        Run::On(Some(chosen), at) => match files_read_from(
            offered,
            texts(chosen.paths@),
            0,
            0,
            Seq::empty(),
            replies,
            at,
        ) {
            Run::Ask(request) => Run::Ask(request),
            Run::Fail(chain, at) => Run::Fail(chain, at),
            Run::On(files, at) => match investigation(config.llm, facts, files, replies, at) {
                Run::Ask(request) => Run::Ask(request),
                Run::Fail(chain, at) => Run::Fail(chain, at),
                Run::On(None, at) => Run::Fail(seq!["DS 未返回安全消息调查结论"@], at),
                Run::On(Some(decision), at) => Run::On(
                    JudgementView { selection: chosen, decision },
                    at,
                ),
            },
        },
    }
}

/// Whether the result of judging is that of a run, with what the project reaches handed on.
spec fn judged_by<'a>(
    before: Journal<'a>,
    after: Journal<'a>,
    r: Result<Judgement<'a>, Halt<'a>>,
    reachability: Option<CargoReachabilitySnapshot>,
    run: Run<JudgementView>,
) -> bool {
    &&& after.all() == before.all()
    &&& match run {
        Run::Ask(request) => r matches Err(Halt::Ask(found)) && found@ == request,
        Run::Fail(chain, at) => r matches Err(Halt::Fail(fault)) && fault@ == chain && after.at()
            == at,
        Run::On(judgement, at) => r matches Ok(found) && *found.selection == judgement.selection
            && found.decision@ == judgement.decision && found.reachability == reachability
            && after.at() == at,
    }
}

fn judge<'a>(
    config: &'a Config,
    message: &ReportedSignal,
    offered: &Lines,
    reachability: Option<CargoReachabilitySnapshot>,
    journal: &mut Journal<'a>,
) -> (r: Result<Judgement<'a>, Halt<'a>>)
    ensures
        judged_by(
            *old(journal),
            *final(journal),
            r,
            reachability,
            judged(
                *config,
                message_facts(*config, message@, reachability),
                offered@,
                old(journal).all(),
                old(journal).at(),
            ),
        ),
{
    reveal(judged);
    let llm = LlmService::new(&config.llm);
    let request = SignalFileSelectionRequest {
        project: configured_project_name(config),
        project_description: config.protection.project_description.clone(),
        signal_summary: message.summary.clone(),
        signal_reference: message.reference.clone(),
        signal_content: message.content.clone(),
        tracked_files: copy_texts(&offered.list),
        cargo_reachability: reachability,
    };
    assert(request.facts() == message_facts(*config, message@, reachability));
    let chosen: &'a SignalFileSelection = match llm.select_signal_files(&request, journal)? {
        Some(chosen) => chosen,
        None => {
            return Err(Halt::Fail(Fault::of("DS 未返回安全消息取证文件选择")));
        },
    };
    let evidence = read_selected_files(offered, chosen, journal)?;
    let request = SignalInvestigationRequest {
        project: request.project,
        project_description: request.project_description,
        signal_summary: request.signal_summary,
        signal_reference: request.signal_reference,
        signal_content: request.signal_content,
        file_evidence: evidence.files,
        cargo_reachability: request.cargo_reachability,
    };
    assert(request.facts() == message_facts(*config, message@, reachability));
    match llm.investigate_signal(&request, journal)? {
        Some(decision) => Ok(
            Judgement {
                selection: chosen,
                decision,
                reachability: request.cargo_reachability,
            },
        ),
        None => Err(Halt::Fail(Fault::of("DS 未返回安全消息调查结论"))),
    }
}

/// The text of which the digest tells messages apart.
pub open spec fn dedupe_data(project: Seq<char>, message: ReportedView) -> DataView {
    DataView::List(
        seq![
            DataView::Text(project),
            DataView::Text(message.summary),
            optional_view(message.reference),
            DataView::Text(message.content),
        ],
    )
}

/// The digest that tells messages apart, or why there is none.
pub open spec fn dedupe_digest(project: Seq<char>, message: ReportedView) -> Result<
    Seq<char>,
    Seq<Seq<char>>,
> {
    match json_writing(dedupe_data(project, message)) {
        Err(cause) => Err(seq![cause]),
        Ok(text) => match digest_of(text) {
            Some(digest) => Ok(digest),
            None => Err(too_long()),
        },
    }
}

fn make_dedupe_digest(project: &str, message: &ReportedSignal) -> (r: Result<String, Fault>)
    ensures
        match dedupe_digest(project@, message@) {
            Ok(digest) => r matches Ok(found) && found@ == digest,
            Err(chain) => r matches Err(fault) && fault@ == chain,
        },
{
    let mut items: Vec<Evidence> = Vec::new();
    items.push(Evidence::text(project));
    items.push(Evidence::text(message.summary.as_str()));
    items.push(Evidence::optional(&message.reference));
    items.push(Evidence::text(message.content.as_str()));
    assert(evidence_views(items@) =~= seq![
        DataView::Text(project@),
        DataView::Text(message.summary@),
        optional_view(text_option(message.reference)),
        DataView::Text(message.content@),
    ]);
    match Evidence::list(items).to_json() {
        Err(cause) => Err(Fault::new(cause)),
        Ok(text) => match text_digest(text.as_str()) {
            Some(digest) => Ok(digest),
            None => Err(Fault::of("content is too long for a digest")),
        },
    }
}

/// The message as it is kept.
pub open spec fn kept_signal(
    project: Seq<char>,
    message: ReportedView,
    dedupe: Seq<char>,
    now: Seq<char>,
) -> SignalView {
    SignalView {
        id: "signal-user-"@ + first_chars(dedupe, 32),
        project,
        source: SecuritySignalSource::UserReport,
        summary: message.summary,
        reference: message.reference,
        dedupe_key: "user-report:"@ + dedupe,
        received_at: now,
    }
}

/// The state of a finding at first.
pub open spec fn first_state(affected: Option<bool>, action: bool) -> FindingState {
    if affected == Some(false) {
        FindingState::Unaffected
    } else if action {
        FindingState::Affected
    } else {
        FindingState::Uncertain
    }
}

/// The finding as it is kept.
pub open spec fn kept_finding(
    project: Seq<char>,
    decision: InvestigationView,
    action: bool,
    reachability: Option<CargoReachabilitySnapshot>,
    dedupe: Seq<char>,
    now: Seq<char>,
) -> FindingView {
    FindingView {
        id: "finding-user-"@ + first_chars(dedupe, 32),
        project,
        signal_id: "signal-user-"@ + first_chars(dedupe, 32),
        state: first_state(decision.review.affected, action),
        classification: "external-security-signal"@,
        severity: severity_name(decision.review.severity),
        confidence: confidence_name(decision.review.confidence),
        affected: decision.review.affected,
        build_allowed: !action && decision.review.affected == Some(false),
        summary: decision.review.summary,
        evidence: decision.review.evidence + dependency_lines(
            decision.affected_packages,
            reachability,
        ),
        dedupe_key: "finding-user:"@ + dedupe,
        created_at: now,
        updated_at: now,
    }
}

/// The plan as it is kept.
pub open spec fn kept_plan(
    decision: InvestigationView,
    dedupe: Seq<char>,
    now: Seq<char>,
) -> PlanView {
    PlanView {
        id: "plan-user-"@ + first_chars(dedupe, 32),
        finding_id: "finding-user-"@ + first_chars(dedupe, 32),
        action: decision.recommended_action,
        summary: decision.candidate_summary,
        requirements: match decision.review.fix_contract {
            Some(contract) => contract.regression_cases,
            None => Seq::empty(),
        },
        created_at: now,
    }
}

fn make_signal(project: &str, message: &ReportedSignal, dedupe: &str, now: &str) -> (r:
    SecuritySignal)
    ensures
        r@ == kept_signal(project@, message@, dedupe@, now@),
{
    let suffix = take_chars(dedupe, 32);
    SecuritySignal {
        id: concat2("signal-user-", suffix.as_str()),
        project: project.to_owned(),
        source: SecuritySignalSource::UserReport,
        summary: message.summary.clone(),
        reference: message.reference.clone(),
        dedupe_key: concat2("user-report:", dedupe),
        received_at: now.to_owned(),
    }
}

fn make_finding(
    project: &str,
    decision: &SignalInvestigationDecision,
    action: bool,
    reachability: &Option<CargoReachabilitySnapshot>,
    dedupe: &str,
    now: &str,
) -> (r: ProtectionFinding)
    ensures
        r@ == kept_finding(project@, decision@, action, *reachability, dedupe@, now@),
{
    let suffix = take_chars(dedupe, 32);
    let review = &decision.review;
    let mut evidence = copy_texts(&review.evidence);
    append_texts(&mut evidence, dependency_evidence(&decision.affected_packages, reachability));
    ProtectionFinding {
        id: concat2("finding-user-", suffix.as_str()),
        project: project.to_owned(),
        signal_id: concat2("signal-user-", suffix.as_str()),
        state: if review.affected == Some(false) {
            FindingState::Unaffected
        } else if action {
            FindingState::Affected
        } else {
            FindingState::Uncertain
        },
        classification: "external-security-signal".to_owned(),
        severity: severity_text(review.severity).to_owned(),
        confidence: confidence_text(review.confidence).to_owned(),
        affected: review.affected,
        build_allowed: !action && review.affected == Some(false),
        summary: review.summary.clone(),
        evidence,
        dedupe_key: concat2("finding-user:", dedupe),
        created_at: now.to_owned(),
        updated_at: now.to_owned(),
    }
}

fn make_plan(decision: &SignalInvestigationDecision, dedupe: &str, now: &str) -> (r: RemediationPlan)
    ensures
        r@ == kept_plan(decision@, dedupe@, now@),
{
    let suffix = take_chars(dedupe, 32);
    let requirements: Vec<String> = match &decision.review.fix_contract {
        Some(contract) => copy_texts(&contract.regression_cases),
        None => Vec::new(),
    };
    assert(decision.review.fix_contract is None ==> texts(requirements@) =~= Seq::<
        Seq<char>,
    >::empty());
    RemediationPlan {
        id: concat2("plan-user-", suffix.as_str()),
        finding_id: concat2("finding-user-", suffix.as_str()),
        action: decision.recommended_action,
        summary: decision.candidate_summary.clone(),
        requirements,
        created_at: now.to_owned(),
    }
}

/// What is kept of a message that was judged.
pub struct RecordView {
    pub signal: SignalView,
    pub finding: FindingView,
    pub plan: PlanView,
}

struct Record {
    signal: SecuritySignal,
    finding: ProtectionFinding,
    plan: RemediationPlan,
}

impl View for Record {
    type V = RecordView;

    closed spec fn view(&self) -> RecordView {
        RecordView { signal: self.signal@, finding: self.finding@, plan: self.plan@ }
    }
}

/// Keeps a message that was judged, with what was found and what is planned.
#[verifier::opaque]
pub open spec fn recorded(
    config: Config,
    message: ReportedView,
    decision: InvestigationView,
    reachability: Option<CargoReachabilitySnapshot>,
    replies: Seq<Reply>,
    at: nat,
) -> Run<RecordView> {
    let project = project_name(config);
    let action = calls_for_action(texts(config.protection.profiles@), decision.review);
    match asked::<()>(replies, at, signal(SignalCallView::OpenStore)) {
        Run::Ask(request) => Run::Ask(request),
        Run::Fail(chain, at) => Run::Fail(chain, at),
        Run::On(_, at) => match asked::<String>(replies, at, signal(SignalCallView::Now)) {
            Run::Ask(request) => Run::Ask(request),
            Run::Fail(chain, at) => Run::Fail(chain, at),
            Run::On(now, at) => match dedupe_digest(project, message) {
                Err(chain) => Run::Fail(chain, at),
                Ok(dedupe) => saved(
                    RecordView {
                        signal: kept_signal(project, message, dedupe, now@),
                        finding: kept_finding(
                            project,
                            decision,
                            action,
                            reachability,
                            dedupe,
                            now@,
                        ),
                        plan: kept_plan(decision, dedupe, now@),
                    },
                    replies,
                    at,
                ),
            },
        },
    }
}

/// Saves what is kept of a message.
pub open spec fn saved(record: RecordView, replies: Seq<Reply>, at: nat) -> Run<RecordView> {
    match asked::<()>(
        replies,
        at,
        signal(SignalCallView::SaveSignal { signal: record.signal }),
    ) {
        Run::Ask(request) => Run::Ask(request),
        Run::Fail(chain, at) => Run::Fail(chain, at),
        Run::On(_, at) => match asked::<()>(
            replies,
            at,
            signal(SignalCallView::SaveFinding { finding: record.finding }),
        ) {
            Run::Ask(request) => Run::Ask(request),
            Run::Fail(chain, at) => Run::Fail(chain, at),
            Run::On(_, at) => match asked::<()>(
                replies,
                at,
                signal(SignalCallView::SavePlan { plan: record.plan }),
            ) {
                Run::Ask(request) => Run::Ask(request),
                Run::Fail(chain, at) => Run::Fail(chain, at),
                Run::On(_, at) => Run::On(record, at),
            },
        },
    }
}

fn record_message<'a>(
    config: &'a Config,
    message: &ReportedSignal,
    decision: &SignalInvestigationDecision,
    reachability: &Option<CargoReachabilitySnapshot>,
    journal: &mut Journal<'a>,
) -> (r: Result<Record, Halt<'a>>)
    ensures
        follows(
            *old(journal),
            *final(journal),
            r,
            recorded(
                *config,
                message@,
                decision@,
                *reachability,
                old(journal).all(),
                old(journal).at(),
            ),
        ),
{
    reveal(recorded);
    let project = configured_project_name(config);
    let action = requires_remediation(config, &decision.review);
    let _: &'a () = journal.ask(Request::Signal(SignalCall::OpenStore))?;
    let now: &'a String = journal.ask(Request::Signal(SignalCall::Now))?;
    let dedupe = match make_dedupe_digest(project.as_str(), message) {
        Ok(dedupe) => dedupe,
        Err(fault) => {
            return Err(Halt::Fail(fault));
        },
    };
    let record = Record {
        signal: make_signal(project.as_str(), message, dedupe.as_str(), now.as_str()),
        finding: make_finding(
            project.as_str(),
            decision,
            action,
            reachability,
            dedupe.as_str(),
            now.as_str(),
        ),
        plan: make_plan(decision, dedupe.as_str(), now.as_str()),
    };
    let _: &'a () = journal.ask(
        Request::Signal(SignalCall::SaveSignal { signal: record.signal.copy() }),
    )?;
    let _: &'a () = journal.ask(
        Request::Signal(SignalCall::SaveFinding { finding: record.finding.copy() }),
    )?;
    let _: &'a () = journal.ask(
        Request::Signal(SignalCall::SavePlan { plan: record.plan.copy() }),
    )?;
    Ok(record)
}

/// What a person is told of a message that calls for action.
pub open spec fn alert_body(message: ReportedView, review: ReviewView) -> Seq<char> {
    message.summary + "\n\n判断："@ + review.summary + "\n严重性："@ + severity_name(
        review.severity,
    ) + "\n引用："@ + (match message.reference {
        Some(reference) => reference,
        None => "无"@,
    }) + "\n\nTermiteRS 尚未推送、发布或部署任何修改。"@
}

fn make_alert_body(message: &ReportedSignal, decision: &SignalInvestigationDecision) -> (r: String)
    ensures
        r@ == alert_body(message@, decision@.review),
{
    let mut body = concat5(
        message.summary.as_str(),
        "\n\n判断：",
        decision.review.summary.as_str(),
        "\n严重性：",
        severity_text(decision.review.severity),
    );
    body.append("\n引用：");
    match &message.reference {
        Some(reference) => body.append(reference.as_str()),
        None => body.append("无"),
    }
    body.append("\n\nTermiteRS 尚未推送、发布或部署任何修改。");
    body
}

/// Whether a person was told, and why not.
pub struct NoticeView {
    pub sent: bool,
    pub error: Option<Seq<char>>,
}

struct Notice {
    sent: bool,
    error: Option<String>,
}

impl View for Notice {
    type V = NoticeView;

    closed spec fn view(&self) -> NoticeView {
        NoticeView { sent: self.sent, error: text_option(self.error) }
    }
}

/// Tells a person of a message that calls for action.
#[verifier::opaque]
pub open spec fn alerted(
    config: Config,
    message: ReportedView,
    decision: InvestigationView,
    replies: Seq<Reply>,
    at: nat,
) -> Run<NoticeView> {
    if calls_for_action(texts(config.protection.profiles@), decision.review) {
        match caught(
            asked::<bool>(
                replies,
                at,
                RequestView::Notify(
                    NotifyView::Alert {
                        subject: project_name(config) + " 安全消息告警"@,
                        body: alert_body(message, decision.review),
                    },
                ),
            ),
        ) {
            Run::Ask(request) => Run::Ask(request),
            Run::Fail(chain, at) => Run::Fail(chain, at),
            Run::On(Ok(sent), at) => Run::On(NoticeView { sent, error: None }, at),
            Run::On(Err(chain), at) => Run::On(
                NoticeView { sent: false, error: Some(fault_text(chain)) },
                at,
            ),
        }
    } else {
        Run::On(NoticeView { sent: false, error: None }, at)
    }
}

fn alert<'a>(
    config: &'a Config,
    message: &ReportedSignal,
    decision: &SignalInvestigationDecision,
    journal: &mut Journal<'a>,
) -> (r: Result<Notice, Halt<'a>>)
    ensures
        follows(
            *old(journal),
            *final(journal),
            r,
            alerted(*config, message@, decision@, old(journal).all(), old(journal).at()),
        ),
{
    reveal(alerted);
    if !requires_remediation(config, &decision.review) {
        return Ok(Notice { sent: false, error: None });
    }
    let project = configured_project_name(config);
    let request = Request::Notify(
        NotifyCall::Alert {
            subject: concat2(project.as_str(), " 安全消息告警"),
            body: make_alert_body(message, decision),
        },
    );
    match journal.ask::<bool>(request) {
        Ok(sent) => Ok(Notice { sent: *sent, error: None }),
        Err(Halt::Fail(fault)) => Ok(Notice { sent: false, error: Some(fault.text()) }),
        Err(halt) => Err(halt),
    }
}

/// What became of a candidate.
pub struct TrialView {
    pub candidate: Option<ArtifactView>,
    pub verification: Option<VerificationView>,
    pub error: Option<Seq<char>>,
}

struct Trial {
    candidate: Option<CandidateArtifact>,
    verification: Option<VerificationResult>,
    error: Option<String>,
}

impl View for Trial {
    type V = TrialView;

    closed spec fn view(&self) -> TrialView {
        TrialView {
            candidate: artifact_option(self.candidate),
            verification: verification_option(self.verification),
            error: text_option(self.error),
        }
    }
}

/// Keeps a candidate and its verification.
pub open spec fn trial_kept(
    artifacts: (ArtifactView, VerificationView),
    error: Option<Seq<char>>,
    replies: Seq<Reply>,
    at: nat,
) -> Run<TrialView> {
    match asked::<()>(
        replies,
        at,
        signal(SignalCallView::SaveCandidate { candidate: artifacts.0 }),
    ) {
        Run::Ask(request) => Run::Ask(request),
        Run::Fail(chain, at) => Run::Fail(chain, at),
        Run::On(_, at) => match asked::<()>(
            replies,
            at,
            signal(SignalCallView::SaveVerification { verification: artifacts.1 }),
        ) {
            Run::Ask(request) => Run::Ask(request),
            Run::Fail(chain, at) => Run::Fail(chain, at),
            Run::On(_, at) => Run::On(
                TrialView {
                    candidate: Some(artifacts.0),
                    verification: Some(artifacts.1),
                    error,
                },
                at,
            ),
        },
    }
}

fn keep_trial<'a>(
    artifacts: (CandidateArtifact, VerificationResult),
    error: Option<String>,
    journal: &mut Journal<'a>,
) -> (r: Result<Trial, Halt<'a>>)
    ensures
        follows(
            *old(journal),
            *final(journal),
            r,
            trial_kept(artifacts@, text_option(error), old(journal).all(), old(journal).at()),
        ),
{
    let candidate = artifacts.0;
    let verification = artifacts.1;
    let _: &'a () = journal.ask(
        Request::Signal(SignalCall::SaveCandidate { candidate: candidate.copy() }),
    )?;
    let _: &'a () = journal.ask(
        Request::Signal(SignalCall::SaveVerification { verification: verification.copy() }),
    )?;
    Ok(Trial { candidate: Some(candidate), verification: Some(verification), error })
}

/// Prepares a candidate where that is called for and allowed. One that fails is kept as failed.
#[verifier::opaque]
pub open spec fn attempted(
    config: Config,
    offered: Seq<Seq<char>>,
    finding_id: Seq<char>,
    decision: InvestigationView,
    requested: Option<Seq<char>>,
    replies: Seq<Reply>,
    at: nat,
) -> Run<TrialView> {
    if calls_for_action(texts(config.protection.profiles@), decision.review)
        && config.protection.automation == ProtectionAutomation::Candidate {
        match asked::<String>(replies, at, signal(SignalCallView::NewId)) {
            Run::Ask(request) => Run::Ask(request),
            Run::Fail(chain, at) => Run::Fail(chain, at),
            Run::On(id, at) => {
                let candidate_id = "candidate-"@ + id@;
                match caught(
                    prepared(
                        config,
                        offered,
                        finding_id,
                        decision,
                        requested,
                        candidate_id,
                        replies,
                        at,
                    ),
                ) {
                    Run::Ask(request) => Run::Ask(request),
                    Run::Fail(chain, at) => Run::Fail(chain, at),
                    Run::On(Ok(artifacts), at) => trial_kept(artifacts, None, replies, at),
                    Run::On(Err(chain), at) => match failure_kept(
                        config,
                        finding_id,
                        decision.candidate_summary,
                        candidate_id,
                        fault_text(chain),
                        replies,
                        at,
                    ) {
                        Run::Ask(request) => Run::Ask(request),
                        Run::Fail(chain, at) => Run::Fail(chain, at),
                        Run::On(artifacts, at) => trial_kept(
                            artifacts,
                            Some(fault_text(chain)),
                            replies,
                            at,
                        ),
                    },
                }
            },
        }
    } else {
        Run::On(TrialView { candidate: None, verification: None, error: None }, at)
    }
}

fn attempt_candidate<'a>(
    config: &'a Config,
    offered: &Lines,
    finding_id: &str,
    decision: &SignalInvestigationDecision,
    requested: Option<&str>,
    journal: &mut Journal<'a>,
) -> (r: Result<Trial, Halt<'a>>)
    ensures
        follows(
            *old(journal),
            *final(journal),
            r,
            attempted(
                *config,
                offered@,
                finding_id@,
                decision@,
                name_option(requested),
                old(journal).all(),
                old(journal).at(),
            ),
        ),
{
    reveal(attempted);
    if !requires_remediation(config, &decision.review) || config.protection.automation
        != ProtectionAutomation::Candidate {
        return Ok(Trial { candidate: None, verification: None, error: None });
    }
    let id: &'a String = journal.ask(Request::Signal(SignalCall::NewId))?;
    let candidate_id = concat2("candidate-", id.as_str());
    match prepare_candidate(
        config,
        offered,
        finding_id,
        decision,
        requested,
        candidate_id.as_str(),
        journal,
    ) {
        Ok(artifacts) => keep_trial(artifacts, None, journal),
        Err(Halt::Ask(request)) => Err(Halt::Ask(request)),
        Err(Halt::Fail(fault)) => {
            let details = fault.text();
            let artifacts = failed_candidate_artifacts(
                config,
                finding_id,
                decision.candidate_summary.as_str(),
                candidate_id.as_str(),
                details.as_str(),
                journal,
            )?;
            keep_trial(artifacts, Some(details), journal)
        },
    }
}

/// A finding whose candidate was verified awaits delivery, and is kept as such.
#[verifier::opaque]
pub open spec fn advanced(
    finding: FindingView,
    verification: Option<VerificationView>,
    replies: Seq<Reply>,
    at: nat,
) -> Run<FindingView> {
    if verification is Some && verification->0.passed {
        match asked::<String>(replies, at, signal(SignalCallView::Now)) {
            Run::Ask(request) => Run::Ask(request),
            Run::Fail(chain, at) => Run::Fail(chain, at),
            Run::On(now, at) => {
                let finding = FindingView {
                    state: FindingState::AwaitingDelivery,
                    updated_at: now@,
                    ..finding
                };
                match asked::<()>(
                    replies,
                    at,
                    signal(SignalCallView::SaveFinding { finding }),
                ) {
                    Run::Ask(request) => Run::Ask(request),
                    Run::Fail(chain, at) => Run::Fail(chain, at),
                    Run::On(_, at) => Run::On(finding, at),
                }
            },
        }
    } else {
        Run::On(finding, at)
    }
}

fn advance_finding<'a>(
    finding: ProtectionFinding,
    verification: &Option<VerificationResult>,
    journal: &mut Journal<'a>,
) -> (r: Result<ProtectionFinding, Halt<'a>>)
    ensures
        follows(
            *old(journal),
            *final(journal),
            r,
            advanced(
                finding@,
                verification_option(*verification),
                old(journal).all(),
                old(journal).at(),
            ),
        ),
{
    reveal(advanced);
    let passed: bool = match verification {
        Some(result) => result.passed,
        None => false,
    };
    let mut finding = finding;
    if passed {
        let now: &'a String = journal.ask(Request::Signal(SignalCall::Now))?;
        finding.state = FindingState::AwaitingDelivery;
        finding.updated_at = now.clone();
        let _: &'a () = journal.ask(
            Request::Signal(SignalCall::SaveFinding { finding: finding.copy() }),
        )?;
    }
    Ok(finding)
}

/// Prepares a draft on a finding, and keeps it where there is one.
#[verifier::opaque]
pub open spec fn drafted(
    config: Config,
    finding: FindingView,
    trial: TrialView,
    replies: Seq<Reply>,
    at: nat,
) -> Run<Option<DeliveryDraft>> {
    match asked::<Option<DeliveryDraft>>(
        replies,
        at,
        signal(
            SignalCallView::Draft {
                remote: config.repo.fork@,
                finding,
                artifact: trial.candidate,
                outcome: trial.verification,
            },
        ),
    ) {
        Run::Ask(request) => Run::Ask(request),
        Run::Fail(chain, at) => Run::Fail(chain, at),
        Run::On(None, at) => Run::On(None, at),
        Run::On(Some(draft), at) => match asked::<()>(
            replies,
            at,
            signal(SignalCallView::SaveDraft { draft }),
        ) {
            Run::Ask(request) => Run::Ask(request),
            Run::Fail(chain, at) => Run::Fail(chain, at),
            Run::On(_, at) => Run::On(Some(draft), at),
        },
    }
}

fn copy_candidate(candidate: &Option<CandidateArtifact>) -> (r: Option<CandidateArtifact>)
    ensures
        artifact_option(r) == artifact_option(*candidate),
{
    match candidate {
        Some(found) => Some(found.copy()),
        None => None,
    }
}

fn copy_verification(verification: &Option<VerificationResult>) -> (r: Option<VerificationResult>)
    ensures
        verification_option(r) == verification_option(*verification),
{
    match verification {
        Some(found) => Some(found.copy()),
        None => None,
    }
}

fn draft<'a>(
    config: &'a Config,
    finding: &ProtectionFinding,
    trial: &Trial,
    journal: &mut Journal<'a>,
) -> (r: Result<Option<&'a DeliveryDraft>, Halt<'a>>)
    ensures
        crate::journal::took_option(
            *old(journal),
            *final(journal),
            r,
            drafted(*config, finding@, trial@, old(journal).all(), old(journal).at()),
        ),
{
    reveal(drafted);
    let found: &'a Option<DeliveryDraft> = journal.ask(
        Request::Signal(
            SignalCall::Draft {
                remote: config.repo.fork.as_str(),
                finding: finding.copy(),
                artifact: copy_candidate(&trial.candidate),
                outcome: copy_verification(&trial.verification),
            },
        ),
    )?;
    match found {
        None => Ok(None),
        Some(draft) => {
            let _: &'a () = journal.ask(Request::Signal(SignalCall::SaveDraft { draft }))?;
            Ok(Some(draft))
        },
    }
}

/// What an investigation came to.
pub struct OutputView {
    pub signal: SignalView,
    pub finding: FindingView,
    pub selection: SignalFileSelection,
    pub decision: InvestigationView,
    pub plan: PlanView,
    pub candidate: Option<ArtifactView>,
    pub verification: Option<VerificationView>,
    pub issue_draft: Option<DeliveryDraft>,
    pub candidate_error: Option<Seq<char>>,
    pub notification_sent: bool,
    pub notification_error: Option<Seq<char>>,
}

/// What an investigation came to.
#[derive(Debug)]
pub struct SignalInvestigationOutput<'a> {
    pub signal: SecuritySignal,
    pub finding: ProtectionFinding,
    pub selection: &'a SignalFileSelection,
    pub decision: SignalInvestigationDecision,
    pub plan: RemediationPlan,
    pub candidate: Option<CandidateArtifact>,
    pub verification: Option<VerificationResult>,
    pub issue_draft: Option<&'a DeliveryDraft>,
    pub candidate_error: Option<String>,
    pub notification_sent: bool,
    pub notification_error: Option<String>,
}

impl<'a> View for SignalInvestigationOutput<'a> {
    type V = OutputView;

    open spec fn view(&self) -> OutputView {
        OutputView {
            signal: self.signal@,
            finding: self.finding@,
            selection: *self.selection,
            decision: self.decision@,
            plan: self.plan@,
            candidate: artifact_option(self.candidate),
            verification: verification_option(self.verification),
            issue_draft: match self.issue_draft {
                Some(draft) => Some(*draft),
                None => None,
            },
            candidate_error: text_option(self.candidate_error),
            notification_sent: self.notification_sent,
            notification_error: text_option(self.notification_error),
        }
    }
}

/// What follows from the judgement on a message.
pub open spec fn concluded(
    config: Config,
    message: ReportedView,
    requested: Option<Seq<char>>,
    offered: Seq<Seq<char>>,
    reachability: Option<CargoReachabilitySnapshot>,
    judgement: JudgementView,
    replies: Seq<Reply>,
    at: nat,
) -> Run<OutputView> {
    let decision = judgement.decision;
    match recorded(config, message, decision, reachability, replies, at) {
        Run::Ask(request) => Run::Ask(request),
        Run::Fail(chain, at) => Run::Fail(chain, at),
        Run::On(record, at) => match alerted(config, message, decision, replies, at) {
            Run::Ask(request) => Run::Ask(request),
            Run::Fail(chain, at) => Run::Fail(chain, at),
            Run::On(notice, at) => match attempted(
                config,
                offered,
                record.finding.id,
                decision,
                requested,
                replies,
                at,
            ) {
                Run::Ask(request) => Run::Ask(request),
                Run::Fail(chain, at) => Run::Fail(chain, at),
                Run::On(trial, at) => match advanced(
                    record.finding,
                    trial.verification,
                    replies,
                    at,
                ) {
                    Run::Ask(request) => Run::Ask(request),
                    Run::Fail(chain, at) => Run::Fail(chain, at),
                    Run::On(finding, at) => match drafted(config, finding, trial, replies, at) {
                        Run::Ask(request) => Run::Ask(request),
                        Run::Fail(chain, at) => Run::Fail(chain, at),
                        Run::On(issue_draft, at) => Run::On(
                            OutputView {
                                signal: record.signal,
                                finding,
                                selection: judgement.selection,
                                decision,
                                plan: record.plan,
                                candidate: trial.candidate,
                                verification: trial.verification,
                                issue_draft,
                                candidate_error: trial.error,
                                notification_sent: notice.sent,
                                notification_error: notice.error,
                            },
                            at,
                        ),
                    },
                },
            },
        },
    }
}

fn conclude<'a>(
    config: &'a Config,
    message: &ReportedSignal,
    requested: Option<&str>,
    offered: &Lines,
    judgement: Judgement<'a>,
    journal: &mut Journal<'a>,
) -> (r: Result<SignalInvestigationOutput<'a>, Halt<'a>>)
    ensures
        follows(
            *old(journal),
            *final(journal),
            r,
            concluded(
                *config,
                message@,
                name_option(requested),
                offered@,
                judgement.reachability,
                JudgementView {
                    selection: *judgement.selection,
                    decision: judgement.decision@,
                },
                old(journal).all(),
                old(journal).at(),
            ),
        ),
{
    let decision = judgement.decision;
    let record = record_message(config, message, &decision, &judgement.reachability, journal)?;
    let notice = alert(config, message, &decision, journal)?;
    let trial = attempt_candidate(
        config,
        offered,
        record.finding.id.as_str(),
        &decision,
        requested,
        journal,
    )?;
    let finding = advance_finding(record.finding, &trial.verification, journal)?;
    let issue_draft = draft(config, &finding, &trial, journal)?;
    Ok(
        SignalInvestigationOutput {
            signal: record.signal,
            finding,
            selection: judgement.selection,
            decision,
            plan: record.plan,
            candidate: trial.candidate,
            verification: trial.verification,
            issue_draft,
            candidate_error: trial.error,
            notification_sent: notice.sent,
            notification_error: notice.error,
        },
    )
}

/// An investigation of a project that was looked at, with what it reaches.
pub open spec fn investigated(
    config: Config,
    message: ReportedView,
    requested: Option<Seq<char>>,
    offered: Seq<Seq<char>>,
    found: Result<Option<CargoReachabilitySnapshot>, Seq<Seq<char>>>,
    replies: Seq<Reply>,
    at: nat,
) -> Run<OutputView> {
    match found {
        Err(chain) => Run::Fail(chain, at),
        Ok(reachability) => match judged(
            config,
            message_facts(config, message, reachability),
            offered,
            replies,
            at,
        ) {
            Run::Ask(request) => Run::Ask(request),
            Run::Fail(chain, at) => Run::Fail(chain, at),
            Run::On(judgement, at) => concluded(
                config,
                message,
                requested,
                offered,
                reachability,
                judgement,
                replies,
                at,
            ),
        },
    }
}

/// A whole investigation of a message that may be investigated, where the lock file comes to what is
/// given.
pub open spec fn investigation_run(
    config: Config,
    message: ReportedView,
    requested: Option<Seq<char>>,
    found: Result<Option<CargoReachabilitySnapshot>, Seq<Seq<char>>>,
    replies: Seq<Reply>,
) -> Run<OutputView> {
    match project_seen(replies, 0) {
        Run::Ask(request) => Run::Ask(request),
        Run::Fail(chain, at) => Run::Fail(chain, at),
        Run::On(project, at) => investigated(
            config,
            message,
            requested,
            project.offered,
            found,
            replies,
            at,
        ),
    }
}

/// Whether what is given is what the lock file comes to, once the project was looked at.
pub open spec fn fits_lock(
    config: Config,
    found: Result<Option<CargoReachabilitySnapshot>, Seq<Seq<char>>>,
    replies: Seq<Reply>,
) -> bool {
    match project_seen(replies, 0) {
        Run::On(project, _) => is_reachability(
            below(config.repo.path@, "Cargo.lock"@),
            project.lock,
            found,
        ),
        _ => true,
    }
}

/// Whether the result of an investigation is that of a run.
pub open spec fn output_of<'a>(
    r: Result<SignalInvestigationOutput<'a>, Halt<'a>>,
    run: Run<OutputView>,
) -> bool {
    match run {
        Run::Ask(request) => r matches Err(Halt::Ask(found)) && found@ == request,
        Run::Fail(chain, _) => r matches Err(Halt::Fail(fault)) && fault@ == chain,
        Run::On(output, _) => r matches Ok(found) && found@ == output,
    }
}

/// What was reported, from its parts.
pub open spec fn reported(summary: Seq<char>, reference: Option<&str>, content: Seq<char>) -> ReportedView {
    ReportedView { summary, reference: name_option(reference), content }
}

/// Investigates a message that a person reported: whether the project is affected, and what is to be
/// done. A reference in it is kept as a text, and never followed. Reporting a message again leads to
/// the same ids.
pub fn investigate_security_signal<'a>(
    config: &'a Config,
    summary: &str,
    reference: Option<&str>,
    content: &str,
    branch_name: Option<&str>,
    replies: &'a Vec<Reply>,
) -> (r: Result<SignalInvestigationOutput<'a>, Halt<'a>>)
    ensures
        match input_fault(*config, reported(summary@, reference, content@)) {
            Some(fault) => r matches Err(Halt::Fail(found)) && found@ == seq![fault],
            None => exists|found: Result<Option<CargoReachabilitySnapshot>, Seq<Seq<char>>>|
                #[trigger] fits_lock(*config, found, replies@) && output_of(
                    r,
                    investigation_run(
                        *config,
                        reported(summary@, reference, content@),
                        name_option(branch_name),
                        found,
                        replies@,
                    ),
                ),
        },
        r matches Ok(output) ==> is_kept_as_given(
            *config,
            reported(summary@, reference, content@),
            output@,
        ),
        r matches Err(Halt::Ask(request)) ==> is_contained(request@) && posts_to_settings(
            *config,
            request@,
        ),
{
    let ghost asked_for = name_option(branch_name);
    let ghost nothing = Ok::<Option<CargoReachabilitySnapshot>, Seq<Seq<char>>>(None);
    let message = ReportedSignal {
        summary: summary.to_owned(),
        reference: match reference {
            Some(text) => Some(text.to_owned()),
            None => None,
        },
        content: content.to_owned(),
    };
    assert(message@ == reported(summary@, reference, content@));
    let mut journal = Journal::new(replies);
    if let Some(fault) = check_input(config, &message) {
        return Err(Halt::Fail(Fault::of(fault)));
    }
    let project = match see_project(&mut journal) {
        Ok(project) => project,
        Err(halt) => {
            proof {
                assert(fits_lock(*config, nothing, replies@));
                lemma_investigation_is_contained(*config, message@, asked_for, nothing, replies@);
            }
            return Err(halt);
        },
    };
    let lock_path = path_below(config.repo.path.as_str(), "Cargo.lock");
    let lock: Option<&str> = match project.lock {
        Some(text) => Some(text.as_str()),
        None => None,
    };
    let reachability = match cargo_reachability_snapshot(lock_path.as_str(), lock) {
        Ok(reachability) => reachability,
        Err(fault) => {
            assert(fits_lock(
                *config,
                Err::<Option<CargoReachabilitySnapshot>, Seq<Seq<char>>>(fault@),
                replies@,
            ));
            return Err(Halt::Fail(fault));
        },
    };
    proof {
        let found = Ok::<Option<CargoReachabilitySnapshot>, Seq<Seq<char>>>(reachability);
        assert(fits_lock(*config, found, replies@));
        lemma_investigation_is_contained(*config, message@, asked_for, found, replies@);
        lemma_investigation_is_named_after_its_message(
            *config,
            message@,
            asked_for,
            found,
            replies@,
        );
    }
    let judgement = judge(config, &message, &project.offered, reachability, &mut journal)?;
    conclude(config, &message, branch_name, &project.offered, judgement, &mut journal)
}

} // verus!
