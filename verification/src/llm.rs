//! Work with a language model.
//!
//! Types, prompts, the form of answers and the conversation itself have modules of their own; the
//! tasks are here.

use vstd::prelude::*;

use crate::calls::conflict::{ConflictCall, ConflictView};
use crate::calls::model::{ChatPost, ChatPostView, ModelCall};
use crate::calls::{Request, RequestView};
use crate::config::LlmConfig;
use crate::data::{json_writing, DataView, Evidence};
use crate::fault::Fault;
use crate::journal::{
    asked, follows_option, in_context, some_of, took_option, Halt, Journal, Reply, Run,
};
use crate::llm::evidence::{
    investigation_data, investigation_evidence, selection_data, selection_evidence,
    verification_data, verification_evidence,
};
use crate::llm::prompts::{
    auto_resolve_template_values, build_conflict_prompt, build_sync_summary_prompt,
    configured_or, conflict_template_values, conflict_values, cut_off,
    ensure_conflict_blocks_present, prompt_or, render_template, rendered, resolve_values,
    summary_values, sync_summary_template_values, CONFLICT_CONTEXT_TEMPLATE,
    CONFLICT_OPTIONS_FORMAT, CONFLICT_OPTIONS_SYSTEM_PROMPT, CONFLICT_PROPOSAL_FORMAT,
    CONFLICT_PROPOSAL_SYSTEM_PROMPT, DEFAULT_AUTO_RESOLVE_SYSTEM_PROMPT,
    DEFAULT_AUTO_RESOLVE_USER_PROMPT, DEFAULT_CONFLICT_SYSTEM_PROMPT,
    DEFAULT_CONFLICT_USER_PROMPT, DEFAULT_SYNC_SUMMARY_SYSTEM_PROMPT,
    DEFAULT_SYNC_SUMMARY_USER_PROMPT, SECURITY_REVIEW_SYSTEM_PROMPT,
    SECURITY_VERIFIER_SYSTEM_PROMPT, SIGNAL_FILE_SELECTOR_SYSTEM_PROMPT,
    SIGNAL_INVESTIGATION_SYSTEM_PROMPT,
};
use crate::llm::protocol::{
    call_json_with_repair, decided, review_fault, validate_security_review_decision,
};
use crate::llm::transport::{
    call_chat, chat, chat_completions_endpoint, endpoint, key_request, request_timeout, timeout_of,
};
use crate::llm::types::{
    file_views, AutoResolveConflictRequest, AutoResolveDecision, ConflictAnalysisRequest,
    ConflictFacts, ConflictOptionsDecision, ConflictResolutionProposal,
    SecurityContractVerificationRequest, SecurityReviewRequest, SignalFacts,
    SignalFileSelectionRequest, SignalInvestigationRequest,
};
use crate::protection::types::{
    InvestigationView, ReviewView, SecurityContractVerificationDecision, SecurityReviewDecision,
    SignalFileSelection, SignalInvestigationDecision,
};
use crate::repo::{ConflictBlocks, ConflictFileContent};
use crate::text::number::{count_text, decimal};
use crate::text::{
    blank, byte_len, concat2, concat3, concat5, is_blank, join, joined, texts, utf8_len,
};

pub mod evidence;
pub mod laws;
pub mod prompts;
pub mod protocol;
pub mod steps;
pub mod stream;
pub mod transport;
pub mod types;

verus! {

/// The settings of a model that is switched on.
pub open spec fn switched_on(config: Option<LlmConfig>) -> Option<LlmConfig> {
    match config {
        Some(c) => if c.enabled {
            Some(c)
        } else {
            None
        },
        None => None,
    }
}

/// A run that explains a conflict.
pub open spec fn analysis(
    config: Option<LlmConfig>,
    facts: ConflictFacts,
    replies: Seq<Reply>,
    at: nat,
) -> Run<Option<Seq<char>>> {
    match switched_on(config) {
        None => Run::On(None, at),
        Some(config) => some_of(
            chat(
                config,
                rendered(
                    prompt_or(config.prompts.conflict_system, DEFAULT_CONFLICT_SYSTEM_PROMPT@),
                    conflict_values(facts),
                    config.max_prompt_bytes as nat,
                ),
                rendered(
                    prompt_or(config.prompts.conflict_user, DEFAULT_CONFLICT_USER_PROMPT@),
                    conflict_values(facts),
                    config.max_prompt_bytes as nat,
                ),
                replies,
                at,
            ),
        ),
    }
}

/// The request for the conflicts in files.
pub open spec fn blocks_request(files: Vec<ConflictFileContent>) -> RequestView {
    RequestView::Conflict(ConflictView::Blocks { files })
}

/// A run that resolves a conflict.
pub open spec fn auto_resolution(
    config: Option<LlmConfig>,
    facts: ConflictFacts,
    files: Vec<ConflictFileContent>,
    replies: Seq<Reply>,
    at: nat,
) -> Run<Option<AutoResolveDecision>> {
    match switched_on(config) {
        None => Run::On(None, at),
        Some(config) => match asked::<ConflictBlocks>(replies, at, blocks_request(files)) {
            Run::Ask(request) => Run::Ask(request),
            Run::Fail(chain, at) => Run::Fail(chain, at),
            Run::On(found, at) => {
                let values = resolve_values(facts, found.rendered@);
                let user = rendered(
                    prompt_or(config.prompts.auto_resolve_user, DEFAULT_AUTO_RESOLVE_USER_PROMPT@),
                    values,
                    config.max_prompt_bytes as nat,
                );
                match cut_off(user, found.blocks@) {
                    Some(chain) => Run::Fail(chain, at),
                    None => some_of(
                        decided::<AutoResolveDecision>(
                            config,
                            rendered(
                                prompt_or(
                                    config.prompts.auto_resolve_system,
                                    DEFAULT_AUTO_RESOLVE_SYSTEM_PROMPT@,
                                ),
                                values,
                                config.max_prompt_bytes as nat,
                            ),
                            user,
                            "auto resolve decision"@,
                            replies,
                            at,
                        ),
                    ),
                }
            },
        },
    }
}

/// A run that sums a report up.
pub open spec fn summary(
    config: Option<LlmConfig>,
    report: Seq<char>,
    replies: Seq<Reply>,
    at: nat,
) -> Run<Option<Seq<char>>> {
    match switched_on(config) {
        None => Run::On(None, at),
        Some(config) => some_of(
            chat(
                config,
                rendered(
                    prompt_or(
                        config.prompts.sync_summary_system,
                        DEFAULT_SYNC_SUMMARY_SYSTEM_PROMPT@,
                    ),
                    summary_values(report),
                    config.max_prompt_bytes as nat,
                ),
                rendered(
                    prompt_or(config.prompts.sync_summary_user, DEFAULT_SYNC_SUMMARY_USER_PROMPT@),
                    summary_values(report),
                    config.max_prompt_bytes as nat,
                ),
                replies,
                at,
            ),
        ),
    }
}

/// How a commit is put to the model: its patch as a JSON text inside marks.
pub open spec fn review_prompt(request: SecurityReviewRequest, patch: Seq<char>) -> Seq<char> {
    "项目："@ + request.project@ + "\n项目安全意图："@ + request.project_description@
        + "\n启用预设："@ + joined(texts(request.profiles@), ","@) + "\n提交："@
        + request.commit@ + "\n\n<untrusted_evidence encoding=\"json-string\">\n"@ + patch
        + "\n</untrusted_evidence>"@
}

/// That the evidence on a commit is too large.
pub open spec fn review_too_large(size: nat, limit: nat) -> Seq<char> {
    "安全审计证据超过 LLM 上下文上限，已拒绝截断后放行："@ + decimal(size) + " bytes > "@
        + decimal(limit) + " bytes"@
}

/// A decision that is accepted, or refused with a fault.
pub open spec fn accepted<T>(run: Run<T>, fault: spec_fn(T) -> Option<Seq<char>>) -> Run<Option<T>> {
    match run {
        Run::Ask(request) => Run::Ask(request),
        Run::Fail(chain, at) => Run::Fail(chain, at),
        Run::On(value, at) => match fault(value) {
            Some(message) => Run::Fail(seq![message], at),
            None => Run::On(Some(value), at),
        },
    }
}

/// A run that reviews a commit.
pub open spec fn review(
    config: Option<LlmConfig>,
    request: SecurityReviewRequest,
    replies: Seq<Reply>,
    at: nat,
) -> Run<Option<SecurityReviewDecision>> {
    match switched_on(config) {
        None => Run::On(None, at),
        Some(config) => match json_writing(DataView::Text(request.patch@)) {
            Err(message) => Run::Fail(seq![message], at),
            Ok(patch) => {
                let user = review_prompt(request, patch);
                if utf8_len(user) > config.max_prompt_bytes {
                    Run::Fail(
                        seq![review_too_large(utf8_len(user), config.max_prompt_bytes as nat)],
                        at,
                    )
                } else {
                    accepted(
                        decided::<SecurityReviewDecision>(
                            config,
                            SECURITY_REVIEW_SYSTEM_PROMPT@,
                            user,
                            "security review decision"@,
                            replies,
                            at,
                        ),
                        |decision: SecurityReviewDecision| review_fault(decision@),
                    )
                }
            },
        },
    }
}

/// What is wrong with the judgement of a verifier.
pub open spec fn verification_fault(decision: SecurityContractVerificationDecision) -> Option<
    Seq<char>,
> {
    if is_blank(decision.summary@) {
        Some("security contract verification summary is empty"@)
    } else {
        None
    }
}

/// How the evidence on a contract is put to the model: inside marks.
pub open spec fn verification_prompt(evidence: Seq<char>) -> Seq<char> {
    "<untrusted_verification_evidence encoding=\"json\">\n"@ + evidence
        + "\n</untrusted_verification_evidence>"@
}

/// A run that verifies a contract.
pub open spec fn contract_verification(
    config: Option<LlmConfig>,
    request: SecurityContractVerificationRequest,
    replies: Seq<Reply>,
    at: nat,
) -> Run<Option<SecurityContractVerificationDecision>> {
    match switched_on(config) {
        None => Run::On(None, at),
        Some(config) => match json_writing(verification_data(request)) {
            Err(message) => Run::Fail(seq![message], at),
            Ok(evidence) => {
                let user = verification_prompt(evidence);
                if utf8_len(user) > config.max_prompt_bytes {
                    Run::Fail(
                        seq!["FixContract 验证证据超过 LLM 上下文上限，已失败关闭"@],
                        at,
                    )
                } else {
                    accepted(
                        decided::<SecurityContractVerificationDecision>(
                            config,
                            SECURITY_VERIFIER_SYSTEM_PROMPT@,
                            user,
                            "security contract verification"@,
                            replies,
                            at,
                        ),
                        |decision: SecurityContractVerificationDecision|
                            verification_fault(decision),
                    )
                }
            },
        },
    }
}

/// Evidence inside marks that say that it is not to be trusted.
pub open spec fn marked(evidence: Seq<char>) -> Seq<char> {
    "<untrusted_evidence encoding=\"json\">"@ + evidence + "</untrusted_evidence>"@
}

/// What is wrong with a choice of files.
pub open spec fn selection_fault(selection: SignalFileSelection) -> Option<Seq<char>> {
    if selection.paths@.len() > 3 {
        Some("DS 选择的取证文件超过 3 个"@)
    } else {
        None
    }
}

/// A run that chooses files for a signal.
pub open spec fn selection(
    config: Option<LlmConfig>,
    facts: SignalFacts,
    tracked_files: Seq<Seq<char>>,
    replies: Seq<Reply>,
    at: nat,
) -> Run<Option<SignalFileSelection>> {
    match switched_on(config) {
        None => Run::On(None, at),
        Some(config) => match json_writing(selection_data(facts, tracked_files)) {
            Err(message) => Run::Fail(seq![message], at),
            Ok(evidence) => if utf8_len(marked(evidence)) > config.max_prompt_bytes {
                Run::Fail(seq!["安全消息文件选择证据过大"@], at)
            } else {
                accepted(
                    decided::<SignalFileSelection>(
                        config,
                        SIGNAL_FILE_SELECTOR_SYSTEM_PROMPT@,
                        marked(evidence),
                        "security signal file selection"@,
                        replies,
                        at,
                    ),
                    |selection: SignalFileSelection| selection_fault(selection),
                )
            },
        },
    }
}

/// A judgement on a signal as it is used: where the project is affected, and a candidate and a
/// contract are given, it counts as a fix.
pub open spec fn as_fix(decision: InvestigationView) -> InvestigationView {
    if decision.review.affected == Some(true) && decision.changes.len() > 0
        && decision.review.fix_contract is Some {
        InvestigationView {
            review: ReviewView { security_fix_detected: true, ..decision.review },
            ..decision
        }
    } else {
        decision
    }
}

/// What is wrong with a judgement on a signal.
pub open spec fn investigation_fault(decision: InvestigationView) -> Option<Seq<char>> {
    match review_fault(decision.review) {
        Some(message) => Some(message),
        None => if decision.changes.len() > 12 {
            Some("DS 返回的候选文件超过 12 个"@)
        } else {
            None
        },
    }
}

/// A run that judges a signal.
pub open spec fn investigation(
    config: Option<LlmConfig>,
    facts: SignalFacts,
    files: Seq<(Seq<char>, Seq<char>)>,
    replies: Seq<Reply>,
    at: nat,
) -> Run<Option<InvestigationView>> {
    match switched_on(config) {
        None => Run::On(None, at),
        Some(config) => match json_writing(investigation_data(facts, files)) {
            Err(message) => Run::Fail(seq![message], at),
            Ok(evidence) => if utf8_len(marked(evidence)) > config.max_prompt_bytes {
                Run::Fail(seq!["安全消息调查证据过大"@], at)
            } else {
                match decided::<SignalInvestigationDecision>(
                    config,
                    SIGNAL_INVESTIGATION_SYSTEM_PROMPT@,
                    marked(evidence),
                    "security signal investigation"@,
                    replies,
                    at,
                ) {
                    Run::Ask(request) => Run::Ask(request),
                    Run::Fail(chain, at) => Run::Fail(chain, at),
                    Run::On(decision, at) => match investigation_fault(as_fix(decision@)) {
                        Some(message) => Run::Fail(seq![message], at),
                        None => Run::On(Some(as_fix(decision@)), at),
                    },
                }
            },
        },
    }
}

/// How a conflict and a conversation about it are put to the model.
pub open spec fn options_prompt(context: Seq<char>, conversation: Seq<char>) -> Seq<char> {
    context + "\n\n对话与人工要求：\n"@ + conversation + "\n\n输出格式：\n"@
        + CONFLICT_OPTIONS_FORMAT@
}

/// What is wrong with the ways out of a conflict.
pub open spec fn options_fault(decision: ConflictOptionsDecision) -> Option<Seq<char>> {
    if 2 <= decision.options@.len() <= 4 {
        None
    } else {
        Some("conflict options must contain 2 to 4 items"@)
    }
}

/// A conflict that a person decides, as it is put to the model.
pub open spec fn conflict_context(
    config: LlmConfig,
    facts: ConflictFacts,
    blocks: ConflictBlocks,
) -> Seq<char> {
    rendered(
        CONFLICT_CONTEXT_TEMPLATE@,
        resolve_values(facts, blocks.rendered@),
        config.max_prompt_bytes as nat,
    )
}

/// A run that names the ways out of a conflict.
pub open spec fn ways_out(
    config: Option<LlmConfig>,
    facts: ConflictFacts,
    files: Vec<ConflictFileContent>,
    conversation: Seq<char>,
    replies: Seq<Reply>,
    at: nat,
) -> Run<Option<ConflictOptionsDecision>> {
    match switched_on(config) {
        None => Run::On(None, at),
        Some(config) => match asked::<ConflictBlocks>(replies, at, blocks_request(files)) {
            Run::Ask(request) => Run::Ask(request),
            Run::Fail(chain, at) => Run::Fail(chain, at),
            Run::On(found, at) => {
                let user = options_prompt(conflict_context(config, facts, found), conversation);
                match cut_off(user, found.blocks@) {
                    Some(chain) => Run::Fail(chain, at),
                    None => accepted(
                        decided::<ConflictOptionsDecision>(
                            config,
                            CONFLICT_OPTIONS_SYSTEM_PROMPT@,
                            user,
                            "conflict options"@,
                            replies,
                            at,
                        ),
                        |decision: ConflictOptionsDecision| options_fault(decision),
                    ),
                }
            },
        },
    }
}

/// How a conflict, and what a person decided on it, are put to the model.
pub open spec fn proposal_prompt(
    context: Seq<char>,
    conversation: Seq<char>,
    selected_option: Seq<char>,
    requirements: Seq<char>,
) -> Seq<char> {
    context + "\n\n对话记录：\n"@ + conversation + "\n\n选定方案：\n"@ + selected_option
        + "\n\n补充要求：\n"@ + requirements + "\n\n输出格式：\n"@ + CONFLICT_PROPOSAL_FORMAT@
}

/// A run that works out what a person decided on a conflict.
pub open spec fn proposal(
    config: Option<LlmConfig>,
    facts: ConflictFacts,
    files: Vec<ConflictFileContent>,
    conversation: Seq<char>,
    selected_option: Seq<char>,
    requirements: Seq<char>,
    replies: Seq<Reply>,
    at: nat,
) -> Run<Option<ConflictResolutionProposal>> {
    match switched_on(config) {
        None => Run::On(None, at),
        Some(config) => match asked::<ConflictBlocks>(replies, at, blocks_request(files)) {
            Run::Ask(request) => Run::Ask(request),
            Run::Fail(chain, at) => Run::Fail(chain, at),
            Run::On(found, at) => {
                let user = proposal_prompt(
                    conflict_context(config, facts, found),
                    conversation,
                    selected_option,
                    requirements,
                );
                match cut_off(user, found.blocks@) {
                    Some(chain) => Run::Fail(chain, at),
                    None => some_of(
                        decided::<ConflictResolutionProposal>(
                            config,
                            CONFLICT_PROPOSAL_SYSTEM_PROMPT@,
                            user,
                            "conflict proposal"@,
                            replies,
                            at,
                        ),
                    ),
                }
            },
        },
    }
}

/// A run that prepares the post of a prompt whose answer is to be streamed.
pub open spec fn stream_post(
    config: Option<LlmConfig>,
    system: Seq<char>,
    user: Seq<char>,
    replies: Seq<Reply>,
    at: nat,
) -> Run<Option<ChatPostView>> {
    match switched_on(config) {
        None => Run::On(None, at),
        Some(config) => match in_context(
            asked::<String>(replies, at, key_request(config)),
            "missing LLM API key env "@ + config.api_key_env@,
        ) {
            Run::Ask(request) => Run::Ask(request),
            Run::Fail(chain, at) => Run::Fail(chain, at),
            Run::On(api_key, at) => match endpoint(config) {
                Err(message) => Run::Fail(seq![message], at),
                Ok(address) => Run::On(
                    Some(
                        ChatPostView {
                            endpoint: address,
                            api_key: api_key@,
                            model: config.model@,
                            system,
                            user,
                            timeout_seconds: timeout_of(config),
                        },
                    ),
                    at,
                ),
            },
        },
    }
}

fn write_evidence<'a>(evidence: &Evidence) -> (r: Result<String, Halt<'a>>)
    ensures
        match json_writing(evidence@) {
            Ok(text) => r matches Ok(found) && found@ == text,
            Err(message) => r matches Err(Halt::Fail(fault)) && fault@ == seq![message],
        },
{
    match evidence.to_json() {
        Ok(text) => Ok(text),
        Err(message) => Err(Halt::Fail(Fault::new(message))),
    }
}

/// The tasks that a language model does, with its settings.
pub struct LlmService<'a> {
    config: &'a Option<LlmConfig>,
}

impl<'a> LlmService<'a> {
    /// The settings of the model.
    pub closed spec fn settings(&self) -> Option<LlmConfig> {
        *self.config
    }

    /// The tasks of a model with given settings.
    pub fn new(config: &'a Option<LlmConfig>) -> (r: LlmService<'a>)
        ensures
            r.settings() == *config,
    {
        LlmService { config }
    }

    fn active(&self) -> (r: Option<&'a LlmConfig>)
        ensures
            match switched_on(self.settings()) {
                Some(config) => r matches Some(found) && *found == config,
                None => r is None,
            },
    {
        match self.config {
            Some(config) => if config.enabled {
                Some(config)
            } else {
                None
            },
            None => None,
        }
    }

    /// Explains a conflict.
    pub fn analyze_conflict(
        &self,
        request: &ConflictAnalysisRequest<'_>,
        journal: &mut Journal<'a>,
    ) -> (r: Result<Option<String>, Halt<'a>>)
        ensures
            follows_option(
                *old(journal),
                *final(journal),
                r,
                analysis(self.settings(), request@, old(journal).all(), old(journal).at()),
            ),
    {
        let config = match self.active() {
            Some(config) => config,
            None => {
                return Ok(None);
            },
        };
        let values = conflict_template_values(request);
        let system = render_template(
            configured_or(&config.prompts.conflict_system, DEFAULT_CONFLICT_SYSTEM_PROMPT),
            &values,
            config.max_prompt_bytes,
        );
        let user = build_conflict_prompt(request, config);
        let answer = call_chat(config, system.as_str(), user.as_str(), journal)?;
        Ok(Some(answer))
    }

    /// Resolves a conflict.
    pub fn auto_resolve_conflict(
        &self,
        request: &AutoResolveConflictRequest<'a>,
        journal: &mut Journal<'a>,
    ) -> (r: Result<Option<&'a AutoResolveDecision>, Halt<'a>>)
        ensures
            took_option(
                *old(journal),
                *final(journal),
                r,
                auto_resolution(
                    self.settings(),
                    request@,
                    *request.files,
                    old(journal).all(),
                    old(journal).at(),
                ),
            ),
    {
        let config = match self.active() {
            Some(config) => config,
            None => {
                return Ok(None);
            },
        };
        let found: &'a ConflictBlocks = journal.ask(
            Request::Conflict(ConflictCall::Blocks { files: request.files }),
        )?;
        let values = auto_resolve_template_values(request, found.rendered.as_str());
        let system = render_template(
            configured_or(&config.prompts.auto_resolve_system, DEFAULT_AUTO_RESOLVE_SYSTEM_PROMPT),
            &values,
            config.max_prompt_bytes,
        );
        let user = render_template(
            configured_or(&config.prompts.auto_resolve_user, DEFAULT_AUTO_RESOLVE_USER_PROMPT),
            &values,
            config.max_prompt_bytes,
        );
        if let Err(fault) = ensure_conflict_blocks_present(user.as_str(), &found.blocks) {
            return Err(Halt::Fail(fault));
        }
        let decision = call_json_with_repair::<AutoResolveDecision>(
            config,
            system.as_str(),
            user.as_str(),
            "auto resolve decision",
            journal,
        )?;
        Ok(Some(decision))
    }

    /// Sums a report up. `report` is its text.
    pub fn summarize_sync_report(&self, report: &str, journal: &mut Journal<'a>) -> (r: Result<
        Option<String>,
        Halt<'a>,
    >)
        ensures
            follows_option(
                *old(journal),
                *final(journal),
                r,
                summary(self.settings(), report@, old(journal).all(), old(journal).at()),
            ),
    {
        let config = match self.active() {
            Some(config) => config,
            None => {
                return Ok(None);
            },
        };
        let values = sync_summary_template_values(report);
        let system = render_template(
            configured_or(&config.prompts.sync_summary_system, DEFAULT_SYNC_SUMMARY_SYSTEM_PROMPT),
            &values,
            config.max_prompt_bytes,
        );
        let user = build_sync_summary_prompt(report, config);
        let answer = call_chat(config, system.as_str(), user.as_str(), journal)?;
        Ok(Some(answer))
    }

    /// Reviews a commit. What is in the commit reaches the model only as evidence, and never cut.
    pub fn review_security_change(
        &self,
        request: &SecurityReviewRequest,
        journal: &mut Journal<'a>,
    ) -> (r: Result<Option<&'a SecurityReviewDecision>, Halt<'a>>)
        ensures
            took_option(
                *old(journal),
                *final(journal),
                r,
                review(self.settings(), *request, old(journal).all(), old(journal).at()),
            ),
    {
        let config = match self.active() {
            Some(config) => config,
            None => {
                return Ok(None);
            },
        };
        let patch = write_evidence(&Evidence::text(request.patch.as_str()))?;
        let profiles = join(&request.profiles, ",");
        let mut user = concat5(
            "项目：",
            request.project.as_str(),
            "\n项目安全意图：",
            request.project_description.as_str(),
            "\n启用预设：",
        );
        user.append(profiles.as_str());
        user.append("\n提交：");
        user.append(request.commit.as_str());
        user.append("\n\n<untrusted_evidence encoding=\"json-string\">\n");
        user.append(patch.as_str());
        user.append("\n</untrusted_evidence>");
        let size: usize = byte_len(user.as_str());
        if size > config.max_prompt_bytes {
            let size = count_text(size);
            let limit = count_text(config.max_prompt_bytes);
            return Err(
                Halt::Fail(
                    Fault::new(
                        concat5(
                            "安全审计证据超过 LLM 上下文上限，已拒绝截断后放行：",
                            size.as_str(),
                            " bytes > ",
                            limit.as_str(),
                            " bytes",
                        ),
                    ),
                ),
            );
        }
        let decision = call_json_with_repair::<SecurityReviewDecision>(
            config,
            SECURITY_REVIEW_SYSTEM_PROMPT,
            user.as_str(),
            "security review decision",
            journal,
        )?;
        match validate_security_review_decision(decision) {
            Ok(()) => Ok(Some(decision)),
            Err(fault) => Err(Halt::Fail(fault)),
        }
    }

    /// Verifies a contract with a prompt of its own.
    pub fn verify_security_contract(
        &self,
        request: &SecurityContractVerificationRequest,
        journal: &mut Journal<'a>,
    ) -> (r: Result<Option<&'a SecurityContractVerificationDecision>, Halt<'a>>)
        ensures
            took_option(
                *old(journal),
                *final(journal),
                r,
                contract_verification(
                    self.settings(),
                    *request,
                    old(journal).all(),
                    old(journal).at(),
                ),
            ),
    {
        let config = match self.active() {
            Some(config) => config,
            None => {
                return Ok(None);
            },
        };
        let evidence = write_evidence(&verification_evidence(request))?;
        let user = concat3(
            "<untrusted_verification_evidence encoding=\"json\">\n",
            evidence.as_str(),
            "\n</untrusted_verification_evidence>",
        );
        if byte_len(user.as_str()) > config.max_prompt_bytes {
            return Err(
                Halt::Fail(
                    Fault::of("FixContract 验证证据超过 LLM 上下文上限，已失败关闭"),
                ),
            );
        }
        let decision = call_json_with_repair::<SecurityContractVerificationDecision>(
            config,
            SECURITY_VERIFIER_SYSTEM_PROMPT,
            user.as_str(),
            "security contract verification",
            journal,
        )?;
        if blank(decision.summary.as_str()) {
            return Err(
                Halt::Fail(Fault::of("security contract verification summary is empty")),
            );
        }
        Ok(Some(decision))
    }

    /// Chooses files for a signal, among those that are offered.
    pub fn select_signal_files(
        &self,
        request: &SignalFileSelectionRequest,
        journal: &mut Journal<'a>,
    ) -> (r: Result<Option<&'a SignalFileSelection>, Halt<'a>>)
        ensures
            took_option(
                *old(journal),
                *final(journal),
                r,
                selection(
                    self.settings(),
                    request.facts(),
                    texts(request.tracked_files@),
                    old(journal).all(),
                    old(journal).at(),
                ),
            ),
    {
        let config = match self.active() {
            Some(config) => config,
            None => {
                return Ok(None);
            },
        };
        let evidence = write_evidence(&selection_evidence(request))?;
        let user = concat3(
            "<untrusted_evidence encoding=\"json\">",
            evidence.as_str(),
            "</untrusted_evidence>",
        );
        if byte_len(user.as_str()) > config.max_prompt_bytes {
            return Err(Halt::Fail(Fault::of("安全消息文件选择证据过大")));
        }
        let selection = call_json_with_repair::<SignalFileSelection>(
            config,
            SIGNAL_FILE_SELECTOR_SYSTEM_PROMPT,
            user.as_str(),
            "security signal file selection",
            journal,
        )?;
        if selection.paths.len() > 3 {
            return Err(Halt::Fail(Fault::of("DS 选择的取证文件超过 3 个")));
        }
        Ok(Some(selection))
    }

    /// Judges a signal from the files that were chosen.
    pub fn investigate_signal(
        &self,
        request: &SignalInvestigationRequest,
        journal: &mut Journal<'a>,
    ) -> (r: Result<Option<SignalInvestigationDecision>, Halt<'a>>)
        ensures
            follows_option(
                *old(journal),
                *final(journal),
                r,
                investigation(
                    self.settings(),
                    request.facts(),
                    file_views(request.file_evidence@),
                    old(journal).all(),
                    old(journal).at(),
                ),
            ),
    {
        let config = match self.active() {
            Some(config) => config,
            None => {
                return Ok(None);
            },
        };
        let evidence = write_evidence(&investigation_evidence(request))?;
        let user = concat3(
            "<untrusted_evidence encoding=\"json\">",
            evidence.as_str(),
            "</untrusted_evidence>",
        );
        if byte_len(user.as_str()) > config.max_prompt_bytes {
            return Err(Halt::Fail(Fault::of("安全消息调查证据过大")));
        }
        let given = call_json_with_repair::<SignalInvestigationDecision>(
            config,
            SIGNAL_INVESTIGATION_SYSTEM_PROMPT,
            user.as_str(),
            "security signal investigation",
            journal,
        )?;
        let decision = count_as_fix(given);
        if let Err(fault) = validate_security_review_decision(&decision.review) {
            return Err(Halt::Fail(fault));
        }
        if decision.changes.len() > 12 {
            return Err(Halt::Fail(Fault::of("DS 返回的候选文件超过 12 个")));
        }
        Ok(Some(decision))
    }

    /// Names the ways out of a conflict that a person has to decide.
    pub fn conflict_options(
        &self,
        request: &AutoResolveConflictRequest<'a>,
        conversation: &str,
        journal: &mut Journal<'a>,
    ) -> (r: Result<Option<&'a ConflictOptionsDecision>, Halt<'a>>)
        ensures
            took_option(
                *old(journal),
                *final(journal),
                r,
                ways_out(
                    self.settings(),
                    request@,
                    *request.files,
                    conversation@,
                    old(journal).all(),
                    old(journal).at(),
                ),
            ),
    {
        let config = match self.active() {
            Some(config) => config,
            None => {
                return Ok(None);
            },
        };
        let found: &'a ConflictBlocks = journal.ask(
            Request::Conflict(ConflictCall::Blocks { files: request.files }),
        )?;
        let values = auto_resolve_template_values(request, found.rendered.as_str());
        let context = render_template(CONFLICT_CONTEXT_TEMPLATE, &values, config.max_prompt_bytes);
        let user = concat5(
            context.as_str(),
            "\n\n对话与人工要求：\n",
            conversation,
            "\n\n输出格式：\n",
            CONFLICT_OPTIONS_FORMAT,
        );
        if let Err(fault) = ensure_conflict_blocks_present(user.as_str(), &found.blocks) {
            return Err(Halt::Fail(fault));
        }
        let decision = call_json_with_repair::<ConflictOptionsDecision>(
            config,
            CONFLICT_OPTIONS_SYSTEM_PROMPT,
            user.as_str(),
            "conflict options",
            journal,
        )?;
        if decision.options.len() < 2 || decision.options.len() > 4 {
            return Err(Halt::Fail(Fault::of("conflict options must contain 2 to 4 items")));
        }
        Ok(Some(decision))
    }

    /// Works out what a person decided on a conflict.
    pub fn conflict_proposal(
        &self,
        request: &AutoResolveConflictRequest<'a>,
        conversation: &str,
        selected_option: &str,
        requirements: &str,
        journal: &mut Journal<'a>,
    ) -> (r: Result<Option<&'a ConflictResolutionProposal>, Halt<'a>>)
        ensures
            took_option(
                *old(journal),
                *final(journal),
                r,
                proposal(
                    self.settings(),
                    request@,
                    *request.files,
                    conversation@,
                    selected_option@,
                    requirements@,
                    old(journal).all(),
                    old(journal).at(),
                ),
            ),
    {
        let config = match self.active() {
            Some(config) => config,
            None => {
                return Ok(None);
            },
        };
        let found: &'a ConflictBlocks = journal.ask(
            Request::Conflict(ConflictCall::Blocks { files: request.files }),
        )?;
        let values = auto_resolve_template_values(request, found.rendered.as_str());
        let context = render_template(CONFLICT_CONTEXT_TEMPLATE, &values, config.max_prompt_bytes);
        let mut user = concat5(
            context.as_str(),
            "\n\n对话记录：\n",
            conversation,
            "\n\n选定方案：\n",
            selected_option,
        );
        user.append("\n\n补充要求：\n");
        user.append(requirements);
        user.append("\n\n输出格式：\n");
        user.append(CONFLICT_PROPOSAL_FORMAT);
        if let Err(fault) = ensure_conflict_blocks_present(user.as_str(), &found.blocks) {
            return Err(Halt::Fail(fault));
        }
        let decision = call_json_with_repair::<ConflictResolutionProposal>(
            config,
            CONFLICT_PROPOSAL_SYSTEM_PROMPT,
            user.as_str(),
            "conflict proposal",
            journal,
        )?;
        Ok(Some(decision))
    }

    /// Prepares the post of a prompt whose answer is to be streamed. The answer is read with a
    /// `ChatStream`.
    pub fn assistant_reply_streaming(
        &self,
        system_prompt: &str,
        user_prompt: &str,
        journal: &mut Journal<'a>,
    ) -> (r: Result<Option<ChatPost>, Halt<'a>>)
        ensures
            follows_option(
                *old(journal),
                *final(journal),
                r,
                stream_post(
                    self.settings(),
                    system_prompt@,
                    user_prompt@,
                    old(journal).all(),
                    old(journal).at(),
                ),
            ),
    {
        let config = match self.active() {
            Some(config) => config,
            None => {
                return Ok(None);
            },
        };
        let request = Request::Model(ModelCall::ApiKey { variable: config.api_key_env.as_str() });
        let api_key: &'a String = match journal.ask(request) {
            Ok(api_key) => api_key,
            Err(halt) => {
                let message = concat2("missing LLM API key env ", config.api_key_env.as_str());
                return Err(halt.context(message));
            },
        };
        let address = match chat_completions_endpoint(config) {
            Ok(address) => address,
            Err(fault) => {
                return Err(Halt::Fail(fault));
            },
        };
        Ok(
            Some(
                ChatPost {
                    endpoint: address,
                    api_key: api_key.clone(),
                    model: config.model.clone(),
                    system: system_prompt.to_owned(),
                    user: user_prompt.to_owned(),
                    timeout_seconds: request_timeout(config),
                },
            ),
        )
    }
}

/// A judgement on a signal as it is used.
pub fn count_as_fix(given: &SignalInvestigationDecision) -> (r: SignalInvestigationDecision)
    ensures
        r@ == as_fix(given@),
{
    let mut decision = given.copy();
    if decision.review.affected == Some(true) && decision.changes.len() > 0
        && decision.review.fix_contract.is_some() {
        decision.review.security_fix_detected = true;
    }
    decision
}

} // verus!
