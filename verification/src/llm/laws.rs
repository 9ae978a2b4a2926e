//! What holds of every conversation with the model.

use vstd::prelude::*;

use crate::calls::model::{DecisionKind, ModelView};
use crate::calls::RequestView;
use crate::config::LlmConfig;
use crate::data::{json_writing, DataView};
use crate::journal::{asked, Reply, Run};
use crate::llm::evidence::{investigation_data, selection_data, verification_data};
use crate::llm::prompts::{
    conflict_values, cut_to, prompt_or, rendered, resolve_values, summary_values,
    CONFLICT_OPTIONS_SYSTEM_PROMPT, DEFAULT_AUTO_RESOLVE_SYSTEM_PROMPT,
    DEFAULT_AUTO_RESOLVE_USER_PROMPT, DEFAULT_CONFLICT_SYSTEM_PROMPT, DEFAULT_CONFLICT_USER_PROMPT,
    DEFAULT_SYNC_SUMMARY_SYSTEM_PROMPT, DEFAULT_SYNC_SUMMARY_USER_PROMPT,
    SECURITY_REVIEW_SYSTEM_PROMPT, SECURITY_VERIFIER_SYSTEM_PROMPT,
    SIGNAL_FILE_SELECTOR_SYSTEM_PROMPT, SIGNAL_INVESTIGATION_SYSTEM_PROMPT,
};
use crate::llm::protocol::{decided, decoded, repair_prompt, review_fault, Decision};
use crate::llm::transport::{attempts_of, chat, chat_from, chat_once, endpoint, endpoint_at};
use crate::llm::types::{
    AutoResolveDecision, ConflictFacts, ConflictOptionsDecision,
    SecurityContractVerificationRequest, SecurityReviewRequest, SignalFacts,
};
use crate::llm::{
    analysis, auto_resolution, blocks_request, conflict_context, contract_verification,
    investigation, marked, options_prompt, review, review_prompt, selection, summary, switched_on,
    verification_prompt, ways_out,
};
use crate::protection::types::{
    SecurityContractVerificationDecision, SecurityReviewDecision, SignalFileSelection,
    SignalInvestigationDecision,
};
use crate::replay::{lemma_beginning, lemma_chat_from_is_steady, lemma_nothing_more};
use crate::repo::{ConflictBlocks, ConflictFileContent};
use crate::text::{fitting_prefix, lemma_fitting_prefix_fits, lemma_utf8_len_concat, utf8_len};

verus! {

/// Whether a request, if it posts prompts, posts them to the address in the settings.
pub open spec fn posts_home(config: LlmConfig, request: RequestView) -> bool {
    request matches RequestView::Model(ModelView::Post { post }) ==> endpoint(config) == Ok::<
        Seq<char>,
        Seq<char>,
    >(post.endpoint)
}

/// A conversation asks for nothing but steps of the conversation, and posts prompts only to the
/// address in the settings.
pub proof fn lemma_chat_asks_the_model(
    config: LlmConfig,
    system: Seq<char>,
    user: Seq<char>,
    attempt: nat,
    replies: Seq<Reply>,
    at: nat,
)
    ensures
        chat_from(config, system, user, attempt, replies, at) matches Run::Ask(request)
            ==> request is Model && posts_home(config, request),
    decreases attempts_of(config) - attempt,
{
    if let Run::Fail(_, next) = chat_once(config, system, user, replies, at) {
        if attempt < attempts_of(config) {
            lemma_chat_asks_the_model(config, system, user, attempt + 1, replies, next + 1);
        }
    }
}

/// A conversation is bounded: it reads three replies for each try at the most, the key, the answer
/// and the pause.
pub proof fn lemma_chat_is_bounded(
    config: LlmConfig,
    system: Seq<char>,
    user: Seq<char>,
    attempt: nat,
    replies: Seq<Reply>,
    at: nat,
)
    requires
        1 <= attempt <= attempts_of(config),
    ensures
        match chat_from(config, system, user, attempt, replies, at) {
            Run::Ask(_) => replies.len() <= at || replies.len() < at + 3 * (attempts_of(config)
                - attempt + 1),
            Run::Fail(_, end) => end <= at + 3 * (attempts_of(config) - attempt + 1),
            Run::On(_, end) => end <= at + 3 * (attempts_of(config) - attempt + 1),
        },
    decreases attempts_of(config) - attempt,
{
    if let Run::Fail(_, next) = chat_once(config, system, user, replies, at) {
        if attempt < attempts_of(config) {
            lemma_chat_is_bounded(config, system, user, attempt + 1, replies, next + 1);
        }
    }
}

/// Asking for a decision asks for nothing but steps of a conversation, and posts prompts only to the
/// address in the settings.
pub proof fn lemma_decision_asks_the_model<T: Decision>(
    config: LlmConfig,
    system: Seq<char>,
    user: Seq<char>,
    purpose: Seq<char>,
    replies: Seq<Reply>,
    at: nat,
)
    ensures
        decided::<T>(config, system, user, purpose, replies, at) matches Run::Ask(request)
            ==> request is Model && posts_home(config, request),
{
    lemma_chat_asks_the_model(config, system, user, 1, replies, at);
    if let Run::On(response, next) = chat(config, system, user, replies, at) {
        if let Run::Fail(_, after) = decoded::<T>(response, purpose, replies, next) {
            lemma_chat_asks_the_model(config, system, repair_prompt(user), 1, replies, after);
        }
    }
}

/// Whether a request is to read a decision of some kind from an answer.
pub open spec fn decodes(request: RequestView, kind: DecisionKind) -> bool {
    request matches RequestView::Model(ModelView::Decode { kind: asked, .. }) && asked == kind
}

/// A decision is what the last reply of its run carries, and that reply answers the request to read
/// the decision.
pub proof fn lemma_decision_is_a_reply<T: Decision>(
    config: LlmConfig,
    system: Seq<char>,
    user: Seq<char>,
    purpose: Seq<char>,
    replies: Seq<Reply>,
    at: nat,
)
    requires
        at <= replies.len(),
    ensures
        decided::<T>(config, system, user, purpose, replies, at) matches Run::On(decision, end) ==> {
            &&& at < end <= replies.len()
            &&& T::in_reply(replies[end - 1]) == Some(decision)
            &&& decided::<T>(config, system, user, purpose, replies.take(end - 1), at)
                matches Run::Ask(request) && decodes(request, T::kind())
        },
{
    if let Run::On(_, end) = decided::<T>(config, system, user, purpose, replies, at) {
        let k = end - 1;
        let known = replies.take(k);
        let more = replies.skip(k);
        let none = Seq::<Reply>::empty();
        lemma_nothing_more(replies);
        lemma_chat_from_is_steady(config, system, user, 1, replies, none, at);
        let response = chat(config, system, user, replies, at)->On_0;
        let next = chat(config, system, user, replies, at)->On_1;
        if let Run::Fail(_, after) = decoded::<T>(response, purpose, replies, next) {
            lemma_chat_from_is_steady(
                config,
                system,
                repair_prompt(user),
                1,
                replies,
                none,
                after,
            );
        }
        lemma_beginning(replies, k);
        lemma_chat_from_is_steady(config, system, user, 1, known, more, at);
        if let Run::Fail(_, after) = decoded::<T>(response, purpose, replies, next) {
            lemma_chat_from_is_steady(
                config,
                system,
                repair_prompt(user),
                1,
                known,
                more,
                after,
            );
            if next < k {
                assert(known[next as int] == replies[next as int]);
            }
        }
    }
}

/// An answer that is no decision is asked for once more, and not again: a decision takes two
/// conversations at the most.
pub proof fn lemma_decision_is_bounded<T: Decision>(
    config: LlmConfig,
    system: Seq<char>,
    user: Seq<char>,
    purpose: Seq<char>,
    replies: Seq<Reply>,
    at: nat,
)
    requires
        at <= replies.len(),
    ensures
        match decided::<T>(config, system, user, purpose, replies, at) {
            Run::Ask(_) => replies.len() < at + 2 * (3 * attempts_of(config) + 1),
            Run::Fail(_, end) => end <= at + 2 * (3 * attempts_of(config) + 1),
            Run::On(_, end) => end <= at + 2 * (3 * attempts_of(config) + 1),
        },
{
    lemma_chat_is_bounded(config, system, user, 1, replies, at);
    if let Run::On(response, next) = chat(config, system, user, replies, at) {
        if let Run::Fail(_, after) = decoded::<T>(response, purpose, replies, next) {
            lemma_chat_is_bounded(config, system, repair_prompt(user), 1, replies, after);
        }
    }
}

/// Whether a request, if it posts prompts, posts the given ones.
pub open spec fn carries(request: RequestView, system: Seq<char>, user: Seq<char>) -> bool {
    request matches RequestView::Model(ModelView::Post { post }) ==> post.system == system
        && post.user == user
}

/// A conversation posts its own prompts in every try.
pub proof fn lemma_chat_carries_its_prompts(
    config: LlmConfig,
    system: Seq<char>,
    user: Seq<char>,
    attempt: nat,
    replies: Seq<Reply>,
    at: nat,
)
    ensures
        chat_from(config, system, user, attempt, replies, at) matches Run::Ask(request)
            ==> carries(request, system, user),
    decreases attempts_of(config) - attempt,
{
    if let Run::Fail(_, next) = chat_once(config, system, user, replies, at) {
        if attempt < attempts_of(config) {
            lemma_chat_carries_its_prompts(config, system, user, attempt + 1, replies, next + 1);
        }
    }
}

/// Whether a request, if it posts prompts, posts the given ones, or repeats the task after an answer
/// that was no JSON.
pub open spec fn carries_task(request: RequestView, system: Seq<char>, user: Seq<char>) -> bool {
    carries(request, system, user) || carries(request, system, repair_prompt(user))
}

/// Asking for a decision posts its own prompts.
pub proof fn lemma_decision_carries_its_prompts<T: Decision>(
    config: LlmConfig,
    system: Seq<char>,
    user: Seq<char>,
    purpose: Seq<char>,
    replies: Seq<Reply>,
    at: nat,
)
    ensures
        decided::<T>(config, system, user, purpose, replies, at) matches Run::Ask(request)
            ==> carries_task(request, system, user),
{
    lemma_chat_carries_its_prompts(config, system, user, 1, replies, at);
    if let Run::On(response, next) = chat(config, system, user, replies, at) {
        if let Run::Fail(_, after) = decoded::<T>(response, purpose, replies, next) {
            lemma_chat_carries_its_prompts(config, system, repair_prompt(user), 1, replies, after);
        }
    }
}

/// The content of a commit is posted inside the marks alone, as a JSON text and never cut; the
/// instructions are the fixed ones, whatever the commit holds.
pub proof fn lemma_commit_stays_inside_the_marks(
    config: Option<LlmConfig>,
    request: SecurityReviewRequest,
    replies: Seq<Reply>,
    at: nat,
)
    ensures
        review(config, request, replies, at) matches Run::Ask(step) ==> {
            &&& config matches Some(on)
            &&& json_writing(DataView::Text(request.patch@)) matches Ok(patch)
            &&& utf8_len(review_prompt(request, patch)) <= on.max_prompt_bytes
            &&& carries_task(step, SECURITY_REVIEW_SYSTEM_PROMPT@, review_prompt(request, patch))
        },
{
    if let Some(on) = switched_on(config) {
        if let Ok(patch) = json_writing(DataView::Text(request.patch@)) {
            lemma_decision_carries_its_prompts::<SecurityReviewDecision>(
                on,
                SECURITY_REVIEW_SYSTEM_PROMPT@,
                review_prompt(request, patch),
                "security review decision"@,
                replies,
                at,
            );
        }
    }
}

/// A contract is verified under instructions of its own, with its evidence inside the marks and
/// never cut.
pub proof fn lemma_verifier_has_its_own_prompt(
    config: Option<LlmConfig>,
    request: SecurityContractVerificationRequest,
    replies: Seq<Reply>,
    at: nat,
)
    ensures
        contract_verification(config, request, replies, at) matches Run::Ask(step) ==> {
            &&& config matches Some(on)
            &&& json_writing(verification_data(request)) matches Ok(evidence)
            &&& utf8_len(verification_prompt(evidence)) <= on.max_prompt_bytes
            &&& carries_task(step, SECURITY_VERIFIER_SYSTEM_PROMPT@, verification_prompt(evidence))
        },
{
    if let Some(on) = switched_on(config) {
        if let Ok(evidence) = json_writing(verification_data(request)) {
            lemma_decision_carries_its_prompts::<SecurityContractVerificationDecision>(
                on,
                SECURITY_VERIFIER_SYSTEM_PROMPT@,
                verification_prompt(evidence),
                "security contract verification"@,
                replies,
                at,
            );
        }
    }
}

/// A signal, and the files that are read for it, are posted inside the marks alone and never cut;
/// the instructions are the fixed ones, whatever the signal and the files hold.
pub proof fn lemma_signal_stays_inside_the_marks(
    config: Option<LlmConfig>,
    facts: SignalFacts,
    offered: Seq<Seq<char>>,
    files: Seq<(Seq<char>, Seq<char>)>,
    replies: Seq<Reply>,
    at: nat,
)
    ensures
        selection(config, facts, offered, replies, at) matches Run::Ask(step) ==> {
            &&& config matches Some(on)
            &&& json_writing(selection_data(facts, offered)) matches Ok(evidence)
            &&& utf8_len(marked(evidence)) <= on.max_prompt_bytes
            &&& carries_task(step, SIGNAL_FILE_SELECTOR_SYSTEM_PROMPT@, marked(evidence))
        },
        investigation(config, facts, files, replies, at) matches Run::Ask(step) ==> {
            &&& config matches Some(on)
            &&& json_writing(investigation_data(facts, files)) matches Ok(evidence)
            &&& utf8_len(marked(evidence)) <= on.max_prompt_bytes
            &&& carries_task(step, SIGNAL_INVESTIGATION_SYSTEM_PROMPT@, marked(evidence))
        },
{
    if let Some(on) = switched_on(config) {
        if let Ok(evidence) = json_writing(selection_data(facts, offered)) {
            lemma_decision_carries_its_prompts::<SignalFileSelection>(
                on,
                SIGNAL_FILE_SELECTOR_SYSTEM_PROMPT@,
                marked(evidence),
                "security signal file selection"@,
                replies,
                at,
            );
        }
        if let Ok(evidence) = json_writing(investigation_data(facts, files)) {
            lemma_decision_carries_its_prompts::<SignalInvestigationDecision>(
                on,
                SIGNAL_INVESTIGATION_SYSTEM_PROMPT@,
                marked(evidence),
                "security signal investigation"@,
                replies,
                at,
            );
        }
    }
}

/// A review that is handed out has nothing wrong with it.
pub proof fn lemma_review_is_checked(
    config: Option<LlmConfig>,
    request: SecurityReviewRequest,
    replies: Seq<Reply>,
    at: nat,
)
    ensures
        review(config, request, replies, at) matches Run::On(Some(decision), _) ==> review_fault(
            decision@,
        ) is None,
{
}

/// A judgement on a signal that is handed out has nothing wrong with it, and a choice of files names
/// three files at the most.
pub proof fn lemma_signal_answers_are_checked(
    config: Option<LlmConfig>,
    facts: SignalFacts,
    offered: Seq<Seq<char>>,
    files: Seq<(Seq<char>, Seq<char>)>,
    replies: Seq<Reply>,
    at: nat,
)
    ensures
        selection(config, facts, offered, replies, at) matches Run::On(Some(chosen), _)
            ==> chosen.paths@.len() <= 3,
        investigation(config, facts, files, replies, at) matches Run::On(Some(decision), _)
            ==> review_fault(decision.review) is None && decision.changes.len() <= 12,
{
}

/// Whether a request is a step of a conversation, or asks for the conflicts in given files.
pub open spec fn is_model_step(request: RequestView, files: Vec<ConflictFileContent>) -> bool {
    request is Model || request == blocks_request(files)
}

/// Explaining a conflict asks for nothing but steps of a conversation.
pub proof fn lemma_analysis_asks_the_model(
    config: Option<LlmConfig>,
    facts: ConflictFacts,
    replies: Seq<Reply>,
    at: nat,
)
    ensures
        analysis(config, facts, replies, at) matches Run::Ask(request) ==> request is Model,
{
    if let Some(on) = switched_on(config) {
        let system = rendered(
            prompt_or(on.prompts.conflict_system, DEFAULT_CONFLICT_SYSTEM_PROMPT@),
            conflict_values(facts),
            on.max_prompt_bytes as nat,
        );
        let user = rendered(
            prompt_or(on.prompts.conflict_user, DEFAULT_CONFLICT_USER_PROMPT@),
            conflict_values(facts),
            on.max_prompt_bytes as nat,
        );
        lemma_chat_asks_the_model(on, system, user, 1, replies, at);
    }
}

/// Resolving a conflict asks for nothing but steps of a conversation and the conflicts themselves.
pub proof fn lemma_resolution_asks_the_model(
    config: Option<LlmConfig>,
    facts: ConflictFacts,
    files: Vec<ConflictFileContent>,
    replies: Seq<Reply>,
    at: nat,
)
    ensures
        auto_resolution(config, facts, files, replies, at) matches Run::Ask(request)
            ==> is_model_step(request, files),
{
    if let Some(on) = switched_on(config) {
        if let Run::On(found, next) = asked::<ConflictBlocks>(
            replies,
            at,
            blocks_request(files),
        ) {
            let values = resolve_values(facts, found.rendered@);
            let system = rendered(
                prompt_or(on.prompts.auto_resolve_system, DEFAULT_AUTO_RESOLVE_SYSTEM_PROMPT@),
                values,
                on.max_prompt_bytes as nat,
            );
            let user = rendered(
                prompt_or(on.prompts.auto_resolve_user, DEFAULT_AUTO_RESOLVE_USER_PROMPT@),
                values,
                on.max_prompt_bytes as nat,
            );
            lemma_decision_asks_the_model::<AutoResolveDecision>(
                on,
                system,
                user,
                "auto resolve decision"@,
                replies,
                next,
            );
        }
    }
}

/// A resolution is what the last reply of its run carries, and that reply answers the request to
/// read it.
pub proof fn lemma_resolution_is_a_reply(
    config: Option<LlmConfig>,
    facts: ConflictFacts,
    files: Vec<ConflictFileContent>,
    replies: Seq<Reply>,
    at: nat,
)
    requires
        at <= replies.len(),
    ensures
        auto_resolution(config, facts, files, replies, at) matches Run::On(Some(decision), end) ==> {
            &&& at < end <= replies.len()
            &&& replies[end - 1] == Reply::AutoResolve(decision)
            &&& auto_resolution(config, facts, files, replies.take(end - 1), at) matches Run::Ask(
                request,
            ) && decodes(request, DecisionKind::AutoResolve)
        },
{
    if let Some(on) = switched_on(config) {
        if let Run::On(found, next) = asked::<ConflictBlocks>(
            replies,
            at,
            blocks_request(files),
        ) {
            let values = resolve_values(facts, found.rendered@);
            let system = rendered(
                prompt_or(on.prompts.auto_resolve_system, DEFAULT_AUTO_RESOLVE_SYSTEM_PROMPT@),
                values,
                on.max_prompt_bytes as nat,
            );
            let user = rendered(
                prompt_or(on.prompts.auto_resolve_user, DEFAULT_AUTO_RESOLVE_USER_PROMPT@),
                values,
                on.max_prompt_bytes as nat,
            );
            lemma_decision_is_a_reply::<AutoResolveDecision>(
                on,
                system,
                user,
                "auto resolve decision"@,
                replies,
                next,
            );
            if let Run::On(Some(_), end) = auto_resolution(config, facts, files, replies, at) {
                assert(replies.take(end - 1)[at as int] == replies[at as int]);
            }
        }
    }
}

/// Summing a report up asks for nothing but steps of a conversation.
pub proof fn lemma_summary_asks_the_model(
    config: Option<LlmConfig>,
    report: Seq<char>,
    replies: Seq<Reply>,
    at: nat,
)
    ensures
        summary(config, report, replies, at) matches Run::Ask(request) ==> request is Model,
{
    if let Some(on) = switched_on(config) {
        let system = rendered(
            prompt_or(on.prompts.sync_summary_system, DEFAULT_SYNC_SUMMARY_SYSTEM_PROMPT@),
            summary_values(report),
            on.max_prompt_bytes as nat,
        );
        let user = rendered(
            prompt_or(on.prompts.sync_summary_user, DEFAULT_SYNC_SUMMARY_USER_PROMPT@),
            summary_values(report),
            on.max_prompt_bytes as nat,
        );
        lemma_chat_asks_the_model(on, system, user, 1, replies, at);
    }
}

/// Naming the ways out of a conflict asks for nothing but steps of a conversation and the conflicts
/// themselves.
pub proof fn lemma_ways_out_ask_the_model(
    config: Option<LlmConfig>,
    facts: ConflictFacts,
    files: Vec<ConflictFileContent>,
    conversation: Seq<char>,
    replies: Seq<Reply>,
    at: nat,
)
    ensures
        ways_out(config, facts, files, conversation, replies, at) matches Run::Ask(request)
            ==> is_model_step(request, files),
{
    if let Some(on) = switched_on(config) {
        if let Run::On(found, next) = asked::<ConflictBlocks>(
            replies,
            at,
            blocks_request(files),
        ) {
            lemma_decision_asks_the_model::<ConflictOptionsDecision>(
                on,
                CONFLICT_OPTIONS_SYSTEM_PROMPT@,
                options_prompt(conflict_context(on, facts, found), conversation),
                "conflict options"@,
                replies,
                next,
            );
        }
    }
}

/// Choosing files asks for nothing but steps of a conversation, and posts prompts only to the address
/// in the settings.
pub proof fn lemma_selection_asks_the_model(
    config: Option<LlmConfig>,
    facts: SignalFacts,
    offered: Seq<Seq<char>>,
    replies: Seq<Reply>,
    at: nat,
)
    ensures
        selection(config, facts, offered, replies, at) matches Run::Ask(request)
            ==> request is Model && (config matches Some(on) && posts_home(on, request)),
{
    if let Some(on) = switched_on(config) {
        if let Ok(evidence) = json_writing(selection_data(facts, offered)) {
            lemma_decision_asks_the_model::<SignalFileSelection>(
                on,
                SIGNAL_FILE_SELECTOR_SYSTEM_PROMPT@,
                marked(evidence),
                "security signal file selection"@,
                replies,
                at,
            );
        }
    }
}

/// Judging a signal asks for nothing but steps of a conversation, and posts prompts only to the
/// address in the settings.
pub proof fn lemma_investigation_asks_the_model(
    config: Option<LlmConfig>,
    facts: SignalFacts,
    files: Seq<(Seq<char>, Seq<char>)>,
    replies: Seq<Reply>,
    at: nat,
)
    ensures
        investigation(config, facts, files, replies, at) matches Run::Ask(request)
            ==> request is Model && (config matches Some(on) && posts_home(on, request)),
{
    if let Some(on) = switched_on(config) {
        if let Ok(evidence) = json_writing(investigation_data(facts, files)) {
            lemma_decision_asks_the_model::<SignalInvestigationDecision>(
                on,
                SIGNAL_INVESTIGATION_SYSTEM_PROMPT@,
                marked(evidence),
                "security signal investigation"@,
                replies,
                at,
            );
        }
    }
}

/// A model that is switched off is asked nothing, and gives nothing.
pub proof fn lemma_switched_off_asks_nothing(
    config: Option<LlmConfig>,
    facts: ConflictFacts,
    files: Vec<ConflictFileContent>,
    report: Seq<char>,
    replies: Seq<Reply>,
    at: nat,
)
    requires
        switched_on(config) is None,
    ensures
        analysis(config, facts, replies, at) == Run::On(None::<Seq<char>>, at),
        auto_resolution(config, facts, files, replies, at) == Run::On(
            None::<AutoResolveDecision>,
            at,
        ),
        summary(config, report, replies, at) == Run::On(None::<Seq<char>>, at),
{
}

/// A prompt is never longer than its limit and the mark of a cut together.
pub proof fn lemma_prompt_is_bounded(text: Seq<char>, max: nat)
    ensures
        utf8_len(cut_to(text, max)) <= max + utf8_len(
            "\n... prompt truncated by TermiteRS ...\n"@,
        ),
{
    if utf8_len(text) > max {
        lemma_fitting_prefix_fits(text, max);
        lemma_utf8_len_concat(
            fitting_prefix(text, max),
            "\n... prompt truncated by TermiteRS ...\n"@,
        );
    }
}

/// An address of chat completions is its own: under it stand the same chat completions.
pub proof fn lemma_endpoint_is_stable(base: Seq<char>)
    ensures
        endpoint_at(endpoint_at(base)) == endpoint_at(base),
{
    let suffix = "/chat/completions"@;
    let address = endpoint_at(base);
    let at = address.len() - suffix.len();
    reveal_strlit("/chat/completions");
    assert(suffix.last() == 's');
    assert(address.subrange(at, address.len() as int) =~= suffix);
    assert(address.last() == address.subrange(at, address.len() as int).last());
}

} // verus!
