//! What the answers of the model must look like.
//!
//! An answer is checked here before any rule relies on it.

use vstd::prelude::*;

use crate::calls::model::{DecisionKind, ModelCall, ModelView};
use crate::calls::{Request, RequestView};
use crate::config::LlmConfig;
use crate::fault::{alone, checked, fault_text, Fault};
use crate::journal::{asked, caught, in_context, took, Answer, Halt, Journal, Reply, Run};
use crate::llm::transport::{call_chat, chat};
use crate::llm::types::{
    AutoResolveDecision, ConflictOptionsDecision, ConflictResolutionProposal,
};
use crate::protection::types::{
    ContractView, ReviewView, SecurityContractVerificationDecision, SecurityReviewDecision,
    SignalFileSelection, SignalInvestigationDecision,
};
use crate::text::pattern::{
    begins_with, ends_with, find_char, find_last_char, finishes_with, starts_with,
};
use crate::text::{
    blank, chars_of, concat2, concat3, concat4, is_blank, text_range, trim, trimmed,
};

verus! {

/// Whether a contract says everything that it has to.
pub open spec fn is_complete(contract: ContractView) -> bool {
    &&& !is_blank(contract.security_property)
    &&& !is_blank(contract.vulnerable_behavior)
    &&& !is_blank(contract.fixed_behavior)
    &&& contract.regression_cases.len() > 0
}

/// What is wrong with a judgement on a change.
pub open spec fn review_fault(review: ReviewView) -> Option<Seq<char>> {
    if is_blank(review.summary) {
        Some("security review summary is empty"@)
    } else if is_blank(review.mechanism) {
        Some("security review mechanism is empty"@)
    } else if (review.security_fix_detected || review.introduced_risk) && review.evidence.len()
        == 0 {
        Some("security-related review must include concrete evidence"@)
    } else {
        match review.fix_contract {
            None => None,
            Some(contract) => if !review.security_fix_detected {
                Some("FixContract is only valid for a detected security fix"@)
            } else if !is_complete(contract) {
                Some("FixContract is incomplete"@)
            } else {
                None
            },
        }
    }
}

/// Checks a judgement on a change.
pub fn validate_security_review_decision(decision: &SecurityReviewDecision) -> (r: Result<(), Fault>)
    ensures
        checked(r) == alone(review_fault(decision@)),
{
    if blank(decision.summary.as_str()) {
        return Err(Fault::of("security review summary is empty"));
    }
    if blank(decision.mechanism.as_str()) {
        return Err(Fault::of("security review mechanism is empty"));
    }
    if (decision.security_fix_detected || decision.introduced_risk) && decision.evidence.len()
        == 0 {
        return Err(Fault::of("security-related review must include concrete evidence"));
    }
    if let Some(contract) = &decision.fix_contract {
        if !decision.security_fix_detected {
            return Err(Fault::of("FixContract is only valid for a detected security fix"));
        }
        if blank(contract.security_property.as_str()) || blank(
            contract.vulnerable_behavior.as_str(),
        ) || blank(contract.fixed_behavior.as_str()) || contract.regression_cases.len() == 0 {
            return Err(Fault::of("FixContract is incomplete"));
        }
    }
    Ok(())
}

/// The JSON object in an answer: the whole of it, or what reaches from the first opening brace to
/// the last closing one; or why there is none.
pub open spec fn json_object(text: Seq<char>) -> Result<Seq<char>, Seq<char>> {
    let text = trimmed(text);
    if begins_with(text, "{"@) && finishes_with(text, "}"@) {
        Ok(text)
    } else {
        match text.index_of_first('{') {
            None => Err("auto resolve response did not contain JSON object"@),
            Some(start) => match text.index_of_last('}') {
                None => Err("auto resolve response did not contain JSON object end"@),
                Some(end) => if start >= end {
                    Err("auto resolve response contained invalid JSON object bounds"@)
                } else {
                    Ok(text.subrange(start, end + 1))
                },
            },
        }
    }
}

/// Finds the JSON object in an answer.
pub fn extract_json_object(text: &str) -> (r: Result<String, Fault>)
    ensures
        match json_object(text@) {
            Ok(json) => r matches Ok(found) && found@ == json,
            Err(message) => r matches Err(fault) && fault@ == seq![message],
        },
{
    let text = trim(text);
    if starts_with(text.as_str(), "{") && ends_with(text.as_str(), "}") {
        return Ok(text);
    }
    let chars = chars_of(text.as_str());
    let start = match find_char(&chars, '{') {
        Some(start) => start,
        None => {
            return Err(Fault::of("auto resolve response did not contain JSON object"));
        },
    };
    let end = match find_last_char(&chars, '}') {
        Some(end) => end,
        None => {
            return Err(Fault::of("auto resolve response did not contain JSON object end"));
        },
    };
    if start >= end {
        return Err(Fault::of("auto resolve response contained invalid JSON object bounds"));
    }
    let count: usize = chars.len();
    assert(end < count);
    Ok(text_range(&chars, start, end + 1))
}

/// The prompt that repeats a task whose answer was no JSON.
pub open spec fn repair_prompt(user: Seq<char>) -> Seq<char> {
    "上一次响应不符合 JSON 协议。请重新完成同一个任务，只输出一个严格有效的 JSON 对象；不要输出 Markdown、代码围栏、分析过程或额外说明。\n\n"@
        + user
}

/// Repeats a task whose answer was no JSON.
pub fn build_json_repair_prompt(user_prompt: &str) -> (r: String)
    ensures
        r@ == repair_prompt(user_prompt@),
{
    concat2(
        "上一次响应不符合 JSON 协议。请重新完成同一个任务，只输出一个严格有效的 JSON 对象；不要输出 Markdown、代码围栏、分析过程或额外说明。\n\n",
        user_prompt,
    )
}

/// An answer that is read from JSON.
pub trait Decision: Answer {
    /// What the JSON is read as.
    spec fn kind() -> DecisionKind;

    /// What the JSON is read as.
    fn decision_kind() -> (r: DecisionKind)
        ensures
            r == Self::kind(),
    ;
}

impl Decision for AutoResolveDecision {
    open spec fn kind() -> DecisionKind {
        DecisionKind::AutoResolve
    }

    fn decision_kind() -> (r: DecisionKind) {
        DecisionKind::AutoResolve
    }
}

impl Decision for ConflictOptionsDecision {
    open spec fn kind() -> DecisionKind {
        DecisionKind::ConflictOptions
    }

    fn decision_kind() -> (r: DecisionKind) {
        DecisionKind::ConflictOptions
    }
}

impl Decision for ConflictResolutionProposal {
    open spec fn kind() -> DecisionKind {
        DecisionKind::ConflictProposal
    }

    fn decision_kind() -> (r: DecisionKind) {
        DecisionKind::ConflictProposal
    }
}

impl Decision for SecurityReviewDecision {
    open spec fn kind() -> DecisionKind {
        DecisionKind::SecurityReview
    }

    fn decision_kind() -> (r: DecisionKind) {
        DecisionKind::SecurityReview
    }
}

impl Decision for SecurityContractVerificationDecision {
    open spec fn kind() -> DecisionKind {
        DecisionKind::ContractVerification
    }

    fn decision_kind() -> (r: DecisionKind) {
        DecisionKind::ContractVerification
    }
}

impl Decision for SignalFileSelection {
    open spec fn kind() -> DecisionKind {
        DecisionKind::FileSelection
    }

    fn decision_kind() -> (r: DecisionKind) {
        DecisionKind::FileSelection
    }
}

impl Decision for SignalInvestigationDecision {
    open spec fn kind() -> DecisionKind {
        DecisionKind::SignalInvestigation
    }

    fn decision_kind() -> (r: DecisionKind) {
        DecisionKind::SignalInvestigation
    }
}

/// Reads a decision from an answer.
pub open spec fn decoded<T: Decision>(
    response: Seq<char>,
    purpose: Seq<char>,
    replies: Seq<Reply>,
    at: nat,
) -> Run<T> {
    match json_object(response) {
        Err(message) => Run::Fail(seq![message], at),
        Ok(json) => in_context(
            asked::<T>(
                replies,
                at,
                RequestView::Model(ModelView::Decode { kind: T::kind(), json }),
            ),
            "failed to parse "@ + purpose + " JSON"@,
        ),
    }
}

/// Reads a decision from an answer.
pub fn parse_json_response<'a, T: Decision>(
    response: &str,
    purpose: &str,
    journal: &mut Journal<'a>,
) -> (r: Result<&'a T, Halt<'a>>)
    ensures
        took(
            *old(journal),
            *final(journal),
            r,
            decoded::<T>(response@, purpose@, old(journal).all(), old(journal).at()),
        ),
{
    let json = match extract_json_object(response) {
        Ok(json) => json,
        Err(fault) => {
            return Err(Halt::Fail(fault));
        },
    };
    let request = Request::Model(ModelCall::Decode { kind: T::decision_kind(), json });
    match journal.ask::<T>(request) {
        Ok(decision) => Ok(decision),
        Err(halt) => Err(halt.context(concat3("failed to parse ", purpose, " JSON"))),
    }
}

/// Asks for a decision; an answer that is none is asked for once more.
pub open spec fn decided<T: Decision>(
    config: LlmConfig,
    system: Seq<char>,
    user: Seq<char>,
    purpose: Seq<char>,
    replies: Seq<Reply>,
    at: nat,
) -> Run<T> {
    match chat(config, system, user, replies, at) {
        Run::Ask(request) => Run::Ask(request),
        Run::Fail(chain, at) => Run::Fail(chain, at),
        Run::On(response, at) => match caught(decoded::<T>(response, purpose, replies, at)) {
            Run::Ask(request) => Run::Ask(request),
            Run::Fail(chain, at) => Run::Fail(chain, at),
            Run::On(Ok(decision), at) => Run::On(decision, at),
            Run::On(Err(first), at) => match chat(
                config,
                system,
                repair_prompt(user),
                replies,
                at,
            ) {
                Run::Ask(request) => Run::Ask(request),
                Run::Fail(chain, at) => Run::Fail(chain, at),
                Run::On(repaired, at) => in_context(
                    decoded::<T>(repaired, purpose, replies, at),
                    "LLM "@ + purpose + " JSON repair failed after first response error: "@
                        + fault_text(first),
                ),
            },
        },
    }
}

/// Asks the model for a decision. An answer that is none is asked for once more, and not again.
pub fn call_json_with_repair<'a, T: Decision>(
    config: &'a LlmConfig,
    system_prompt: &str,
    user_prompt: &str,
    purpose: &str,
    journal: &mut Journal<'a>,
) -> (r: Result<&'a T, Halt<'a>>)
    ensures
        took(
            *old(journal),
            *final(journal),
            r,
            decided::<T>(
                *config,
                system_prompt@,
                user_prompt@,
                purpose@,
                old(journal).all(),
                old(journal).at(),
            ),
        ),
{
    let response = call_chat(config, system_prompt, user_prompt, journal)?;
    let first = match parse_json_response::<T>(response.as_str(), purpose, journal) {
        Ok(decision) => {
            return Ok(decision);
        },
        Err(Halt::Ask(request)) => {
            return Err(Halt::Ask(request));
        },
        Err(Halt::Fail(fault)) => fault,
    };
    let repair = build_json_repair_prompt(user_prompt);
    let repaired = call_chat(config, system_prompt, repair.as_str(), journal)?;
    match parse_json_response::<T>(repaired.as_str(), purpose, journal) {
        Ok(decision) => Ok(decision),
        Err(halt) => {
            let text = first.text();
            Err(
                halt.context(
                    concat4(
                        "LLM ",
                        purpose,
                        " JSON repair failed after first response error: ",
                        text.as_str(),
                    ),
                ),
            )
        },
    }
}

} // verus!
