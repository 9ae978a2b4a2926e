//! What a conversation with the model asks for, request by request, and how answers are read.

use vstd::prelude::*;

use crate::calls::conflict::ConflictView;
use crate::calls::model::ModelView;
use crate::calls::RequestView;
use crate::config::{LlmConfig, LlmProvider};
use crate::data::{json_reading, DataView};
use crate::journal::{Reply, Run};
use crate::llm::evidence::{investigation_data, selection_data, verification_data};
use crate::llm::laws::{
    carries, carries_task, lemma_chat_carries_its_prompts, lemma_decision_carries_its_prompts,
};
use crate::llm::prompts::{
    conflict_values, cut_to, filled_in, note_or_none, prompt_or, rendered, resolve_values,
    summary_values, sync_context, CONFLICT_CONTEXT_TEMPLATE, CONFLICT_OPTIONS_FORMAT,
    CONFLICT_OPTIONS_SYSTEM_PROMPT, CONFLICT_PROPOSAL_FORMAT, CONFLICT_PROPOSAL_SYSTEM_PROMPT,
    DEFAULT_AUTO_RESOLVE_SYSTEM_PROMPT, DEFAULT_AUTO_RESOLVE_USER_PROMPT,
    DEFAULT_CONFLICT_SYSTEM_PROMPT, DEFAULT_CONFLICT_USER_PROMPT,
    DEFAULT_SYNC_SUMMARY_SYSTEM_PROMPT, DEFAULT_SYNC_SUMMARY_USER_PROMPT,
};
use crate::llm::protocol::{decoded, json_object, repair_prompt, review_fault, Decision};
use crate::llm::stream::{
    first_break, lemma_first_break, line_meaning, read_lines, EndView, LineView,
};
use crate::llm::transport::{
    attempts_of, chat, chat_from, chat_once, choice_text, endpoint, lowered, provider_base,
    retryable,
};
use crate::llm::types::{
    AutoResolveDecision, ConflictFacts, ConflictOptionsDecision, ConflictResolutionProposal,
    SecurityContractVerificationRequest, SecurityReviewRequest, SignalFacts,
};
use crate::llm::{
    analysis, as_fix, auto_resolution, conflict_context, options_prompt, proposal, proposal_prompt,
    review_prompt, stream_post, summary, switched_on, ways_out,
};
use crate::protection::types::{ContractView, InvestigationView, ReviewView};
use crate::repo::ConflictFileContent;
use crate::sync::outcomes::lemma_without_trailing;
use crate::sync::steps::was_given;
use crate::text::bytes::lossy;
use crate::text::pattern::{
    begins_with, finishes_with, holds, occurs_at, without_leading, without_trailing,
};
use crate::text::{ascii_lower, is_blank, joined, texts, trimmed};

verus! {

/// Whether a text is another without the slashes at its end.
pub open spec fn is_bare(root: Seq<char>, base: Seq<char>) -> bool {
    &&& root.len() <= base.len()
    &&& base.take(root.len() as int) == root
    &&& forall|i: int| root.len() <= i < base.len() ==> #[trigger] base[i] == '/'
    &&& root.len() > 0 ==> root.last() != '/'
}

/// Whether an address is that of the chat completions at a base.
pub open spec fn is_chat_address(base: Seq<char>, address: Seq<char>) -> bool {
    &&& finishes_with(address, "/chat/completions"@)
    &&& is_bare(address, base) || exists|root: Seq<char>|
        #[trigger] is_bare(root, base) && address == root + "/chat/completions"@
}

/// Prompts go to the chat completions at the base in the settings; without one, at that of the
/// provider; and where the provider has none either, nowhere.
pub proof fn lemma_address_is_that_of_the_settings(config: LlmConfig)
    ensures
        match (config.base_url, config.provider) {
            (Some(base), _) => endpoint(config) matches Ok(address) && is_chat_address(
                base@,
                address,
            ),
            (None, LlmProvider::DeepSeek) => endpoint(config) matches Ok(address)
                && is_chat_address("https://api.deepseek.com"@, address),
            (None, LlmProvider::OpenAi) => endpoint(config) matches Ok(address)
                && is_chat_address("https://api.openai.com/v1"@, address),
            (None, LlmProvider::OpenAiCompatible) => endpoint(config) == Err::<
                Seq<char>,
                Seq<char>,
            >("base_url is required for provider "@ + "OpenAiCompatible"@),
            (None, LlmProvider::Custom) => endpoint(config) == Err::<Seq<char>, Seq<char>>(
                "base_url is required for provider "@ + "Custom"@,
            ),
        },
{
    if let Ok(address) = endpoint(config) {
        let base = provider_base(config)->0;
        lemma_without_trailing(base, '/');
        let root = without_trailing(base, '/');
        let suffix = "/chat/completions"@;
        assert(is_bare(root, base));
        assert((root + suffix).subrange(root.len() as int, (root + suffix).len() as int)
            =~= suffix);
    }
}

/// Whether a request is a step of a conversation: the key of the settings, the prompts with a key
/// that was given and the model of the settings, or a pause of one to five seconds.
pub open spec fn is_chat_step(
    config: LlmConfig,
    system: Seq<char>,
    user: Seq<char>,
    replies: Seq<Reply>,
    request: RequestView,
) -> bool {
    match request {
        RequestView::Model(ModelView::ApiKey { variable }) => variable == config.api_key_env@,
        RequestView::Model(ModelView::Post { post }) => {
            &&& endpoint(config) == Ok::<Seq<char>, Seq<char>>(post.endpoint)
            &&& was_given(replies, post.api_key)
            &&& post.model == config.model@
            &&& post.system == system
            &&& post.user == user
            &&& post.timeout_seconds == (if config.timeout_seconds == 0 {
                1
            } else {
                config.timeout_seconds
            })
        },
        RequestView::Model(ModelView::Sleep { seconds }) => 1 <= seconds <= 5,
        _ => false,
    }
}

/// A conversation asks for nothing but its steps.
pub proof fn lemma_chat_asks_for_its_steps(
    config: LlmConfig,
    system: Seq<char>,
    user: Seq<char>,
    attempt: nat,
    replies: Seq<Reply>,
    at: nat,
)
    requires
        1 <= attempt,
    ensures
        chat_from(config, system, user, attempt, replies, at) matches Run::Ask(request)
            ==> is_chat_step(config, system, user, replies, request),
    decreases attempts_of(config) - attempt,
{
    if at < replies.len() {
        if let Reply::Text(key) = replies[at as int] {
            assert(was_given(replies, key@));
        }
    }
    if let Run::Fail(_, next) = chat_once(config, system, user, replies, at) {
        if attempt < attempts_of(config) {
            lemma_chat_asks_for_its_steps(config, system, user, attempt + 1, replies, next + 1);
        }
    }
}

/// A try that failed is repeated just where it may be and tries are left: as many as the settings
/// say, after the first. Before the next one there is a pause, one second longer each time, up to
/// five.
pub proof fn lemma_failed_try_is_repeated(
    config: LlmConfig,
    system: Seq<char>,
    user: Seq<char>,
    attempt: nat,
    replies: Seq<Reply>,
    at: nat,
)
    requires
        1 <= attempt,
        config.max_retries < u32::MAX,
    ensures
        chat_once(config, system, user, replies, at) matches Run::Fail(chain, end) ==> {
            let run = chat_from(config, system, user, attempt, replies, at);
            if attempt <= config.max_retries && retryable(chain) {
                &&& end >= replies.len() ==> run == Run::Ask::<Seq<char>>(
                    RequestView::Model(
                        ModelView::Sleep {
                            seconds: if attempt > 5 {
                                5
                            } else {
                                attempt as u64
                            },
                        },
                    ),
                )
                &&& end < replies.len() && replies[end as int] is Done ==> run == chat_from(
                    config,
                    system,
                    user,
                    attempt + 1,
                    replies,
                    end + 1,
                )
            } else {
                run == Run::Fail::<Seq<char>>(chain, end)
            }
        },
        !(chat_once(config, system, user, replies, at) is Fail) ==> chat_from(
            config,
            system,
            user,
            attempt,
            replies,
            at,
        ) == chat_once(config, system, user, replies, at),
{
}

proof fn lemma_joined_holds(list: Seq<Seq<char>>, separator: Seq<char>, i: int, word: Seq<char>)
    requires
        0 <= i < list.len(),
        holds(list[i], word),
    ensures
        holds(joined(list, separator), word),
    decreases list.len(),
{
    let all = joined(list, separator);
    if list.len() > 1 {
        let before = joined(list.drop_last(), separator);
        if i < list.len() - 1 {
            assert(list.drop_last()[i] == list[i]);
            lemma_joined_holds(list.drop_last(), separator, i, word);
            let at = choose|at: int| occurs_at(before, word, at);
            assert(all.subrange(at, at + word.len()) =~= before.subrange(at, at + word.len()));
            assert(occurs_at(all, word, at));
        } else {
            let at = choose|at: int| occurs_at(list[i], word, at);
            let from = before.len() + separator.len() + at;
            assert(all.subrange(from as int, from + word.len()) =~= list[i].subrange(
                at,
                at + word.len(),
            ));
            assert(occurs_at(all, word, from as int));
        }
    }
}

/// The words that tell that a try may be repeated.
pub open spec fn passing_words() -> Seq<Seq<char>> {
    seq!["timed out"@, "timeout"@, "connection"@, "server error"@, "body"@]
}

/// A try may be repeated where one of its messages holds one of these words, in letters of either
/// case; and only where the messages together do.
pub proof fn lemma_passing_trouble_is_retried(chain: Seq<Seq<char>>)
    ensures
        forall|i: int, w: int|
            0 <= i < chain.len() && 0 <= w < 5 && holds(
                ascii_lower(#[trigger] chain[i]),
                #[trigger] passing_words()[w],
            ) ==> retryable(chain),
        retryable(chain) ==> exists|w: int|
            0 <= w < 5 && holds(joined(lowered(chain), " | "@), #[trigger] passing_words()[w]),
{
    let words = passing_words();
    assert forall|i: int, w: int|
        0 <= i < chain.len() && 0 <= w < 5 && holds(
            ascii_lower(#[trigger] chain[i]),
            #[trigger] passing_words()[w],
        ) implies retryable(chain) by {
        assert(lowered(chain)[i] == ascii_lower(chain[i]));
        lemma_joined_holds(lowered(chain), " | "@, i, words[w]);
    }
    assert(words[0] == "timed out"@);
    assert(words[1] == "timeout"@);
    assert(words[2] == "connection"@);
    assert(words[3] == "server error"@);
    assert(words[4] == "body"@);
}

/// Whether a document holds a text as the content of its first choice.
pub open spec fn is_first_choice(document: DataView, part: Seq<char>, content: Seq<char>) -> bool {
    document matches DataView::Table(all) && all.contains_key("choices"@) && (
    all["choices"@] matches DataView::List(choices) && choices.len() > 0 && (
    choices[0] matches DataView::Table(choice) && choice.contains_key(part) && (
    choice[part] matches DataView::Table(message) && message.contains_key("content"@)
        && message["content"@] == DataView::Text(content))))
}

/// What a conversation comes to is the content of the message of the first choice, in the reply that
/// was given last, without white space around it.
pub proof fn lemma_answer_is_the_last_reply(
    config: LlmConfig,
    system: Seq<char>,
    user: Seq<char>,
    attempt: nat,
    replies: Seq<Reply>,
    at: nat,
)
    ensures
        chat_from(config, system, user, attempt, replies, at) matches Run::On(text, end) ==> {
            &&& at + 2 <= end <= replies.len()
            &&& replies[end - 1] matches Reply::Text(body) && (
            json_reading(body@) matches Ok(document) && exists|content: Seq<char>|
                #[trigger] is_first_choice(document, "message"@, content) && text == trimmed(
                    content,
                ))
        },
    decreases attempts_of(config) - attempt,
{
    let once = chat_once(config, system, user, replies, at);
    if let Run::On(text, end) = once {
        let body = replies[end - 1]->Text_0;
        let document = json_reading(body@)->Ok_0;
        let content = choice_text(document, "message"@)->0;
        assert(is_first_choice(document, "message"@, content));
    }
    if let Run::Fail(_, next) = once {
        if attempt < attempts_of(config) {
            lemma_answer_is_the_last_reply(config, system, user, attempt + 1, replies, next + 1);
        }
    }
}

/// A review is accepted just where it says what it found and how, gives evidence where it found a fix
/// or a risk, and has a contract only for a fix, and then a whole one.
pub proof fn lemma_review_is_whole(review: ReviewView)
    ensures
        review_fault(review) is None <==> {
            &&& trimmed(review.summary).len() > 0
            &&& trimmed(review.mechanism).len() > 0
            &&& review.security_fix_detected || review.introduced_risk ==> review.evidence.len() > 0
            &&& review.fix_contract matches Some(contract) ==> {
                &&& review.security_fix_detected
                &&& trimmed(contract.security_property).len() > 0
                &&& trimmed(contract.vulnerable_behavior).len() > 0
                &&& trimmed(contract.fixed_behavior).len() > 0
                &&& contract.regression_cases.len() > 0
            }
        },
{
}

/// A judgement that gives changes and a contract for a project that is affected counts as a fix;
/// nothing else of it changes, and no other judgement does.
pub proof fn lemma_judgement_with_changes_is_a_fix(decision: InvestigationView)
    ensures
        as_fix(decision).review.security_fix_detected <==> decision.review.security_fix_detected
            || decision.review.affected == Some(true) && decision.changes.len() > 0
            && decision.review.fix_contract is Some,
        as_fix(decision) == (InvestigationView {
            review: ReviewView {
                security_fix_detected: as_fix(decision).review.security_fix_detected,
                ..decision.review
            },
            ..decision
        }),
{
}

/// The JSON in an answer reaches from its first opening brace to its last closing one; there is one
/// just where some opening brace stands before some closing one.
pub proof fn lemma_json_stands_between_braces(text: Seq<char>)
    ensures
        ({
            let bare = trimmed(text);
            &&& json_object(text) is Ok <==> exists|i: int, j: int|
                0 <= i < j < bare.len() && #[trigger] bare[i] == '{' && #[trigger] bare[j] == '}'
            &&& json_object(text) matches Ok(json) ==> exists|i: int, j: int|
                0 <= i < j <= bare.len() && json == #[trigger] bare.subrange(i, j) && bare[i]
                    == '{' && bare[j - 1] == '}' && (forall|k: int|
                    0 <= k < i ==> #[trigger] bare[k] != '{') && (forall|k: int|
                    j <= k < bare.len() ==> #[trigger] bare[k] != '}')
        }),
{
    let bare = trimmed(text);
    reveal_strlit("{");
    reveal_strlit("}");
    bare.index_of_first_ensures('{');
    bare.index_of_last_ensures('}');
    if begins_with(bare, "{"@) && finishes_with(bare, "}"@) {
        assert(bare[0] == bare.subrange(0, 1)[0]);
        let n = bare.len() as int;
        assert(bare[n - 1] == bare.subrange(n - 1, n)[0]);
        assert(bare.subrange(0, n) =~= bare);
        assert(0 <= 0 < n - 1 && bare[0] == '{' && bare[n - 1] == '}');
    } else {
        if let Some(start) = bare.index_of_first('{') {
            if let Some(end) = bare.index_of_last('}') {
                if start < end {
                    assert(json_object(text) == Ok::<Seq<char>, Seq<char>>(
                        bare.subrange(start, end + 1),
                    ));
                    assert(bare[start] == '{' && bare[end] == '}');
                }
            }
        }
    }
}

/// An answer that was no JSON is asked for again with the same task behind the reminder.
pub proof fn lemma_repair_repeats_the_task(user: Seq<char>)
    ensures
        finishes_with(repair_prompt(user), user),
        repair_prompt(user).len() > user.len(),
{
    reveal_strlit(
        "上一次响应不符合 JSON 协议。请重新完成同一个任务，只输出一个严格有效的 JSON 对象；不要输出 Markdown、代码围栏、分析过程或额外说明。\n\n",
    );
    let all = repair_prompt(user);
    assert(all.subrange(all.len() - user.len(), all.len() as int) =~= user);
}

/// What a line of a stream means: a piece of the answer is the content of what the first choice adds;
/// the answer ends at its mark; lines that are no data mean nothing.
pub proof fn lemma_line_is_read(line: Seq<char>)
    ensures
        ({
            let bare = trimmed(line);
            let data = trimmed(without_leading(bare, "data:"@));
            &&& line_meaning(line) is Done <==> begins_with(bare, "data:"@) && data == "[DONE]"@
            &&& line_meaning(line) is Broken <==> begins_with(bare, "data:"@) && data
                != "[DONE]"@ && json_reading(data) is Err
            &&& line_meaning(line) matches LineView::Delta(delta) ==> begins_with(bare, "data:"@)
                && data != "[DONE]"@ && (json_reading(data) matches Ok(document)
                && is_first_choice(document, "delta"@, delta))
            &&& line_meaning(line) is Blank ==> !begins_with(bare, "data:"@) || (data != "[DONE]"@
                && (json_reading(data) matches Ok(document) && forall|delta: Seq<char>|
                !#[trigger] is_first_choice(document, "delta"@, delta)))
        }),
{
}

/// The pieces of a list of texts, one behind the other.
pub open spec fn put_together(deltas: Seq<Seq<char>>) -> Seq<char>
    decreases deltas.len(),
{
    if deltas.len() == 0 {
        Seq::empty()
    } else {
        put_together(deltas.drop_last()) + deltas.last()
    }
}

/// The answer of a stream is its pieces, one behind the other, without white space around them.
pub proof fn lemma_answer_is_its_pieces(
    pending: Seq<u8>,
    content: Seq<char>,
    deltas: Seq<Seq<char>>,
)
    requires
        content == put_together(deltas),
    ensures
        ({
            let read = read_lines(pending, content, deltas);
            &&& read.content == put_together(read.deltas)
            &&& deltas.len() <= read.deltas.len()
            &&& read.deltas.take(deltas.len() as int) == deltas
            &&& read.end matches EndView::Answer(answer) ==> answer == trimmed(
                put_together(read.deltas),
            )
        }),
    decreases pending.len(),
{
    lemma_first_break(pending);
    if let Some(at) = first_break(pending) {
        let rest = pending.skip(at + 1);
        match line_meaning(lossy(pending.take(at + 1))) {
            LineView::Blank => {
                lemma_answer_is_its_pieces(rest, content, deltas);
            },
            LineView::Delta(delta) => {
                let more = deltas.push(delta);
                assert(more.drop_last() =~= deltas);
                lemma_answer_is_its_pieces(rest, content + delta, more);
                let read = read_lines(pending, content, deltas);
                assert(read.deltas.take(deltas.len() as int) =~= read.deltas.take(
                    more.len() as int,
                ).take(deltas.len() as int));
                assert(more.take(deltas.len() as int) =~= deltas);
            },
            _ => {
                assert(deltas.take(deltas.len() as int) =~= deltas);
            },
        }
    } else {
        assert(deltas.take(deltas.len() as int) =~= deltas);
    }
}

/// The prompts of the settings are used where there are any, and the default ones otherwise, each in
/// its own place; they are filled in with what is known of the conflict, and cut at the limit.
pub proof fn lemma_analysis_uses_its_prompts(
    config: Option<LlmConfig>,
    facts: ConflictFacts,
    replies: Seq<Reply>,
    at: nat,
)
    ensures
        analysis(config, facts, replies, at) matches Run::Ask(request) ==> {
            &&& config matches Some(on) && on.enabled && carries(
                request,
                cut_to(
                    filled_in(
                        match on.prompts.conflict_system {
                            Some(text) => text@,
                            None => DEFAULT_CONFLICT_SYSTEM_PROMPT@,
                        },
                        conflict_values(facts),
                    ),
                    on.max_prompt_bytes as nat,
                ),
                cut_to(
                    filled_in(
                        match on.prompts.conflict_user {
                            Some(text) => text@,
                            None => DEFAULT_CONFLICT_USER_PROMPT@,
                        },
                        conflict_values(facts),
                    ),
                    on.max_prompt_bytes as nat,
                ),
            )
        },
{
    if let Some(on) = switched_on(config) {
        lemma_chat_carries_its_prompts(
            on,
            rendered(
                prompt_or(on.prompts.conflict_system, DEFAULT_CONFLICT_SYSTEM_PROMPT@),
                conflict_values(facts),
                on.max_prompt_bytes as nat,
            ),
            rendered(
                prompt_or(on.prompts.conflict_user, DEFAULT_CONFLICT_USER_PROMPT@),
                conflict_values(facts),
                on.max_prompt_bytes as nat,
            ),
            1,
            replies,
            at,
        );
    }
}

/// A report is summed up under the prompts for reports, of the settings or the default ones, filled in
/// with that report.
pub proof fn lemma_summary_uses_its_prompts(
    config: Option<LlmConfig>,
    report: Seq<char>,
    replies: Seq<Reply>,
    at: nat,
)
    ensures
        summary(config, report, replies, at) matches Run::Ask(request) ==> {
            &&& config matches Some(on) && on.enabled && carries(
                request,
                cut_to(
                    filled_in(
                        match on.prompts.sync_summary_system {
                            Some(text) => text@,
                            None => DEFAULT_SYNC_SUMMARY_SYSTEM_PROMPT@,
                        },
                        seq![("report"@, report)],
                    ),
                    on.max_prompt_bytes as nat,
                ),
                cut_to(
                    filled_in(
                        match on.prompts.sync_summary_user {
                            Some(text) => text@,
                            None => DEFAULT_SYNC_SUMMARY_USER_PROMPT@,
                        },
                        seq![("report"@, report)],
                    ),
                    on.max_prompt_bytes as nat,
                ),
            )
        },
{
    if let Some(on) = switched_on(config) {
        lemma_chat_carries_its_prompts(
            on,
            rendered(
                prompt_or(on.prompts.sync_summary_system, DEFAULT_SYNC_SUMMARY_SYSTEM_PROMPT@),
                summary_values(report),
                on.max_prompt_bytes as nat,
            ),
            rendered(
                prompt_or(on.prompts.sync_summary_user, DEFAULT_SYNC_SUMMARY_USER_PROMPT@),
                summary_values(report),
                on.max_prompt_bytes as nat,
            ),
            1,
            replies,
            at,
        );
    }
}

/// A conflict is resolved under the prompts for that, of the settings or the default ones, filled in
/// with what is known of the conflict and the conflicts as they were given.
pub proof fn lemma_resolution_uses_its_prompts(
    config: Option<LlmConfig>,
    facts: ConflictFacts,
    files: Vec<ConflictFileContent>,
    replies: Seq<Reply>,
    at: nat,
)
    ensures
        auto_resolution(config, facts, files, replies, at) matches Run::Ask(request) ==> {
            &&& config matches Some(on) && on.enabled && (if replies.len() <= at {
                request == RequestView::Conflict(
                    ConflictView::Blocks { files },
                )
            } else {
                replies[at as int] matches Reply::Blocks(found) && carries_task(
                    request,
                    cut_to(
                        filled_in(
                            match on.prompts.auto_resolve_system {
                                Some(text) => text@,
                                None => DEFAULT_AUTO_RESOLVE_SYSTEM_PROMPT@,
                            },
                            resolve_values(facts, found.rendered@),
                        ),
                        on.max_prompt_bytes as nat,
                    ),
                    cut_to(
                        filled_in(
                            match on.prompts.auto_resolve_user {
                                Some(text) => text@,
                                None => DEFAULT_AUTO_RESOLVE_USER_PROMPT@,
                            },
                            resolve_values(facts, found.rendered@),
                        ),
                        on.max_prompt_bytes as nat,
                    ),
                )
            })
        },
{
    if let Some(on) = switched_on(config) {
        if at < replies.len() {
            if let Reply::Blocks(found) = replies[at as int] {
                lemma_decision_carries_its_prompts::<AutoResolveDecision>(
                    on,
                    rendered(
                        prompt_or(
                            on.prompts.auto_resolve_system,
                            DEFAULT_AUTO_RESOLVE_SYSTEM_PROMPT@,
                        ),
                        resolve_values(facts, found.rendered@),
                        on.max_prompt_bytes as nat,
                    ),
                    rendered(
                        prompt_or(on.prompts.auto_resolve_user, DEFAULT_AUTO_RESOLVE_USER_PROMPT@),
                        resolve_values(facts, found.rendered@),
                        on.max_prompt_bytes as nat,
                    ),
                    "auto resolve decision"@,
                    replies,
                    at + 1,
                );
            }
        }
    }
}

/// Ways out of a conflict are two to four.
pub proof fn lemma_ways_out_are_two_to_four(
    config: Option<LlmConfig>,
    facts: ConflictFacts,
    files: Vec<ConflictFileContent>,
    conversation: Seq<char>,
    replies: Seq<Reply>,
    at: nat,
)
    ensures
        ways_out(config, facts, files, conversation, replies, at) matches Run::On(Some(decision), _)
            ==> 2 <= decision.options@.len() <= 4,
{
}

/// What the prompts on a conflict can name, name by name.
pub proof fn lemma_conflict_is_told(facts: ConflictFacts, blocks: Seq<char>)
    ensures
        ({
            let values = resolve_values(facts, blocks);
            &&& values.len() == 9
            &&& values[0] == ("branch"@, facts.branch)
            &&& values[1] == ("base"@, facts.base)
            &&& values[2].0 == "branch_note"@
            &&& values[2].1 == facts.branch_note.unwrap_or("none"@)
            &&& values[3].0 == "sync_context"@
            &&& holds(values[3].1, facts.branch_note.unwrap_or("none"@))
            &&& facts.mode.len() > 0 ==> holds(values[3].1, "\nSync mode: "@ + facts.mode)
            &&& !is_blank(facts.current_patch) ==> finishes_with(values[3].1, facts.current_patch)
            &&& values[4] == ("conflict_files"@, joined(facts.snapshot.files, "\n"@))
            &&& values[5] == ("git_status"@, facts.snapshot.status)
            &&& values[6].0 == "combined_diff"@
            &&& begins_with(values[6].1, values[3].1)
            &&& finishes_with(values[6].1, facts.snapshot.combined_diff)
            &&& values[7] == ("conflict_blocks"@, blocks)
            &&& values[8] == ("file_contents"@, blocks)
        }),
{
    let values = resolve_values(facts, blocks);
    let context = values[3].1;
    let note = note_or_none(facts.branch_note);
    let first = "Branch maintenance note:\n"@;
    assert(context.subrange(first.len() as int, (first.len() + note.len()) as int) =~= note);
    assert(occurs_at(context, note, first.len() as int));
    let mode = "\nSync mode: "@;
    let bare = sync_context(facts.branch_note, facts.mode, Seq::empty());
    assert(is_blank(Seq::<char>::empty()));
    if facts.mode.len() > 0 {
        let told = mode + facts.mode;
        let from = bare.len() - told.len();
        assert(bare.subrange(from, bare.len() as int) =~= told);
        assert(context.subrange(from, bare.len() as int) =~= told);
        assert(occurs_at(context, told, from));
    }
    if !is_blank(facts.current_patch) {
        let from = context.len() - facts.current_patch.len();
        assert(context.subrange(from, context.len() as int) =~= facts.current_patch);
    }
    let diff = values[6].1;
    assert(diff.subrange(0, context.len() as int) =~= context);
    let from = diff.len() - facts.snapshot.combined_diff.len();
    assert(diff.subrange(from, diff.len() as int) =~= facts.snapshot.combined_diff);
}

/// Whether a table has a text in a field.
pub open spec fn has_text(fields: Map<Seq<char>, DataView>, name: Seq<char>, text: Seq<char>) -> bool {
    fields.contains_key(name) && fields[name] == DataView::Text(text)
}

/// Whether a table has a list of texts in a field.
pub open spec fn has_texts(
    fields: Map<Seq<char>, DataView>,
    name: Seq<char>,
    list: Seq<Seq<char>>,
) -> bool {
    fields.contains_key(name) && fields[name] == DataView::List(
        list.map_values(|t: Seq<char>| DataView::Text(t)),
    )
}

proof fn lemma_field_names()
    ensures
        "project"@.len() == 7,
        "commit"@.len() == 6,
        "fix_contract"@.len() == 12,
        "final_candidate_patch"@.len() == 21,
        "test_commands"@.len() == 13,
        "test_output"@.len() == 11,
        "security_property"@.len() == 17,
        "vulnerable_behavior"@.len() == 19,
        "fixed_behavior"@.len() == 14,
        "attack_preconditions"@.len() == 20,
        "regression_cases"@.len() == 16,
        "project_description"@.len() == 19,
        "signal_summary"@.len() == 14,
        "signal_summary"@[8] == 'u',
        "signal_content"@[8] == 'o',
        "signal_reference"@.len() == 16,
        "signal_content"@.len() == 14,
        "cargo_reachability"@.len() == 18,
        "tracked_files"@.len() == 13,
        "selected_files"@.len() == 14,
        "selected_files"@[8] == '_',
{
    reveal_strlit("project");
    reveal_strlit("commit");
    reveal_strlit("fix_contract");
    reveal_strlit("final_candidate_patch");
    reveal_strlit("test_commands");
    reveal_strlit("test_output");
    reveal_strlit("security_property");
    reveal_strlit("vulnerable_behavior");
    reveal_strlit("fixed_behavior");
    reveal_strlit("attack_preconditions");
    reveal_strlit("regression_cases");
    reveal_strlit("project_description");
    reveal_strlit("signal_summary");
    reveal_strlit("signal_reference");
    reveal_strlit("signal_content");
    reveal_strlit("cargo_reachability");
    reveal_strlit("tracked_files");
    reveal_strlit("selected_files");
}

/// What is told when a contract is verified, field by field.
pub proof fn lemma_verification_is_told(request: SecurityContractVerificationRequest)
    ensures
        verification_data(request) matches DataView::Table(fields) && {
            let contract: ContractView = request.contract@;
            &&& has_text(fields, "project"@, request.project@)
            &&& has_text(fields, "commit"@, request.commit@)
            &&& has_text(fields, "final_candidate_patch"@, request.final_patch@)
            &&& has_texts(fields, "test_commands"@, texts(request.test_commands@))
            &&& has_text(fields, "test_output"@, request.test_output@)
            &&& fields.contains_key("fix_contract"@)
            &&& fields["fix_contract"@] matches DataView::Table(parts) && {
                &&& has_text(parts, "security_property"@, contract.security_property)
                &&& has_text(parts, "vulnerable_behavior"@, contract.vulnerable_behavior)
                &&& has_text(parts, "fixed_behavior"@, contract.fixed_behavior)
                &&& has_texts(parts, "attack_preconditions"@, contract.attack_preconditions)
                &&& has_texts(parts, "regression_cases"@, contract.regression_cases)
            }
        },
{
    lemma_field_names();
}

/// Whether a table tells what is known of a message.
pub open spec fn tells_signal(fields: Map<Seq<char>, DataView>, facts: SignalFacts) -> bool {
    &&& has_text(fields, "project"@, facts.project)
    &&& has_text(fields, "project_description"@, facts.project_description)
    &&& has_text(fields, "signal_summary"@, facts.summary)
    &&& fields.contains_key("signal_reference"@)
    &&& fields["signal_reference"@] == (match facts.reference {
        Some(reference) => DataView::Text(reference),
        None => DataView::Null,
    })
    &&& has_text(fields, "signal_content"@, facts.content)
    &&& fields.contains_key("cargo_reachability"@)
    &&& fields["cargo_reachability"@] is Null <==> facts.reachability is None
}

/// What is told when files are chosen for a message, and when it is judged: what is known of the
/// message, and the files that may be chosen, or those that were read with what they hold.
pub proof fn lemma_signal_is_told(
    facts: SignalFacts,
    offered: Seq<Seq<char>>,
    files: Seq<(Seq<char>, Seq<char>)>,
)
    ensures
        selection_data(facts, offered) matches DataView::Table(fields) && tells_signal(
            fields,
            facts,
        ) && has_texts(fields, "tracked_files"@, offered),
        investigation_data(facts, files) matches DataView::Table(fields) && tells_signal(
            fields,
            facts,
        ) && fields.contains_key("selected_files"@) && (
        fields["selected_files"@] matches DataView::List(listed) && listed.len() == files.len()
            && forall|i: int|
            0 <= i < files.len() ==> #[trigger] listed[i] == DataView::List(
                seq![DataView::Text(files[i].0), DataView::Text(files[i].1)],
            )),
{
    lemma_field_names();
}

/// Ways out of a conflict are asked for with what is known of the conflict and with what was said, in
/// this order; a proposal, with what was said, the way out that was chosen, and what was asked for on
/// top.
pub proof fn lemma_ways_out_and_proposals_use_their_prompts(
    config: Option<LlmConfig>,
    facts: ConflictFacts,
    files: Vec<ConflictFileContent>,
    conversation: Seq<char>,
    chosen: Seq<char>,
    requirements: Seq<char>,
    replies: Seq<Reply>,
    at: nat,
)
    requires
        at < replies.len(),
    ensures
        ways_out(config, facts, files, conversation, replies, at) matches Run::Ask(request) ==> (
        config matches Some(on) && on.enabled && (replies[at as int] matches Reply::Blocks(found)
            && carries_task(
            request,
            CONFLICT_OPTIONS_SYSTEM_PROMPT@,
            cut_to(
                filled_in(CONFLICT_CONTEXT_TEMPLATE@, resolve_values(facts, found.rendered@)),
                on.max_prompt_bytes as nat,
            ) + "\n\n对话与人工要求：\n"@ + conversation + "\n\n输出格式：\n"@
                + CONFLICT_OPTIONS_FORMAT@,
        ))),
        proposal(
            config,
            facts,
            files,
            conversation,
            chosen,
            requirements,
            replies,
            at,
        ) matches Run::Ask(request) ==> (config matches Some(on) && on.enabled && (
        replies[at as int] matches Reply::Blocks(found) && carries_task(
            request,
            CONFLICT_PROPOSAL_SYSTEM_PROMPT@,
            cut_to(
                filled_in(CONFLICT_CONTEXT_TEMPLATE@, resolve_values(facts, found.rendered@)),
                on.max_prompt_bytes as nat,
            ) + "\n\n对话记录：\n"@ + conversation + "\n\n选定方案：\n"@ + chosen
                + "\n\n补充要求：\n"@ + requirements + "\n\n输出格式：\n"@
                + CONFLICT_PROPOSAL_FORMAT@,
        ))),
{
    if let Some(on) = switched_on(config) {
        if let Reply::Blocks(found) = replies[at as int] {
            let context = conflict_context(on, facts, found);
            lemma_decision_carries_its_prompts::<ConflictOptionsDecision>(
                on,
                CONFLICT_OPTIONS_SYSTEM_PROMPT@,
                options_prompt(context, conversation),
                "conflict options"@,
                replies,
                at + 1,
            );
            lemma_decision_carries_its_prompts::<ConflictResolutionProposal>(
                on,
                CONFLICT_PROPOSAL_SYSTEM_PROMPT@,
                proposal_prompt(context, conversation, chosen, requirements),
                "conflict proposal"@,
                replies,
                at + 1,
            );
        }
    }
}

/// A stream is asked for with the key that was given, the model of the settings and the prompts as
/// they are, at the address in the settings.
pub proof fn lemma_stream_is_asked_for_as_set(
    config: Option<LlmConfig>,
    system: Seq<char>,
    user: Seq<char>,
    replies: Seq<Reply>,
    at: nat,
)
    ensures
        match stream_post(config, system, user, replies, at) {
            Run::Ask(request) => config matches Some(on) && on.enabled && request
                == RequestView::Model(ModelView::ApiKey { variable: on.api_key_env@ }),
            Run::On(None, end) => end == at && (config is None || !config->0.enabled),
            Run::On(Some(post), end) => config matches Some(on) && on.enabled && end == at + 1 && (
            replies[at as int] matches Reply::Text(key) && post.api_key == key@) && endpoint(on)
                == Ok::<Seq<char>, Seq<char>>(post.endpoint) && post.model == on.model@
                && post.system == system && post.user == user && post.timeout_seconds == (
            if on.timeout_seconds == 0 {
                1
            } else {
                on.timeout_seconds
            }),
            Run::Fail(_, _) => config matches Some(on) && on.enabled,
        },
{
}

/// A decision is read from the JSON in the answer, and as a decision of its own kind.
pub proof fn lemma_decision_is_read_from_the_answer<T: Decision>(
    response: Seq<char>,
    purpose: Seq<char>,
    replies: Seq<Reply>,
    at: nat,
)
    ensures
        decoded::<T>(response, purpose, replies, at) matches Run::Ask(request) ==> (
        json_object(response) matches Ok(found) && request == RequestView::Model(
            ModelView::Decode { kind: T::kind(), json: found },
        )),
        decoded::<T>(response, purpose, replies, at) matches Run::On(decision, end) ==> json_object(
            response,
        ) is Ok && end == at + 1 && T::in_reply(replies[at as int]) == Some(decision),
{
}

/// A commit is reviewed with the project, what it is for, its profiles and the commit named, in this
/// order, and the content of the commit behind them, between the marks.
pub proof fn lemma_review_names_its_commit(request: SecurityReviewRequest, patch: Seq<char>)
    ensures
        review_prompt(request, patch) == "项目："@ + request.project@ + "\n项目安全意图："@
            + request.project_description@ + "\n启用预设："@ + joined(
            texts(request.profiles@),
            ","@,
        ) + "\n提交："@ + request.commit@
            + "\n\n<untrusted_evidence encoding=\"json-string\">\n"@ + patch
            + "\n</untrusted_evidence>"@,
{
}

} // verus!
