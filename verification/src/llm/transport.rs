//! Conversations with a provider of chat completions.
//!
//! Where a request goes, when it is tried again, and what is read from the answers. Posting itself
//! is left to whoever drives a run.

use vstd::prelude::*;

use crate::calls::model::{ChatPost, ChatPostView, ModelCall, ModelView};
use crate::calls::{Request, RequestView};
use crate::config::{LlmConfig, LlmProvider};
use crate::data::{field_of, item_of, json_reading, parse_json, text_field, Data, DataView};
use crate::fault::Fault;
use crate::journal::{asked, follows, in_context, Halt, Journal, Reply, Run};
use crate::text::pattern::{
    contains, ends_with, finishes_with, holds, trim_end_char, without_trailing,
};
use crate::text::{
    ascii_lower, concat2, join, joined, text_option, texts, to_ascii_lower, trim, trimmed,
};

verus! {

/// The name of a provider.
pub open spec fn provider_name(provider: LlmProvider) -> Seq<char> {
    match provider {
        LlmProvider::DeepSeek => "DeepSeek"@,
        LlmProvider::OpenAi => "OpenAi"@,
        LlmProvider::OpenAiCompatible => "OpenAiCompatible"@,
        LlmProvider::Custom => "Custom"@,
    }
}

/// The address under which a provider is reached; some have none of their own.
pub open spec fn provider_base(config: LlmConfig) -> Option<Seq<char>> {
    match (config.base_url, config.provider) {
        (Some(base_url), _) => Some(base_url@),
        (None, LlmProvider::DeepSeek) => Some("https://api.deepseek.com"@),
        (None, LlmProvider::OpenAi) => Some("https://api.openai.com/v1"@),
        (None, _) => None,
    }
}

/// The address of the chat completions under a base address.
pub open spec fn endpoint_at(base: Seq<char>) -> Seq<char> {
    let base = without_trailing(base, '/');
    if finishes_with(base, "/chat/completions"@) {
        base
    } else {
        base + "/chat/completions"@
    }
}

/// The address to which requests are posted.
pub open spec fn endpoint(config: LlmConfig) -> Result<Seq<char>, Seq<char>> {
    match provider_base(config) {
        Some(base) => Ok(endpoint_at(base)),
        None => Err("base_url is required for provider "@ + provider_name(config.provider)),
    }
}

/// The address to which requests are posted.
pub fn chat_completions_endpoint(config: &LlmConfig) -> (r: Result<String, Fault>)
    ensures
        match endpoint(*config) {
            Ok(address) => r matches Ok(found) && found@ == address,
            Err(message) => r matches Err(fault) && fault@ == seq![message],
        },
{
    let base: String = match (&config.base_url, config.provider) {
        (Some(base_url), _) => base_url.clone(),
        (None, LlmProvider::DeepSeek) => "https://api.deepseek.com".to_owned(),
        (None, LlmProvider::OpenAi) => "https://api.openai.com/v1".to_owned(),
        (None, LlmProvider::OpenAiCompatible) => {
            return Err(Fault::new(concat2("base_url is required for provider ", "OpenAiCompatible")));
        },
        (None, LlmProvider::Custom) => {
            return Err(Fault::new(concat2("base_url is required for provider ", "Custom")));
        },
    };
    let base = trim_end_char(base.as_str(), '/');
    if ends_with(base.as_str(), "/chat/completions") {
        Ok(base)
    } else {
        Ok(concat2(base.as_str(), "/chat/completions"))
    }
}

/// The lower-case messages of an error.
pub open spec fn lowered(chain: Seq<Seq<char>>) -> Seq<Seq<char>> {
    chain.map_values(|t: Seq<char>| ascii_lower(t))
}

/// Whether a request that failed is tried again: where one of its messages speaks of time, the
/// connection, the server or the body.
pub open spec fn retryable(chain: Seq<Seq<char>>) -> bool {
    let message = joined(lowered(chain), " | "@);
    ||| holds(message, "timed out"@)
    ||| holds(message, "timeout"@)
    ||| holds(message, "connection"@)
    ||| holds(message, "server error"@)
    ||| holds(message, "body"@)
}

/// Whether a request that failed is tried again.
pub fn is_retryable_llm_error(fault: &Fault) -> (r: bool)
    ensures
        r == retryable(fault@),
{
    let mut lower: Vec<String> = Vec::new();
    let mut i: usize = 0;
    while i < fault.chain.len()
        invariant
            i <= fault.chain@.len(),
            lower@.len() == i,
            forall|j: int| 0 <= j < i ==> (#[trigger] lower@[j])@ == ascii_lower(fault@[j]),
        decreases fault.chain@.len() - i,
    {
        assert(fault@[i as int] == fault.chain@[i as int]@);
        lower.push(to_ascii_lower(fault.chain[i].as_str()));
        i = i + 1;
    }
    assert(texts(lower@) =~= lowered(fault@));
    let message = join(&lower, " | ");
    contains(message.as_str(), "timed out") || contains(message.as_str(), "timeout") || contains(
        message.as_str(),
        "connection",
    ) || contains(message.as_str(), "server error") || contains(message.as_str(), "body")
}

/// The first choice in an answer.
pub open spec fn first_choice(document: DataView) -> Option<DataView> {
    match field_of(document, "choices"@) {
        Some(choices) => item_of(choices, 0),
        None => None,
    }
}

/// The text in an answer, under a name that tells whole texts from pieces.
pub open spec fn choice_text(document: DataView, name: Seq<char>) -> Option<Seq<char>> {
    match first_choice(document) {
        Some(choice) => match field_of(choice, name) {
            Some(message) => text_field(message, "content"@),
            None => None,
        },
        None => None,
    }
}

/// The text in an answer.
pub(crate) fn text_of_choice(document: &Data, name: &str) -> (r: Option<String>)
    ensures
        text_option(r) == choice_text(document@, name@),
{
    match document.field("choices") {
        Some(choices) => match choices.item(0) {
            Some(choice) => match choice.field(name) {
                Some(message) => message.text_in("content"),
                None => None,
            },
            None => None,
        },
        None => None,
    }
}

/// What the model said in an answer, or that it said nothing.
pub open spec fn answer_of(document: DataView) -> Result<Seq<char>, Seq<Seq<char>>> {
    match choice_text(document, "message"@) {
        Some(content) => Ok(trimmed(content)),
        None => Err(seq!["LLM response did not contain choices[0].message.content"@]),
    }
}

/// What the model said, from the body of an answer; or why that cannot be read.
pub open spec fn answer_in(body: Seq<char>) -> Result<Seq<char>, Seq<Seq<char>>> {
    match json_reading(body) {
        Err(cause) => Err(
            seq!["failed to parse LLM response"@, "error decoding response body"@, cause],
        ),
        Ok(document) => answer_of(document),
    }
}

/// Reads what the model said from an answer.
pub fn read_answer(document: &Data) -> (r: Result<String, Fault>)
    ensures
        match answer_of(document@) {
            Ok(text) => r matches Ok(found) && found@ == text,
            Err(chain) => r matches Err(fault) && fault@ == chain,
        },
{
    match text_of_choice(document, "message") {
        Some(content) => Ok(trim(content.as_str())),
        None => Err(Fault::of("LLM response did not contain choices[0].message.content")),
    }
}

/// Reads what the model said from the body of an answer.
pub fn parse_answer(body: &str) -> (r: Result<String, Fault>)
    ensures
        match answer_in(body@) {
            Ok(text) => r matches Ok(found) && found@ == text,
            Err(chain) => r matches Err(fault) && fault@ == chain,
        },
{
    match parse_json(body) {
        Ok(document) => read_answer(&document),
        Err(cause) => {
            let fault = Fault::because("error decoding response body".to_owned(), cause);
            let fault = fault.context("failed to parse LLM response".to_owned());
            assert(fault@ =~= answer_in(body@)->Err_0);
            Err(fault)
        },
    }
}

/// How long a request may take: at least a second.
pub open spec fn timeout_of(config: LlmConfig) -> u64 {
    if config.timeout_seconds < 1 {
        1
    } else {
        config.timeout_seconds
    }
}

/// How long a request may take.
pub fn request_timeout(config: &LlmConfig) -> (r: u64)
    ensures
        r == timeout_of(*config),
{
    if config.timeout_seconds < 1 {
        1
    } else {
        config.timeout_seconds
    }
}

/// The request for the key under which requests are posted.
pub open spec fn key_request(config: LlmConfig) -> RequestView {
    RequestView::Model(ModelView::ApiKey { variable: config.api_key_env@ })
}

/// The post of a prompt.
pub open spec fn chat_post(
    config: LlmConfig,
    address: Seq<char>,
    api_key: Seq<char>,
    system: Seq<char>,
    user: Seq<char>,
) -> RequestView {
    RequestView::Model(
        ModelView::Post {
            post: ChatPostView {
                endpoint: address,
                api_key,
                model: config.model@,
                system,
                user,
                timeout_seconds: timeout_of(config),
            },
        },
    )
}

/// One try to get an answer.
pub open spec fn chat_once(
    config: LlmConfig,
    system: Seq<char>,
    user: Seq<char>,
    replies: Seq<Reply>,
    at: nat,
) -> Run<Seq<char>> {
    match in_context(
        asked::<String>(replies, at, key_request(config)),
        "missing LLM API key env "@ + config.api_key_env@,
    ) {
        Run::Ask(request) => Run::Ask(request),
        Run::Fail(chain, at) => Run::Fail(chain, at),
        Run::On(api_key, at) => match endpoint(config) {
            Err(message) => Run::Fail(seq![message], at),
            Ok(address) => match asked::<String>(
                replies,
                at,
                chat_post(config, address, api_key@, system, user),
            ) {
                Run::Ask(request) => Run::Ask(request),
                Run::Fail(chain, at) => Run::Fail(chain, at),
                Run::On(body, at) => match answer_in(body@) {
                    Ok(text) => Run::On(text, at),
                    Err(chain) => Run::Fail(chain, at),
                },
            },
        },
    }
}

/// Tries once to get an answer.
fn call_chat_once<'a>(
    config: &'a LlmConfig,
    system_prompt: &str,
    user_prompt: &str,
    journal: &mut Journal<'a>,
) -> (r: Result<String, Halt<'a>>)
    ensures
        follows(
            *old(journal),
            *final(journal),
            r,
            chat_once(
                *config,
                system_prompt@,
                user_prompt@,
                old(journal).all(),
                old(journal).at(),
            ),
        ),
{
    let request = Request::Model(ModelCall::ApiKey { variable: config.api_key_env.as_str() });
    let api_key: &'a String = match journal.ask(request) {
        Ok(api_key) => api_key,
        Err(halt) => {
            let message = concat2("missing LLM API key env ", config.api_key_env.as_str());
            return Err(halt.context(message));
        },
    };
    let address = match chat_completions_endpoint(config) {
        Ok(address) => address,
        Err(fault) => {
            return Err(Halt::Fail(fault));
        },
    };
    let post = ChatPost {
        endpoint: address,
        api_key: api_key.clone(),
        model: config.model.clone(),
        system: system_prompt.to_owned(),
        user: user_prompt.to_owned(),
        timeout_seconds: request_timeout(config),
    };
    let body: &'a String = journal.ask(Request::Model(ModelCall::Post { post }))?;
    match parse_answer(body.as_str()) {
        Ok(text) => Ok(text),
        Err(fault) => Err(Halt::Fail(fault)),
    }
}

/// How often an answer is tried for.
pub open spec fn attempts_of(config: LlmConfig) -> nat {
    if config.max_retries == u32::MAX {
        u32::MAX as nat
    } else {
        (config.max_retries + 1) as nat
    }
}

/// How long the wait is after a try.
pub open spec fn pause_after(attempt: nat) -> u64 {
    if attempt < 5 {
        attempt as u64
    } else {
        5
    }
}

/// Tries for an answer, from a given try on.
pub open spec fn chat_from(
    config: LlmConfig,
    system: Seq<char>,
    user: Seq<char>,
    attempt: nat,
    replies: Seq<Reply>,
    at: nat,
) -> Run<Seq<char>>
    decreases attempts_of(config) - attempt,
{
    match chat_once(config, system, user, replies, at) {
        Run::Fail(chain, at) => if attempt < attempts_of(config) && retryable(chain) {
            match asked::<()>(
                replies,
                at,
                RequestView::Model(ModelView::Sleep { seconds: pause_after(attempt) }),
            ) {
                Run::Ask(request) => Run::Ask(request),
                Run::Fail(chain, at) => Run::Fail(chain, at),
                Run::On(_, at) => chat_from(config, system, user, attempt + 1, replies, at),
            }
        } else {
            Run::Fail(chain, at)
        },
        other => other,
    }
}

/// Tries for an answer.
pub open spec fn chat(
    config: LlmConfig,
    system: Seq<char>,
    user: Seq<char>,
    replies: Seq<Reply>,
    at: nat,
) -> Run<Seq<char>> {
    chat_from(config, system, user, 1, replies, at)
}

/// Gets an answer of the model. A try that fails for want of time or connection is repeated after a
/// pause, as often as the settings say.
pub fn call_chat<'a>(
    config: &'a LlmConfig,
    system_prompt: &str,
    user_prompt: &str,
    journal: &mut Journal<'a>,
) -> (r: Result<String, Halt<'a>>)
    ensures
        follows(
            *old(journal),
            *final(journal),
            r,
            chat(*config, system_prompt@, user_prompt@, old(journal).all(), old(journal).at()),
        ),
{
    let attempts: u32 = config.max_retries.saturating_add(1);
    let mut attempt: u32 = 1;
    let ghost expected = chat(
        *config,
        system_prompt@,
        user_prompt@,
        journal.all(),
        journal.at(),
    );
    loop
        invariant
            1 <= attempt <= attempts,
            attempts == attempts_of(*config),
            journal.all() == old(journal).all(),
            expected == chat(
                *config,
                system_prompt@,
                user_prompt@,
                old(journal).all(),
                old(journal).at(),
            ),
            expected == chat_from(
                *config,
                system_prompt@,
                user_prompt@,
                attempt as nat,
                journal.all(),
                journal.at(),
            ),
        decreases attempts - attempt,
    {
        match call_chat_once(config, system_prompt, user_prompt, journal) {
            Ok(content) => {
                return Ok(content);
            },
            Err(Halt::Ask(request)) => {
                return Err(Halt::Ask(request));
            },
            Err(Halt::Fail(fault)) => {
                if attempt >= attempts || !is_retryable_llm_error(&fault) {
                    return Err(Halt::Fail(fault));
                }
                let seconds: u64 = if attempt < 5 {
                    attempt as u64
                } else {
                    5
                };
                let _: &'a () = journal.ask(Request::Model(ModelCall::Sleep { seconds }))?;
                attempt = attempt + 1;
            },
        }
    }
}

} // verus!
