//! Runs that are started anew.
//!
//! A run is started from the beginning with each further reply. That changes nothing: a result or a
//! failure is final, it rests on the replies before its end alone, and as long as a run has fewer
//! replies than it needs it asks for the next one.

use vstd::prelude::*;

use crate::calls::RequestView;
use crate::config::LlmConfig;
use crate::journal::{asked, Answer, Reply, Run};
use crate::llm::protocol::{decided, Decision};
use crate::llm::transport::{attempts_of, chat_from, chat_once};

pub mod investigate;
pub mod jobs;
pub mod load;
pub mod sync;

verus! {

/// What a run asks for, where it asks.
pub open spec fn request_of<T>(run: Run<T>) -> Option<RequestView> {
    match run {
        Run::Ask(request) => Some(request),
        _ => None,
    }
}

/// Whether the reply at a position answers a request: with the replies before it, that is what is
/// asked for.
pub open spec fn answers(
    asks: spec_fn(Seq<Reply>) -> Option<RequestView>,
    replies: Seq<Reply>,
    at: int,
    request: RequestView,
) -> bool {
    0 <= at < replies.len() && asks(replies.take(at)) == Some(request)
}

/// Whether a run, from some reply on, asks for what a part of it asks for.
pub open spec fn hands_on(
    part: spec_fn(Seq<Reply>) -> Option<RequestView>,
    whole: spec_fn(Seq<Reply>) -> Option<RequestView>,
    from: nat,
    replies: Seq<Reply>,
) -> bool {
    forall|k: int|
        from <= k <= replies.len() && part(#[trigger] replies.take(k)) is Some ==> whole(
            replies.take(k),
        ) == part(replies.take(k))
}

/// A journal is its beginning and the rest.
pub proof fn lemma_beginning(replies: Seq<Reply>, k: int)
    requires
        0 <= k <= replies.len(),
    ensures
        replies.take(k) + replies.skip(k) == replies,
        replies.take(k).len() == k,
{
    assert(replies.take(k) + replies.skip(k) =~= replies);
}

/// A journal with nothing behind it is itself.
pub proof fn lemma_nothing_more(replies: Seq<Reply>)
    ensures
        replies + Seq::<Reply>::empty() == replies,
{
    assert(replies + Seq::<Reply>::empty() =~= replies);
}

/// Whether a run that starts at `at` fits what it comes to with a longer journal that begins with the
/// `known` replies it was given: reading goes on from `at`; what the longer journal leads to within
/// the known replies the run leads to as well; and for everything else it asks.
pub open spec fn steady<T>(at: nat, known: nat, run: Run<T>, longer: Run<T>) -> bool {
    &&& match longer {
        Run::Ask(_) => true,
        Run::Fail(_, end) => at <= end,
        Run::On(_, end) => at <= end,
    }
    &&& at <= known ==> match longer {
        Run::Ask(_) => run is Ask,
        Run::Fail(_, end) => if end <= known {
            run == longer
        } else {
            run is Ask
        },
        Run::On(_, end) => if end <= known {
            run == longer
        } else {
            run is Ask
        },
    }
}

/// A reply that was read stays as it is, and one that is not there yet is asked for.
pub broadcast proof fn lemma_asked_is_steady<T: Answer>(
    request: RequestView,
    replies: Seq<Reply>,
    more: Seq<Reply>,
    at: nat,
)
    ensures
        steady(
            at,
            replies.len(),
            asked::<T>(replies, at, request),
            #[trigger] asked::<T>(replies + more, at, request),
        ),
{
    if at < replies.len() {
        assert((replies + more)[at as int] == replies[at as int]);
    }
}

/// A conversation that has ended is not changed by further replies.
pub broadcast proof fn lemma_chat_from_is_steady(
    config: LlmConfig,
    system: Seq<char>,
    user: Seq<char>,
    attempt: nat,
    replies: Seq<Reply>,
    more: Seq<Reply>,
    at: nat,
)
    ensures
        steady(
            at,
            replies.len(),
            chat_from(config, system, user, attempt, replies, at),
            #[trigger] chat_from(config, system, user, attempt, replies + more, at),
        ),
    decreases attempts_of(config) - attempt,
{
    broadcast use lemma_asked_is_steady;

    let longer = replies + more;
    if let Run::Fail(_, next) = chat_once(config, system, user, longer, at) {
        if attempt < attempts_of(config) {
            lemma_chat_from_is_steady(config, system, user, attempt + 1, replies, more, next + 1);
        }
    }
}

/// A decision that was made is not changed by further replies.
pub broadcast proof fn lemma_decided_is_steady<T: Decision>(
    config: LlmConfig,
    system: Seq<char>,
    user: Seq<char>,
    purpose: Seq<char>,
    replies: Seq<Reply>,
    more: Seq<Reply>,
    at: nat,
)
    ensures
        steady(
            at,
            replies.len(),
            decided::<T>(config, system, user, purpose, replies, at),
            #[trigger] decided::<T>(config, system, user, purpose, replies + more, at),
        ),
{
    broadcast use {lemma_asked_is_steady, lemma_chat_from_is_steady};
}

} // verus!
