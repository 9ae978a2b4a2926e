//! What holds of every job.

use vstd::prelude::*;

use crate::calls::conflict::ConflictView;
use crate::calls::git::GitView;
use crate::calls::job::JobCallView;
use crate::calls::notify::NotifyView;
use crate::calls::{pushes, writes, RequestView, Tree};
use crate::command::resolved_ref;
use crate::config::{BranchConfig, Config};
use crate::journal::{asked, Reply, Run};
use crate::llm::laws::{
    lemma_resolution_asks_the_model, lemma_resolution_is_a_reply, lemma_summary_asks_the_model,
    lemma_ways_out_ask_the_model,
};
use crate::llm::types::AutoResolveDecision;
use crate::llm::{auto_resolution, blocks_request};
use crate::replay::jobs::{
    lemma_heads_saved_is_steady, lemma_low_risk_is_steady, lemma_low_risk_round_is_steady,
    lemma_worktree_added_is_steady,
};
use crate::replay::sync::lemma_written_from_is_steady;
use crate::replay::{
    answers, hands_on, lemma_asked_is_steady, lemma_beginning, lemma_chat_from_is_steady,
    lemma_nothing_more, request_of,
};
use crate::repo::{
    AutoResolvedSync, CapturedConflict, CommandOutput, ConflictBlocks, ConflictFileContent,
    ConflictSnapshot, PatchView, ResolvedFile,
};
use crate::report::ReportView;
use crate::service::jobs::finish::{closed, completion_notified, finished, had_activity, job};
use crate::service::jobs::low_risk::{
    applied, capture_request, low_risk, low_risk_round, low_risk_rounds, may_resolve,
    resolved_files, RoundView,
};
use crate::service::jobs::report::{collected, completed_run};
use crate::service::jobs::{
    check_run, check_steps, conflict_handled, handed_over, heads_saved, stop_handled, sync_job,
    work_sync_request, worktree_added, worktree_of, worktree_steps,
};
use crate::service::types::JobView;
use crate::sync::auto_resolve::{branch_facts, patch_or_unknown, rounds_of, written_from};
use crate::sync::conflict::base_ref;
use crate::sync::laws::{
    are_placed, comes_of, is_in_turn, is_low_decision, is_low_risk, is_low_risk_answer, is_placed,
    lemma_files_are_placed_in_order, lemma_low_is_the_word, lemma_low_risk_is_handed_on,
    lemma_resolution_is_steady, lemma_written_pushes_nothing, write_asks, Turn,
};
use crate::text::{text_option, texts};

verus! {

/// Whether the last two replies say that the tests of a branch passed and that what they printed is
/// kept: they answer the requests for just that.
pub open spec fn tests_passed(
    asks: spec_fn(Seq<Reply>) -> Option<RequestView>,
    branch: BranchConfig,
    before_head: Seq<char>,
    replies: Seq<Reply>,
) -> bool {
    let end = replies.len() as int;
    &&& answers(asks, replies, end - 2, job(JobCallView::RunTests { branch, before_head }))
    &&& replies[end - 2] matches Reply::Text(printed) && answers(
        asks,
        replies,
        end - 1,
        job(JobCallView::SaveTestOutput { output: printed@ }),
    )
    &&& replies[end - 1] is Done
}

/// Whether a request pushes a branch whose tests have just passed.
pub open spec fn pushes_what_passed(
    asks: spec_fn(Seq<Reply>) -> Option<RequestView>,
    request: RequestView,
    replies: Seq<Reply>,
) -> bool {
    exists|branch: BranchConfig, before_head: Seq<char>|
        request == job(JobCallView::PushJob { branch }) && #[trigger] tests_passed(
            asks,
            branch,
            before_head,
            replies,
        )
}

/// Whether a request is in order in a job: a push follows tests of the same branch that passed, and
/// a file is written only where a decision of low risk was asked for, from some reply on, and given.
pub open spec fn in_order(
    asks: spec_fn(Seq<Reply>) -> Option<RequestView>,
    from: nat,
    request: RequestView,
    replies: Seq<Reply>,
) -> bool {
    (pushes(request) ==> pushes_what_passed(asks, request, replies)) && (writes(request)
        ==> is_low_risk(asks, from, replies))
}

/// A job pushes what a part of it pushes after its tests, where the part ran the tests as well.
proof fn lemma_order_is_handed_on(
    part: spec_fn(Seq<Reply>) -> Option<RequestView>,
    whole: spec_fn(Seq<Reply>) -> Option<RequestView>,
    from: nat,
    start: nat,
    request: RequestView,
    replies: Seq<Reply>,
)
    requires
        in_order(part, from, request, replies),
        hands_on(part, whole, from, replies),
        pushes(request) ==> from + 2 <= replies.len(),
        start <= from,
    ensures
        in_order(whole, start, request, replies),
{
    if writes(request) {
        lemma_low_risk_is_handed_on(part, whole, from, start, replies);
    }
    if pushes(request) {
        let (branch, before_head) = choose|branch: BranchConfig, before_head: Seq<char>|
            request == job(JobCallView::PushJob { branch }) && #[trigger] tests_passed(
                part,
                branch,
                before_head,
                replies,
            );
        let end = replies.len() as int;
        assert(whole(replies.take(end - 2)) == part(replies.take(end - 2)));
        assert(whole(replies.take(end - 1)) == part(replies.take(end - 1)));
        assert(tests_passed(whole, branch, before_head, replies));
    }
}

proof fn lemma_completion_pushes_nothing(
    config: Config,
    branch: BranchConfig,
    entries: Seq<ReportView>,
    replies: Seq<Reply>,
    at: nat,
)
    ensures
        completion_notified(config, branch, entries, replies, at) matches Run::Ask(request)
            ==> !pushes(request) && !writes(request),
{
    if let Run::On(text, after) = asked::<String>(
        replies,
        at + 1,
        RequestView::Notify(NotifyView::Render { entries }),
    ) {
        lemma_summary_asks_the_model(config.llm, text@, replies, after);
    }
}

/// Whether a request is the message that a branch came through.
pub open spec fn is_completion_message(request: RequestView, branch: BranchConfig) -> bool {
    request matches RequestView::Notify(NotifyView::NamedSummary { subject, .. }) && subject
        == branch.name@ + " 同步完成"@
}

/// That a job came through is remembered only where a message was sent: the last reply says so, and
/// it answers the request to send that message.
pub proof fn lemma_only_sent_messages_are_remembered(
    config: Config,
    branch: BranchConfig,
    entries: Seq<ReportView>,
    replies: Seq<Reply>,
    at: nat,
)
    requires
        completion_notified(config, branch, entries, replies, at) == Run::Ask::<()>(
            job(JobCallView::RecordNotified),
        ),
    ensures
        replies.len() > 0,
        replies.last() == Reply::Flag(true),
        completion_notified(
            config,
            branch,
            entries,
            replies.take(replies.len() - 1),
            at,
        ) matches Run::Ask(request) && is_completion_message(request, branch),
{
    broadcast use {lemma_asked_is_steady, lemma_chat_from_is_steady};

    if let Run::On(text, after) = asked::<String>(
        replies,
        at + 1,
        RequestView::Notify(NotifyView::Render { entries }),
    ) {
        lemma_summary_asks_the_model(config.llm, text@, replies, after);
        lemma_beginning(replies, replies.len() - 1);
    }
}

/// A job that came through and whose end was told is told no second time.
pub proof fn lemma_completion_is_told_once(
    config: Config,
    branch: BranchConfig,
    entries: Seq<ReportView>,
    replies: Seq<Reply>,
    at: nat,
)
    requires
        at < replies.len(),
        replies[at as int] == Reply::Flag(true),
    ensures
        completion_notified(config, branch, entries, replies, at) == Run::On((), at + 1),
{
}

proof fn lemma_closed_pushes_nothing(
    config: Config,
    branch: BranchConfig,
    kept: JobView,
    after_head: Seq<char>,
    tag: Option<Seq<char>>,
    notify_on_noop: bool,
    replies: Seq<Reply>,
    at: nat,
)
    ensures
        closed(config, branch, kept, after_head, tag, notify_on_noop, replies, at) matches Run::Ask(
            request,
        ) ==> !pushes(request) && !writes(request),
{
    reveal(collected);
    let active = had_activity(kept, after_head, tag);
    if let Run::On(entries, a) = completed_run(
        config,
        branch,
        kept,
        after_head,
        tag,
        active,
        replies,
        at,
    ) {
        lemma_completion_pushes_nothing(config, branch, entries, replies, a + 2);
    }
}

/// What the end of a job asks for.
pub open spec fn finish_asks(
    config: Config,
    branch: BranchConfig,
    notify_on_noop: bool,
    at: nat,
) -> spec_fn(Seq<Reply>) -> Option<RequestView> {
    |replies: Seq<Reply>| request_of(finished(config, branch, notify_on_noop, replies, at))
}

/// The end of a job pushes only after its tests passed and what they printed was kept, and writes
/// no file.
pub proof fn lemma_finish_pushes_after_tests(
    config: Config,
    branch: BranchConfig,
    notify_on_noop: bool,
    replies: Seq<Reply>,
    at: nat,
)
    requires
        at <= replies.len(),
    ensures
        finished(config, branch, notify_on_noop, replies, at) matches Run::Ask(request) ==> {
            &&& in_order(finish_asks(config, branch, notify_on_noop, at), at, request, replies)
            &&& pushes(request) ==> at + 2 <= replies.len()
            &&& !writes(request)
        },
{
    reveal(finished);
    if let Run::On(kept, a) = asked::<JobView>(replies, at, job(JobCallView::Load)) {
        if let Run::On(after_head, b) = resolved_ref(Tree::Work, "HEAD"@, replies, a) {
            if let Run::On(tag, c) = asked::<Option<String>>(
                replies,
                b + 2,
                job(JobCallView::PushJob { branch }),
            ) {
                lemma_closed_pushes_nothing(
                    config,
                    branch,
                    kept,
                    after_head,
                    text_option(tag),
                    notify_on_noop,
                    replies,
                    c,
                );
            }
            if let Run::Ask(request) = finished(config, branch, notify_on_noop, replies, at) {
                if pushes(request) {
                    let asks = finish_asks(config, branch, notify_on_noop, at);
                    let first = replies.take(b as int);
                    let second = replies.take((b + 1) as int);
                    assert(first[at as int] == replies[at as int]);
                    assert(first[a as int] == replies[a as int]);
                    assert(second[at as int] == replies[at as int]);
                    assert(second[a as int] == replies[a as int]);
                    assert(second[b as int] == replies[b as int]);
                    assert(tests_passed(asks, branch, kept.before_head@, replies));
                }
            }
        }
    }
}

/// What a round that resolves the conflicts of a job asks for.
pub open spec fn round_asks(
    config: Config,
    branch: BranchConfig,
    snapshot: ConflictSnapshot,
    files: Vec<ConflictFileContent>,
    at: nat,
) -> spec_fn(Seq<Reply>) -> Option<RequestView> {
    |replies: Seq<Reply>|
        request_of(low_risk_round(config, branch, snapshot, files, replies, at))
}

proof fn lemma_job_round_is_known(
    config: Config,
    branch: BranchConfig,
    snapshot: ConflictSnapshot,
    files: Vec<ConflictFileContent>,
    patch: PatchView,
    decision: AutoResolveDecision,
    resolved: Vec<ResolvedFile>,
    b: nat,
    c: nat,
    replies: Seq<Reply>,
    at: nat,
    k: int,
)
    requires
        at <= replies.len(),
        asked::<ConflictBlocks>(replies, at, blocks_request(files)) matches Run::On(blocks, a)
            && blocks.payload_bytes <= branch.auto_resolve.max_file_bytes && patch_or_unknown(
            Tree::Work,
            replies,
            a,
        ) == Run::On(patch, b),
        auto_resolution(
            config.llm,
            branch_facts(branch, base_ref(config.repo), patch, snapshot),
            files,
            replies,
            b,
        ) == Run::On(Some(decision), c),
        resolved_files(decision, snapshot, files, replies, c) == Run::On(Some(resolved), c + 2),
        c <= k <= replies.len(),
    ensures
        at < c,
        ({
            let going = low_risk_round(config, branch, snapshot, files, replies.take(k), at);
            if k == c {
                going == Run::Ask::<RoundView>(
                    RequestView::Conflict(
                        ConflictView::Resolve { files, resolutions: decision.resolutions },
                    ),
                )
            } else if k == c + 1 {
                going == Run::Ask::<RoundView>(
                    RequestView::Conflict(
                        ConflictView::Validate { resolved, paths: texts(snapshot.files@) },
                    ),
                )
            } else {
                going == applied(branch, resolved, replies.take(k), c + 2)
            }
        }),
{
    let a: nat = at + 1;
    let facts = branch_facts(branch, base_ref(config.repo), patch, snapshot);
    let known = replies.take(k);
    lemma_resolution_is_a_reply(config.llm, facts, files, replies, b);
    lemma_beginning(replies, k);
    lemma_resolution_is_steady(config.llm, facts, files, known, replies.skip(k), b);
    assert(known[at as int] == replies[at as int]);
    assert(known[a as int] == replies[a as int]);
    if c < k {
        assert(known[c as int] == replies[c as int]);
    }
    if c + 1 < k {
        assert(known[(c + 1) as int] == replies[(c + 1) as int]);
    }
    reveal(low_risk_round);
}

proof fn lemma_job_round_decides(
    config: Config,
    branch: BranchConfig,
    snapshot: ConflictSnapshot,
    files: Vec<ConflictFileContent>,
    patch: PatchView,
    decision: AutoResolveDecision,
    resolved: Vec<ResolvedFile>,
    b: nat,
    c: nat,
    replies: Seq<Reply>,
    at: nat,
)
    requires
        at <= replies.len(),
        asked::<ConflictBlocks>(replies, at, blocks_request(files)) matches Run::On(blocks, a)
            && blocks.payload_bytes <= branch.auto_resolve.max_file_bytes && patch_or_unknown(
            Tree::Work,
            replies,
            a,
        ) == Run::On(patch, b),
        auto_resolution(
            config.llm,
            branch_facts(branch, base_ref(config.repo), patch, snapshot),
            files,
            replies,
            b,
        ) == Run::On(Some(decision), c),
        resolved_files(decision, snapshot, files, replies, c) == Run::On(Some(resolved), c + 2),
    ensures
        at < c <= replies.len(),
        is_low_decision(round_asks(config, branch, snapshot, files, at), replies, c - 1),
        replies[c - 1] == Reply::AutoResolve(decision),
        replies[c as int] == Reply::Resolved(resolved),
        replies[(c + 1) as int] is Done,
        c + 2 <= replies.len(),
{
    let a: nat = at + 1;
    let facts = branch_facts(branch, base_ref(config.repo), patch, snapshot);
    lemma_resolution_is_a_reply(config.llm, facts, files, replies, b);
    lemma_low_is_the_word(decision);
    let known = replies.take(c - 1);
    assert(known[at as int] == replies[at as int]);
    assert(known[a as int] == replies[a as int]);
    reveal(low_risk_round);
}

/// Once a round of a job has resolved files that were checked against the paths in conflict, it
/// writes and stages them in order; only when all of them are written and staged, the sync is
/// continued, the way the branch is synced.
pub proof fn lemma_job_round_places_files(
    config: Config,
    branch: BranchConfig,
    snapshot: ConflictSnapshot,
    files: Vec<ConflictFileContent>,
    patch: PatchView,
    decision: AutoResolveDecision,
    resolved: Vec<ResolvedFile>,
    b: nat,
    c: nat,
    replies: Seq<Reply>,
    at: nat,
) -> (turn: Turn)
    requires
        at <= replies.len(),
        asked::<ConflictBlocks>(replies, at, blocks_request(files)) matches Run::On(blocks, a)
            && blocks.payload_bytes <= branch.auto_resolve.max_file_bytes && patch_or_unknown(
            Tree::Work,
            replies,
            a,
        ) == Run::On(patch, b),
        auto_resolution(
            config.llm,
            branch_facts(branch, base_ref(config.repo), patch, snapshot),
            files,
            replies,
            b,
        ) == Run::On(Some(decision), c),
        resolved_files(decision, snapshot, files, replies, c) == Run::On(Some(resolved), c + 2),
        !(written_from(Tree::Work, resolved@, 0, replies, c + 2) is Fail),
    ensures
        ({
            let asks = round_asks(config, branch, snapshot, files, at);
            &&& at < c
            &&& turn.tree == Tree::Work
            &&& turn.files == files
            &&& turn.resolved == resolved
            &&& turn.first == c + 2
            &&& comes_of(asks, replies, c - 1, turn)
            &&& answers(
                asks,
                replies,
                (c + 1) as int,
                RequestView::Conflict(
                    ConflictView::Validate { resolved, paths: texts(snapshot.files@) },
                ),
            )
            &&& replies[(c + 1) as int] is Done
            &&& are_placed(asks, replies, Tree::Work, resolved@, turn.first, turn.done)
            &&& if turn.done < resolved@.len() {
                is_in_turn(asks, replies, turn)
            } else {
                &&& turn.done == resolved@.len()
                &&& asks(replies.take(turn.first + 2 * turn.done)) == Some(
                    RequestView::Git(
                        Tree::Work,
                        GitView::Continue { strategy: branch.sync },
                    ),
                )
            }
            &&& written_from(Tree::Work, resolved@, 0, replies, c + 2) is Ask ==> turn.done
                < resolved@.len()
        }),
{
    let asks = round_asks(config, branch, snapshot, files, at);
    let first: nat = c + 2;
    lemma_job_round_decides(
        config,
        branch,
        snapshot,
        files,
        patch,
        decision,
        resolved,
        b,
        c,
        replies,
        at,
    );
    lemma_job_round_is_known(
        config,
        branch,
        snapshot,
        files,
        patch,
        decision,
        resolved,
        b,
        c,
        replies,
        at,
        c as int,
    );
    lemma_job_round_is_known(
        config,
        branch,
        snapshot,
        files,
        patch,
        decision,
        resolved,
        b,
        c,
        replies,
        at,
        (c + 1) as int,
    );
    let writing = write_asks(Tree::Work, resolved@, first);
    let done = lemma_files_are_placed_in_order(Tree::Work, resolved@, replies, first);
    assert forall|k: int|
        first <= k <= replies.len() && writing(#[trigger] replies.take(k)) is Some implies asks(
        replies.take(k),
    ) == writing(replies.take(k)) by {
        lemma_job_round_is_known(
            config,
            branch,
            snapshot,
            files,
            patch,
            decision,
            resolved,
            b,
            c,
            replies,
            at,
            k,
        );
    }
    assert forall|j: int| 0 <= j < done implies #[trigger] is_placed(
        asks,
        replies,
        Tree::Work,
        resolved@[j],
        first + 2 * j,
    ) by {
        assert(is_placed(writing, replies, Tree::Work, resolved@[j], first + 2 * j));
        assert(asks(replies.take(first + 2 * j)) == writing(replies.take(first + 2 * j)));
        assert(asks(replies.take(first + 2 * j + 1)) == writing(replies.take(first + 2 * j + 1)));
    }
    assert(replies.take(replies.len() as int) =~= replies);
    let p = (first + 2 * done) as int;
    if done < resolved@.len() {
        assert(asks(replies.take(replies.len() as int)) == writing(
            replies.take(replies.len() as int),
        ));
        if replies.len() != p {
            assert(asks(replies.take(p)) == writing(replies.take(p)));
        }
    } else {
        lemma_beginning(replies, p);
        lemma_written_from_is_steady(
            Tree::Work,
            resolved@,
            0,
            replies.take(p),
            replies.skip(p),
            first,
        );
        lemma_job_round_is_known(
            config,
            branch,
            snapshot,
            files,
            patch,
            decision,
            resolved,
            b,
            c,
            replies,
            at,
            p,
        );
    }
    Turn { tree: Tree::Work, files, resolved, first: first as int, done: done as int }
}

proof fn lemma_low_risk_round(
    config: Config,
    branch: BranchConfig,
    snapshot: ConflictSnapshot,
    files: Vec<ConflictFileContent>,
    replies: Seq<Reply>,
    at: nat,
)
    requires
        at <= replies.len(),
    ensures
        low_risk_round(config, branch, snapshot, files, replies, at) matches Run::Ask(request)
            ==> !pushes(request) && (writes(request) ==> is_low_risk(
            round_asks(config, branch, snapshot, files, at),
            at,
            replies,
        )),
{
    reveal(low_risk_round);
    let asks = round_asks(config, branch, snapshot, files, at);
    if let Run::On(blocks, a) = asked::<ConflictBlocks>(replies, at, blocks_request(files)) {
        if let Run::On(patch, b) = patch_or_unknown(Tree::Work, replies, a) {
            let facts = branch_facts(branch, base_ref(config.repo), patch, snapshot);
            lemma_resolution_asks_the_model(config.llm, facts, files, replies, b);
            if let Run::On(Some(decision), c) = auto_resolution(
                config.llm,
                facts,
                files,
                replies,
                b,
            ) {
                if let Run::On(Some(resolved), d) = resolved_files(
                    decision,
                    snapshot,
                    files,
                    replies,
                    c,
                ) {
                    lemma_written_pushes_nothing(Tree::Work, resolved@, 0, replies, d);
                    if blocks.payload_bytes <= branch.auto_resolve.max_file_bytes
                        && written_from(Tree::Work, resolved@, 0, replies, d) is Ask {
                        let turn = lemma_job_round_places_files(
                            config,
                            branch,
                            snapshot,
                            files,
                            patch,
                            decision,
                            resolved,
                            b,
                            c,
                            replies,
                            at,
                        );
                        assert(comes_of(asks, replies, c - 1, turn));
                        assert(is_in_turn(asks, replies, turn));
                        assert(is_low_risk_answer(asks, replies, c - 1));
                    }
                }
            }
        }
    }
}

/// What the rounds that resolve the conflicts of a job ask for.
pub open spec fn rounds_ask(
    config: Config,
    branch: BranchConfig,
    left: nat,
    snapshot: ConflictSnapshot,
    files: Vec<ConflictFileContent>,
    at: nat,
) -> spec_fn(Seq<Reply>) -> Option<RequestView> {
    |replies: Seq<Reply>|
        request_of(low_risk_rounds(config, branch, left, snapshot, files, replies, at))
}

proof fn lemma_low_risk_rounds(
    config: Config,
    branch: BranchConfig,
    left: nat,
    snapshot: ConflictSnapshot,
    files: Vec<ConflictFileContent>,
    replies: Seq<Reply>,
    at: nat,
)
    requires
        at <= replies.len(),
    ensures
        low_risk_rounds(config, branch, left, snapshot, files, replies, at) matches Run::Ask(
            request,
        ) ==> !pushes(request) && (writes(request) ==> is_low_risk(
            rounds_ask(config, branch, left, snapshot, files, at),
            at,
            replies,
        )),
    decreases left,
{
    if left > 0 {
        let whole = rounds_ask(config, branch, left, snapshot, files, at);
        lemma_low_risk_round(config, branch, snapshot, files, replies, at);
        let first = round_asks(config, branch, snapshot, files, at);
        assert(hands_on(first, whole, at, replies));
        if is_low_risk(first, at, replies) {
            lemma_low_risk_is_handed_on(first, whole, at, at, replies);
        }
        if let Run::On(RoundView::Going(captured), after) = low_risk_round(
            config,
            branch,
            snapshot,
            files,
            replies,
            at,
        ) {
            let rest = (left - 1) as nat;
            lemma_nothing_more(replies);
            lemma_low_risk_round_is_steady(
                config,
                branch,
                snapshot,
                files,
                replies,
                Seq::empty(),
                at,
            );
            lemma_low_risk_rounds(
                config,
                branch,
                rest,
                captured.snapshot,
                captured.files,
                replies,
                after,
            );
            let part = rounds_ask(
                config,
                branch,
                rest,
                captured.snapshot,
                captured.files,
                after,
            );
            assert forall|k: int|
                after <= k <= replies.len() && part(#[trigger] replies.take(k)) is Some implies whole(
                replies.take(k),
            ) == part(replies.take(k)) by {
                lemma_beginning(replies, k);
                lemma_low_risk_round_is_steady(
                    config,
                    branch,
                    snapshot,
                    files,
                    replies.take(k),
                    replies.skip(k),
                    at,
                );
            }
            if is_low_risk(part, after, replies) {
                lemma_low_risk_is_handed_on(part, whole, after, at, replies);
            }
        }
    }
}

/// What resolving the conflicts of a job asks for.
pub open spec fn low_risk_asks(
    config: Config,
    branch: BranchConfig,
    captured: CapturedConflict,
    at: nat,
) -> spec_fn(Seq<Reply>) -> Option<RequestView> {
    |replies: Seq<Reply>| request_of(low_risk(config, branch, captured, replies, at))
}

/// Resolving the conflicts of a job asks for something only where they are few and all in allowed
/// paths; it pushes nothing, and it writes a file only where a decision of low risk was asked for and
/// given.
pub proof fn lemma_low_risk_writes_what_is_allowed(
    config: Config,
    branch: BranchConfig,
    captured: CapturedConflict,
    replies: Seq<Reply>,
    at: nat,
)
    requires
        at <= replies.len(),
    ensures
        low_risk(config, branch, captured, replies, at) matches Run::Ask(request) ==> may_resolve(
            branch,
            texts(captured.snapshot.files@),
        ) && !pushes(request) && (writes(request) ==> is_low_risk(
            low_risk_asks(config, branch, captured, at),
            at,
            replies,
        )),
{
    if may_resolve(branch, texts(captured.snapshot.files@)) {
        let rounds = rounds_of(branch.auto_resolve);
        lemma_low_risk_rounds(
            config,
            branch,
            rounds,
            captured.snapshot,
            captured.files,
            replies,
            at,
        );
        let part = rounds_ask(
            config,
            branch,
            rounds,
            captured.snapshot,
            captured.files,
            at,
        );
        let whole = low_risk_asks(config, branch, captured, at);
        assert(hands_on(part, whole, at, replies));
        if is_low_risk(part, at, replies) {
            lemma_low_risk_is_handed_on(part, whole, at, at, replies);
        }
    }
}

proof fn lemma_handed_over(
    config: Config,
    branch: BranchConfig,
    captured: CapturedConflict,
    replies: Seq<Reply>,
    at: nat,
)
    ensures
        handed_over(config, branch, captured, replies, at) matches Run::Ask(request) ==> !pushes(
            request,
        ) && !writes(request),
{
    reveal(handed_over);
    if let Run::On(patch, a) = patch_or_unknown(Tree::Work, replies, at + 1) {
        lemma_ways_out_ask_the_model(
            config.llm,
            branch_facts(branch, base_ref(config.repo), patch, captured.snapshot),
            captured.files,
            "尚无人工补充要求"@,
            replies,
            a,
        );
    }
}

/// What going on with conflicts asks for.
pub open spec fn conflict_asks(
    config: Config,
    branch: BranchConfig,
    captured: CapturedConflict,
    notify_on_noop: bool,
    at: nat,
) -> spec_fn(Seq<Reply>) -> Option<RequestView> {
    |replies: Seq<Reply>|
        request_of(conflict_handled(config, branch, captured, notify_on_noop, replies, at))
}

proof fn lemma_conflict_handled(
    config: Config,
    branch: BranchConfig,
    captured: CapturedConflict,
    notify_on_noop: bool,
    replies: Seq<Reply>,
    at: nat,
)
    requires
        at <= replies.len(),
    ensures
        conflict_handled(config, branch, captured, notify_on_noop, replies, at) matches Run::Ask(
            request,
        ) ==> in_order(
            conflict_asks(config, branch, captured, notify_on_noop, at),
            at,
            request,
            replies,
        ) && (pushes(request) ==> at + 2 <= replies.len()),
{
    reveal(conflict_handled);
    lemma_low_risk_writes_what_is_allowed(config, branch, captured, replies, at);
    lemma_nothing_more(replies);
    lemma_low_risk_is_steady(config, branch, captured, replies, Seq::empty(), at);
    match low_risk(config, branch, captured, replies, at) {
        Run::On(Some(true), a) => {
            lemma_finish_pushes_after_tests(config, branch, notify_on_noop, replies, a);
            let part = finish_asks(config, branch, notify_on_noop, a);
            let whole = conflict_asks(config, branch, captured, notify_on_noop, at);
            assert forall|k: int|
                a <= k <= replies.len() && part(#[trigger] replies.take(k)) is Some implies whole(
                replies.take(k),
            ) == part(replies.take(k)) by {
                lemma_beginning(replies, k);
                lemma_low_risk_is_steady(
                    config,
                    branch,
                    captured,
                    replies.take(k),
                    replies.skip(k),
                    at,
                );
            }
            if let Run::Ask(request) = finished(config, branch, notify_on_noop, replies, a) {
                lemma_order_is_handed_on(part, whole, a, at, request, replies);
            }
        },
        Run::On(Some(false), a) => {
            if let Run::On(rest, b) = asked::<CapturedConflict>(
                replies,
                a,
                capture_request(branch),
            ) {
                lemma_handed_over(config, branch, rest, replies, b);
            }
        },
        Run::On(None, a) => lemma_handed_over(config, branch, captured, replies, a),
        Run::Fail(_, a) => lemma_handed_over(config, branch, captured, replies, a),
        Run::Ask(_) => {
            let part = low_risk_asks(config, branch, captured, at);
            let whole = conflict_asks(config, branch, captured, notify_on_noop, at);
            assert(hands_on(part, whole, at, replies));
            if is_low_risk(part, at, replies) {
                lemma_low_risk_is_handed_on(part, whole, at, at, replies);
            }
        },
    }
}

/// What going on after a sync that stopped asks for.
pub open spec fn stop_asks(
    config: Config,
    branch: BranchConfig,
    output: CommandOutput,
    notify_on_noop: bool,
    at: nat,
) -> spec_fn(Seq<Reply>) -> Option<RequestView> {
    |replies: Seq<Reply>|
        request_of(stop_handled(config, branch, output, notify_on_noop, replies, at))
}

proof fn lemma_stop_handled(
    config: Config,
    branch: BranchConfig,
    output: CommandOutput,
    notify_on_noop: bool,
    replies: Seq<Reply>,
    at: nat,
)
    requires
        at <= replies.len(),
    ensures
        stop_handled(config, branch, output, notify_on_noop, replies, at) matches Run::Ask(request)
            ==> in_order(
            stop_asks(config, branch, output, notify_on_noop, at),
            at,
            request,
            replies,
        ) && (pushes(request) ==> at + 2 <= replies.len()),
{
    reveal(stop_handled);
    let whole = stop_asks(config, branch, output, notify_on_noop, at);
    if let Run::On(captured, a) = asked::<CapturedConflict>(
        replies,
        at,
        capture_request(branch),
    ) {
        assert forall|k: int| a <= k <= replies.len() implies #[trigger] replies.take(k)[at as int]
            == replies[at as int] by {}
        assert forall|k: int| a < k <= replies.len() implies #[trigger] replies.take(k)[a as int]
            == replies[a as int] by {}
        if captured.snapshot.files@.len() > 0 {
            lemma_conflict_handled(config, branch, captured, notify_on_noop, replies, a);
            let part = conflict_asks(config, branch, captured, notify_on_noop, a);
            assert(hands_on(part, whole, a, replies));
            if let Run::Ask(request) = conflict_handled(
                config,
                branch,
                captured,
                notify_on_noop,
                replies,
                a,
            ) {
                lemma_order_is_handed_on(part, whole, a, at, request, replies);
            }
        } else if a < replies.len() {
            match replies[a as int] {
                Reply::Continued(AutoResolvedSync::Conflict(next)) => {
                    lemma_conflict_handled(config, branch, next, notify_on_noop, replies, a + 1);
                    let part = conflict_asks(config, branch, next, notify_on_noop, a + 1);
                    assert(hands_on(part, whole, a + 1, replies));
                    if let Run::Ask(request) = conflict_handled(
                        config,
                        branch,
                        next,
                        notify_on_noop,
                        replies,
                        a + 1,
                    ) {
                        lemma_order_is_handed_on(part, whole, a + 1, at, request, replies);
                    }
                },
                Reply::Continued(AutoResolvedSync::Completed) => {
                    lemma_finish_pushes_after_tests(config, branch, notify_on_noop, replies, a + 1);
                    let part = finish_asks(config, branch, notify_on_noop, a + 1);
                    assert(hands_on(part, whole, a + 1, replies));
                    if let Run::Ask(request) = finished(
                        config,
                        branch,
                        notify_on_noop,
                        replies,
                        a + 1,
                    ) {
                        lemma_order_is_handed_on(part, whole, a + 1, at, request, replies);
                    }
                },
                _ => {},
            }
        }
    }
}

/// What a sync job asks for.
pub open spec fn job_asks(
    data_dir: Seq<char>,
    job_id: Seq<char>,
    branch_name: Seq<char>,
    notify_on_noop: bool,
) -> spec_fn(Seq<Reply>) -> Option<RequestView> {
    |replies: Seq<Reply>|
        request_of(sync_job(data_dir, job_id, branch_name, notify_on_noop, replies, 0))
}

/// A sync job pushes a branch only after its tests passed and what they printed was kept, as the
/// job asked for it, and it writes a file only where it asked for a decision on a conflict and was
/// given one of low risk.
pub proof fn lemma_sync_job_is_in_order(
    data_dir: Seq<char>,
    job_id: Seq<char>,
    branch_name: Seq<char>,
    notify_on_noop: bool,
    replies: Seq<Reply>,
)
    ensures
        sync_job(data_dir, job_id, branch_name, notify_on_noop, replies, 0) matches Run::Ask(
            request,
        ) ==> in_order(
            job_asks(data_dir, job_id, branch_name, notify_on_noop),
            0,
            request,
            replies,
        ),
{
    let whole = job_asks(data_dir, job_id, branch_name, notify_on_noop);
    let worktree = worktree_of(data_dir, job_id);
    let ran = replies.len() > 0 && replies[0] is Done;
    if let (true, Run::On(config, a)) = (
        ran,
        asked::<Config>(replies, 1, job(JobCallView::Settings)),
    ) {
        if let Run::On(branch, b) = asked::<BranchConfig>(
            replies,
            a,
            job(JobCallView::Branch { name: branch_name }),
        ) {
            lemma_worktree_asks(config, branch_name, worktree, replies, b);
            if let Run::On(_, c) = worktree_added(config, branch_name, worktree, replies, b) {
                if let Run::On(_, d) = heads_saved(config, branch_name, worktree, replies, c) {
                    if let Run::On(output, e) = asked::<CommandOutput>(
                        replies,
                        d,
                        work_sync_request(config, branch),
                    ) {
                        lemma_job_hands_on(
                            data_dir,
                            job_id,
                            branch_name,
                            notify_on_noop,
                            config,
                            branch,
                            c,
                            d,
                            output,
                            replies,
                        );
                        if output.succeeded() {
                            lemma_finish_pushes_after_tests(
                                config,
                                branch,
                                notify_on_noop,
                                replies,
                                e,
                            );
                            if let Run::Ask(request) = finished(
                                config,
                                branch,
                                notify_on_noop,
                                replies,
                                e,
                            ) {
                                let part = finish_asks(config, branch, notify_on_noop, e);
                                lemma_order_is_handed_on(part, whole, e, 0, request, replies);
                            }
                        } else {
                            lemma_stop_handled(config, branch, output, notify_on_noop, replies, e);
                            if let Run::Ask(request) = stop_handled(
                                config,
                                branch,
                                output,
                                notify_on_noop,
                                replies,
                                e,
                            ) {
                                let part = stop_asks(config, branch, output, notify_on_noop, e);
                                lemma_order_is_handed_on(part, whole, e, 0, request, replies);
                            }
                        }
                    }
                }
            }
        }
    }
}

/// Where a run ended, if it did.
pub open spec fn end_of<T>(run: Run<T>) -> Option<nat> {
    match run {
        Run::Ask(_) => None,
        Run::Fail(_, end) => Some(end),
        Run::On(_, end) => Some(end),
    }
}

/// Adding a worktree gives the lock of the repository back in the end, whatever came of it, where it
/// got the lock.
pub proof fn lemma_worktree_gives_the_lock_back(
    config: Config,
    branch_name: Seq<char>,
    worktree: Seq<char>,
    replies: Seq<Reply>,
    at: nat,
)
    requires
        at < replies.len(),
        replies[at as int] is Done,
    ensures
        end_of(worktree_added(config, branch_name, worktree, replies, at)) matches Some(end)
            ==> answers(
            |r: Seq<Reply>| request_of(worktree_added(config, branch_name, worktree, r, at)),
            replies,
            end - 1,
            job(JobCallView::Unlock),
        ),
{
    broadcast use lemma_asked_is_steady;

    reveal(worktree_added);
    if let Some(end) = end_of(worktree_steps(config, branch_name, worktree, replies, at + 1)) {
        if end <= replies.len() {
            lemma_beginning(replies, end as int);
            assert(replies.take(end as int)[at as int] == replies[at as int]);
        }
    }
}

/// A check of the repository gives its lock back in the end, whatever came of it, where it got the
/// lock.
pub proof fn lemma_check_gives_the_lock_back(replies: Seq<Reply>, at: nat)
    requires
        at + 1 < replies.len(),
        replies[at as int] is Done,
        replies[(at + 1) as int] is Done,
    ensures
        end_of(check_run(replies, at)) matches Some(end) ==> answers(
            |r: Seq<Reply>| request_of(check_run(r, at)),
            replies,
            end - 1,
            job(JobCallView::Unlock),
        ),
{
    broadcast use lemma_asked_is_steady;

    if let Some(end) = end_of(check_steps(replies, at + 2)) {
        if end <= replies.len() {
            lemma_beginning(replies, end as int);
            assert(replies.take(end as int)[at as int] == replies[at as int]);
            assert(replies.take(end as int)[(at + 1) as int] == replies[(at + 1) as int]);
        }
    }
}

proof fn lemma_worktree_asks(
    config: Config,
    branch_name: Seq<char>,
    worktree: Seq<char>,
    replies: Seq<Reply>,
    at: nat,
)
    ensures
        worktree_added(config, branch_name, worktree, replies, at) matches Run::Ask(request)
            ==> !pushes(request) && !writes(request),
        worktree_added(config, branch_name, worktree, replies, at) matches Run::On(_, end) ==> (
        heads_saved(config, branch_name, worktree, replies, end) matches Run::Ask(request)
            ==> !pushes(request) && !writes(request)),
{
    reveal(worktree_added);
    reveal(heads_saved);
}

/// Once its branch was synced, a job asks for what going on from there asks for.
pub proof fn lemma_job_hands_on(
    data_dir: Seq<char>,
    job_id: Seq<char>,
    branch_name: Seq<char>,
    notify_on_noop: bool,
    config: Config,
    branch: BranchConfig,
    added: nat,
    saved: nat,
    output: CommandOutput,
    replies: Seq<Reply>,
)
    requires
        2 < replies.len(),
        replies[0] is Done,
        replies[1] == Reply::Settings(config),
        replies[2] == Reply::Branch(branch),
        worktree_added(config, branch_name, worktree_of(data_dir, job_id), replies, 3) matches Run::On(
            _,
            end,
        ) && end == added,
        heads_saved(config, branch_name, worktree_of(data_dir, job_id), replies, added) matches Run::On(
            _,
            end,
        ) && end == saved,
        saved < replies.len(),
        replies[saved as int] == Reply::Output(output),
    ensures
        ({
            let whole = job_asks(data_dir, job_id, branch_name, notify_on_noop);
            if output.succeeded() {
                hands_on(finish_asks(config, branch, notify_on_noop, saved + 1), whole, saved + 1, replies)
            } else {
                hands_on(
                    stop_asks(config, branch, output, notify_on_noop, saved + 1),
                    whole,
                    saved + 1,
                    replies,
                )
            }
        }),
{
    let whole = job_asks(data_dir, job_id, branch_name, notify_on_noop);
    let part = if output.succeeded() {
        finish_asks(config, branch, notify_on_noop, saved + 1)
    } else {
        stop_asks(config, branch, output, notify_on_noop, saved + 1)
    };
    let worktree = worktree_of(data_dir, job_id);
    assert(replies.take(replies.len() as int) =~= replies);
    assert forall|k: int|
        saved + 1 <= k <= replies.len() && part(#[trigger] replies.take(k)) is Some implies whole(
        replies.take(k),
    ) == part(replies.take(k)) by {
        let known = replies.take(k);
        lemma_beginning(replies, k);
        lemma_worktree_added_is_steady(config, branch_name, worktree, known, replies.skip(k), 3);
        lemma_heads_saved_is_steady(config, branch_name, worktree, known, replies.skip(k), added);
        assert(known[saved as int] == replies[saved as int]);
        assert(known[0] == replies[0]);
        assert(known[1] == replies[1]);
        assert(known[2] == replies[2]);
    }
}

} // verus!
