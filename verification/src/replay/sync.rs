//! Syncs that are started anew.

use vstd::prelude::*;

use crate::calls::Tree;
use crate::config::{BranchConfig, Config, LlmConfig, RepoConfig, SyncStrategy};
use crate::journal::{Reply, Run};
use crate::protection::types::CommitSecurityReviewBatch;
use crate::replay::{
    lemma_asked_is_steady, lemma_chat_from_is_steady, lemma_decided_is_steady, steady,
};
use crate::repo::{CommandOutput, ConflictSnapshot, ResolvedFile};
use crate::report::ReportView;
use crate::sync::{
    branch_done, branch_once, branch_with_retries, branches_done, is_selected, status_run, sync_run,
    SyncOptions, Task,
};
use crate::sync::auto_resolve::{
    advance, attempt, continuation, continue_from, head_or_empty, round_on, round_run, rounds_from,
    rounds_of, solved, staged, with_stderr, written_from, RoundView,
};
use crate::sync::checks::{screened, test_record, tested, tests_from};
use crate::sync::conflict::{
    abandoned, aborted, conflict_reported, resolved_from, settled, started, StartView,
};
use crate::sync::notify::{noticed, noticed_from};
use crate::sync::publish::{pushed, surveyed, tagged};

verus! {

/// What `continue_from` comes to rests on the replies that it has read alone.
pub broadcast proof fn lemma_continue_from_is_steady(
    strategy: SyncStrategy,
    left: nat,
    last_head: Seq<char>,
    details: Seq<Seq<char>>,
    replies: Seq<Reply>,
    more: Seq<Reply>,
    at: nat,
)
    ensures
        steady(
            at,
            replies.len(),
            continue_from(strategy, left, last_head, details, replies, at),
            #[trigger] continue_from(strategy, left, last_head, details, replies + more, at),
        ),
    decreases left,
{
    broadcast use lemma_asked_is_steady;

    let longer = replies + more;
    if left > 0 && at < longer.len() {
        if let Reply::Output(output) = longer[at as int] {
            if let Run::On(head, next) = head_or_empty(longer, at + 2) {
                if let Run::On(_, end) = staged(longer, next) {
                    let said = with_stderr(details, "continue stderr: "@, output.stderr@);
                    lemma_continue_from_is_steady(
                        strategy,
                        (left - 1) as nat,
                        head,
                        said,
                        replies,
                        more,
                        end,
                    );
                }
            }
        }
    }
}

/// Files that were written are not changed by further replies.
pub broadcast proof fn lemma_written_from_is_steady(
    tree: Tree,
    files: Seq<ResolvedFile>,
    next: nat,
    replies: Seq<Reply>,
    more: Seq<Reply>,
    at: nat,
)
    ensures
        steady(
            at,
            replies.len(),
            written_from(tree, files, next, replies, at),
            #[trigger] written_from(tree, files, next, replies + more, at),
        ),
    decreases files.len() - next,
{
    broadcast use lemma_asked_is_steady;

    if next < files.len() {
        lemma_written_from_is_steady(tree, files, next + 1, replies, more, at + 2);
    }
}

/// What `advance` comes to rests on the replies that it has read alone.
pub broadcast proof fn lemma_advance_is_steady(
    strategy: SyncStrategy,
    round: nat,
    rounds_done: nat,
    snapshot: ConflictSnapshot,
    details: Seq<Seq<char>>,
    replies: Seq<Reply>,
    more: Seq<Reply>,
    at: nat,
)
    ensures
        steady(
            at,
            replies.len(),
            advance(strategy, round, rounds_done, snapshot, details, replies, at),
            #[trigger] advance(strategy, round, rounds_done, snapshot, details, replies + more, at),
        ),
{
    broadcast use lemma_asked_is_steady;
}

/// What `solved` comes to rests on the replies that it has read alone.
#[verifier::rlimit(40)]
pub broadcast proof fn lemma_solved_is_steady(
    llm: Option<LlmConfig>,
    branch: BranchConfig,
    base: Seq<char>,
    round: nat,
    snapshot: ConflictSnapshot,
    details: Seq<Seq<char>>,
    replies: Seq<Reply>,
    more: Seq<Reply>,
    at: nat,
)
    ensures
        steady(
            at,
            replies.len(),
            solved(llm, branch, base, round, snapshot, details, replies, at),
            #[trigger] solved(llm, branch, base, round, snapshot, details, replies + more, at),
        ),
{
    broadcast use {lemma_asked_is_steady, lemma_decided_is_steady};
}

/// What `round_on` comes to rests on the replies that it has read alone.
#[verifier::rlimit(40)]
pub broadcast proof fn lemma_round_on_is_steady(
    llm: Option<LlmConfig>,
    branch: BranchConfig,
    base: Seq<char>,
    round: nat,
    snapshot: ConflictSnapshot,
    details: Seq<Seq<char>>,
    replies: Seq<Reply>,
    more: Seq<Reply>,
    at: nat,
)
    ensures
        steady(
            at,
            replies.len(),
            round_on(llm, branch, base, round, snapshot, details, replies, at),
            #[trigger] round_on(llm, branch, base, round, snapshot, details, replies + more, at),
        ),
{
    broadcast use {lemma_written_from_is_steady, lemma_advance_is_steady, lemma_solved_is_steady};
}

/// What `round_run` comes to rests on the replies that it has read alone.
#[verifier::rlimit(40)]
pub broadcast proof fn lemma_round_run_is_steady(
    llm: Option<LlmConfig>,
    branch: BranchConfig,
    base: Seq<char>,
    round: nat,
    snapshot: ConflictSnapshot,
    details: Seq<Seq<char>>,
    replies: Seq<Reply>,
    more: Seq<Reply>,
    at: nat,
)
    ensures
        steady(
            at,
            replies.len(),
            round_run(llm, branch, base, round, snapshot, details, replies, at),
            #[trigger] round_run(llm, branch, base, round, snapshot, details, replies + more, at),
        ),
{
    broadcast use {lemma_advance_is_steady, lemma_round_on_is_steady};

    reveal(round_run);
}

/// What `rounds_from` comes to rests on the replies that it has read alone.
pub broadcast proof fn lemma_rounds_from_is_steady(
    llm: Option<LlmConfig>,
    branch: BranchConfig,
    base: Seq<char>,
    round: nat,
    snapshot: ConflictSnapshot,
    details: Seq<Seq<char>>,
    replies: Seq<Reply>,
    more: Seq<Reply>,
    at: nat,
)
    ensures
        steady(
            at,
            replies.len(),
            rounds_from(llm, branch, base, round, snapshot, details, replies, at),
            #[trigger] rounds_from(llm, branch, base, round, snapshot, details, replies + more, at),
        ),
    decreases rounds_of(branch.auto_resolve) + 1 - round,
{
    broadcast use lemma_round_run_is_steady;

    let longer = replies + more;
    if round <= rounds_of(branch.auto_resolve) {
        if let Run::On(RoundView::Going(left, said), end) = round_run(
            llm,
            branch,
            base,
            round,
            snapshot,
            details,
            longer,
            at,
        ) {
            lemma_rounds_from_is_steady(llm, branch, base, round + 1, left, said, replies, more, end);
        }
    }
}

/// What `screened` comes to rests on the replies that it has read alone.
pub broadcast proof fn lemma_screened_is_steady(
    branch: BranchConfig,
    before_head: Seq<char>,
    details: Seq<Seq<char>>,
    replies: Seq<Reply>,
    more: Seq<Reply>,
    at: nat,
)
    ensures
        steady(
            at,
            replies.len(),
            screened(branch, before_head, details, replies, at),
            #[trigger] screened(branch, before_head, details, replies + more, at),
        ),
{
    broadcast use lemma_asked_is_steady;

    reveal(screened);
}

/// What `tests_from` comes to rests on the replies that it has read alone.
pub broadcast proof fn lemma_tests_from_is_steady(
    sandboxed: bool,
    branch: BranchConfig,
    details: Seq<Seq<char>>,
    next: nat,
    printed: Seq<char>,
    replies: Seq<Reply>,
    more: Seq<Reply>,
    at: nat,
)
    ensures
        steady(
            at,
            replies.len(),
            tests_from(sandboxed, branch, details, next, printed, replies, at),
            #[trigger] tests_from(sandboxed, branch, details, next, printed, replies + more, at),
        ),
    decreases branch.tests@.len() - next,
{
    broadcast use lemma_asked_is_steady;

    let longer = replies + more;
    if next < branch.tests@.len() && at < longer.len() {
        if let Reply::Output(output) = longer[at as int] {
            lemma_tests_from_is_steady(
                sandboxed,
                branch,
                details,
                next + 1,
                printed + test_record(branch.tests@[next as int]@, output),
                replies,
                more,
                at + 1,
            );
        }
    }
}

/// What `tested` comes to rests on the replies that it has read alone.
pub broadcast proof fn lemma_tested_is_steady(
    config: Config,
    branch: BranchConfig,
    batch: Option<CommitSecurityReviewBatch>,
    details: Seq<Seq<char>>,
    replies: Seq<Reply>,
    more: Seq<Reply>,
    at: nat,
)
    ensures
        steady(
            at,
            replies.len(),
            tested(config, branch, batch, details, replies, at),
            #[trigger] tested(config, branch, batch, details, replies + more, at),
        ),
{
    broadcast use {lemma_asked_is_steady, lemma_tests_from_is_steady};

    reveal(tested);
}

/// What `continuation` comes to rests on the replies that it has read alone.
pub broadcast proof fn lemma_continuation_is_steady(
    strategy: SyncStrategy,
    first_stderr: Seq<char>,
    replies: Seq<Reply>,
    more: Seq<Reply>,
    at: nat,
)
    ensures
        steady(
            at,
            replies.len(),
            continuation(strategy, first_stderr, replies, at),
            #[trigger] continuation(strategy, first_stderr, replies + more, at),
        ),
{
    broadcast use {lemma_asked_is_steady, lemma_continue_from_is_steady};
}

/// What `started` comes to rests on the replies that it has read alone.
pub broadcast proof fn lemma_started_is_steady(
    config: Config,
    branch: BranchConfig,
    replies: Seq<Reply>,
    more: Seq<Reply>,
    at: nat,
)
    ensures
        steady(
            at,
            replies.len(),
            started(config, branch, replies, at),
            #[trigger] started(config, branch, replies + more, at),
        ),
{
    broadcast use lemma_asked_is_steady;

    reveal(started);
}

/// What `attempt` comes to rests on the replies that it has read alone.
pub broadcast proof fn lemma_attempt_is_steady(
    llm: Option<LlmConfig>,
    branch: BranchConfig,
    base: Seq<char>,
    snapshot: ConflictSnapshot,
    replies: Seq<Reply>,
    more: Seq<Reply>,
    at: nat,
)
    ensures
        steady(
            at,
            replies.len(),
            attempt(llm, branch, base, snapshot, replies, at),
            #[trigger] attempt(llm, branch, base, snapshot, replies + more, at),
        ),
{
    broadcast use lemma_rounds_from_is_steady;
}

/// What `conflict_reported` comes to rests on the replies that it has read alone.
pub broadcast proof fn lemma_conflict_reported_is_steady(
    config: Config,
    branch: BranchConfig,
    start: StartView,
    status: i32,
    snapshot: ConflictSnapshot,
    details: Seq<Seq<char>>,
    replies: Seq<Reply>,
    more: Seq<Reply>,
    at: nat,
)
    ensures
        steady(
            at,
            replies.len(),
            conflict_reported(config, branch, start, status, snapshot, details, replies, at),
            #[trigger] conflict_reported(
                config,
                branch,
                start,
                status,
                snapshot,
                details,
                replies + more,
                at,
            ),
        ),
{
    broadcast use {lemma_asked_is_steady, lemma_chat_from_is_steady};
}

/// What `abandoned` comes to rests on the replies that it has read alone.
pub broadcast proof fn lemma_abandoned_is_steady(
    config: Config,
    branch: BranchConfig,
    start: StartView,
    status: i32,
    snapshot: ConflictSnapshot,
    details: Seq<Seq<char>>,
    replies: Seq<Reply>,
    more: Seq<Reply>,
    at: nat,
)
    ensures
        steady(
            at,
            replies.len(),
            abandoned(config, branch, start, status, snapshot, details, replies, at),
            #[trigger] abandoned(
                config,
                branch,
                start,
                status,
                snapshot,
                details,
                replies + more,
                at,
            ),
        ),
{
    broadcast use {lemma_asked_is_steady, lemma_conflict_reported_is_steady};
}

/// What `resolved_from` comes to rests on the replies that it has read alone.
pub broadcast proof fn lemma_resolved_from_is_steady(
    config: Config,
    branch: BranchConfig,
    start: StartView,
    status: i32,
    snapshot: ConflictSnapshot,
    details: Seq<Seq<char>>,
    replies: Seq<Reply>,
    more: Seq<Reply>,
    at: nat,
)
    ensures
        steady(
            at,
            replies.len(),
            resolved_from(config, branch, start, status, snapshot, details, replies, at),
            #[trigger] resolved_from(
                config,
                branch,
                start,
                status,
                snapshot,
                details,
                replies + more,
                at,
            ),
        ),
{
    broadcast use {lemma_attempt_is_steady, lemma_abandoned_is_steady};
}

/// What `settled` comes to rests on the replies that it has read alone.
#[verifier::rlimit(40)]
pub broadcast proof fn lemma_settled_is_steady(
    config: Config,
    branch: BranchConfig,
    start: StartView,
    output: CommandOutput,
    replies: Seq<Reply>,
    more: Seq<Reply>,
    at: nat,
)
    ensures
        steady(
            at,
            replies.len(),
            settled(config, branch, start, output, replies, at),
            #[trigger] settled(config, branch, start, output, replies + more, at),
        ),
{
    broadcast use {
        lemma_asked_is_steady,
        lemma_continuation_is_steady,
        lemma_abandoned_is_steady,
        lemma_resolved_from_is_steady,
    };

    reveal(settled);
}

/// What `surveyed` comes to rests on the replies that it has read alone.
pub broadcast proof fn lemma_surveyed_is_steady(
    repo: RepoConfig,
    branch: BranchConfig,
    has_remote: bool,
    replies: Seq<Reply>,
    more: Seq<Reply>,
    at: nat,
)
    ensures
        steady(
            at,
            replies.len(),
            surveyed(repo, branch, has_remote, replies, at),
            #[trigger] surveyed(repo, branch, has_remote, replies + more, at),
        ),
{
    broadcast use lemma_asked_is_steady;

    reveal(surveyed);
}

/// What `pushed` comes to rests on the replies that it has read alone.
pub broadcast proof fn lemma_pushed_is_steady(
    repo: RepoConfig,
    branch: BranchConfig,
    expected: Option<Seq<char>>,
    replies: Seq<Reply>,
    more: Seq<Reply>,
    at: nat,
)
    ensures
        steady(
            at,
            replies.len(),
            pushed(repo, branch, expected, replies, at),
            #[trigger] pushed(repo, branch, expected, replies + more, at),
        ),
{
    broadcast use lemma_asked_is_steady;

    reveal(pushed);
}

/// What `tagged` comes to rests on the replies that it has read alone.
pub broadcast proof fn lemma_tagged_is_steady(
    repo: RepoConfig,
    branch: BranchConfig,
    after_head: Seq<char>,
    replies: Seq<Reply>,
    more: Seq<Reply>,
    at: nat,
)
    ensures
        steady(
            at,
            replies.len(),
            tagged(repo, branch, after_head, replies, at),
            #[trigger] tagged(repo, branch, after_head, replies + more, at),
        ),
{
    broadcast use lemma_asked_is_steady;

    reveal(tagged);
}

/// What `branch_once` comes to rests on the replies that it has read alone.
#[verifier::rlimit(40)]
pub broadcast proof fn lemma_branch_once_is_steady(
    config: Config,
    branch: BranchConfig,
    replies: Seq<Reply>,
    more: Seq<Reply>,
    at: nat,
)
    ensures
        steady(
            at,
            replies.len(),
            branch_once(config, branch, replies, at),
            #[trigger] branch_once(config, branch, replies + more, at),
        ),
{
    broadcast use {
        lemma_asked_is_steady,
        lemma_screened_is_steady,
        lemma_tested_is_steady,
        lemma_started_is_steady,
        lemma_settled_is_steady,
        lemma_surveyed_is_steady,
        lemma_pushed_is_steady,
        lemma_tagged_is_steady,
    };
}

/// What `branch_with_retries` comes to rests on the replies that it has read alone.
#[verifier::rlimit(40)]
pub broadcast proof fn lemma_branch_with_retries_is_steady(
    config: Config,
    branch: BranchConfig,
    retries: nat,
    replies: Seq<Reply>,
    more: Seq<Reply>,
    at: nat,
)
    ensures
        steady(
            at,
            replies.len(),
            branch_with_retries(config, branch, retries, replies, at),
            #[trigger] branch_with_retries(config, branch, retries, replies + more, at),
        ),
    decreases retries,
{
    broadcast use {lemma_asked_is_steady, lemma_branch_once_is_steady};

    let longer = replies + more;
    if retries > 0 {
        if let Run::On(_, next) = branch_once(config, branch, longer, at) {
            if let Run::On(_, end) = aborted(longer, next) {
                lemma_branch_with_retries_is_steady(
                    config,
                    branch,
                    (retries - 1) as nat,
                    replies,
                    more,
                    end,
                );
            }
        }
    }
}

/// What `branch_done` comes to rests on the replies that it has read alone.
pub broadcast proof fn lemma_branch_done_is_steady(
    config: Config,
    task: Task,
    branch: BranchConfig,
    replies: Seq<Reply>,
    more: Seq<Reply>,
    at: nat,
)
    ensures
        steady(
            at,
            replies.len(),
            branch_done(config, task, branch, replies, at),
            #[trigger] branch_done(config, task, branch, replies + more, at),
        ),
{
    broadcast use {lemma_asked_is_steady, lemma_branch_with_retries_is_steady};

    reveal(branch_done);
}

/// What `branches_done` comes to rests on the replies that it has read alone.
pub broadcast proof fn lemma_branches_done_is_steady(
    config: Config,
    options: SyncOptions,
    task: Task,
    next: nat,
    entries: Seq<ReportView>,
    replies: Seq<Reply>,
    more: Seq<Reply>,
    at: nat,
)
    ensures
        steady(
            at,
            replies.len(),
            branches_done(config, options, task, next, entries, replies, at),
            #[trigger] branches_done(config, options, task, next, entries, replies + more, at),
        ),
    decreases config.branches@.len() - next,
{
    broadcast use lemma_branch_done_is_steady;

    let longer = replies + more;
    if next < config.branches@.len() {
        let branch = config.branches@[next as int];
        if !is_selected(options, branch) {
            lemma_branches_done_is_steady(
                config,
                options,
                task,
                next + 1,
                entries,
                replies,
                more,
                at,
            );
        } else if let Run::On(entry, end) = branch_done(config, task, branch, longer, at) {
            lemma_branches_done_is_steady(
                config,
                options,
                task,
                next + 1,
                entries.push(entry),
                replies,
                more,
                end,
            );
        }
    }
}

/// What `noticed_from` comes to rests on the replies that it has read alone.
pub broadcast proof fn lemma_noticed_from_is_steady(
    entries: Seq<ReportView>,
    next: nat,
    replies: Seq<Reply>,
    more: Seq<Reply>,
    at: nat,
)
    ensures
        steady(
            at,
            replies.len(),
            noticed_from(entries, next, replies, at),
            #[trigger] noticed_from(entries, next, replies + more, at),
        ),
    decreases entries.len() - next,
{
    broadcast use lemma_asked_is_steady;

    let longer = replies + more;
    if next < entries.len() {
        if let Run::On(_, end) = noticed(entries[next as int], longer, at) {
            lemma_noticed_from_is_steady(entries, next + 1, replies, more, end);
        }
    }
}

/// Looking at the branches is started anew with each reply; once it has come to an end, further
/// replies change nothing, and before that it asks.
pub broadcast proof fn lemma_status_run_is_steady(
    config: Config,
    options: SyncOptions,
    replies: Seq<Reply>,
    more: Seq<Reply>,
    at: nat,
)
    ensures
        steady(
            at,
            replies.len(),
            status_run(config, options, replies, at),
            #[trigger] status_run(config, options, replies + more, at),
        ),
{
    broadcast use {lemma_asked_is_steady, lemma_branches_done_is_steady};
}

/// A sync is started anew with each reply. Once it has come to an end, further replies change
/// nothing, and with fewer replies than it needs it asks for the next one.
pub broadcast proof fn lemma_sync_run_is_steady(
    config: Config,
    options: SyncOptions,
    replies: Seq<Reply>,
    more: Seq<Reply>,
    at: nat,
)
    ensures
        steady(
            at,
            replies.len(),
            sync_run(config, options, replies, at),
            #[trigger] sync_run(config, options, replies + more, at),
        ),
{
    broadcast use {
        lemma_asked_is_steady,
        lemma_chat_from_is_steady,
        lemma_branches_done_is_steady,
        lemma_noticed_from_is_steady,
    };
}

} // verus!
