//! Jobs that are started anew.

use vstd::prelude::*;

use crate::config::{BranchConfig, Config};
use crate::journal::{Reply, Run};
use crate::replay::{
    lemma_asked_is_steady, lemma_chat_from_is_steady, lemma_decided_is_steady, steady,
};
use crate::replay::sync::lemma_written_from_is_steady;
use crate::repo::{CapturedConflict, CommandOutput, ConflictFileContent, ConflictSnapshot};
use crate::service::jobs::{
    check_job, conflict_handled, handed_over, heads_saved, stop_handled, sync_failure_handled,
    sync_job, sync_job_run, worktree_added,
};
use crate::service::jobs::finish::finished;
use crate::service::jobs::low_risk::{low_risk, low_risk_round, low_risk_rounds, RoundView};
use crate::service::jobs::report::collected;
use crate::service::types::JobView;

verus! {

/// What `low_risk_round` comes to rests on the replies that it has read alone.
pub broadcast proof fn lemma_low_risk_round_is_steady(
    config: Config,
    branch: BranchConfig,
    snapshot: ConflictSnapshot,
    files: Vec<ConflictFileContent>,
    replies: Seq<Reply>,
    more: Seq<Reply>,
    at: nat,
)
    ensures
        steady(
            at,
            replies.len(),
            low_risk_round(config, branch, snapshot, files, replies, at),
            #[trigger] low_risk_round(config, branch, snapshot, files, replies + more, at),
        ),
{
    broadcast use {lemma_asked_is_steady, lemma_decided_is_steady, lemma_written_from_is_steady};

    reveal(low_risk_round);
}

/// What `low_risk_rounds` comes to rests on the replies that it has read alone.
pub broadcast proof fn lemma_low_risk_rounds_is_steady(
    config: Config,
    branch: BranchConfig,
    left: nat,
    snapshot: ConflictSnapshot,
    files: Vec<ConflictFileContent>,
    replies: Seq<Reply>,
    more: Seq<Reply>,
    at: nat,
)
    ensures
        steady(
            at,
            replies.len(),
            low_risk_rounds(config, branch, left, snapshot, files, replies, at),
            #[trigger] low_risk_rounds(config, branch, left, snapshot, files, replies + more, at),
        ),
    decreases left,
{
    broadcast use lemma_low_risk_round_is_steady;

    let longer = replies + more;
    if left > 0 {
        if let Run::On(RoundView::Going(captured), end) = low_risk_round(
            config,
            branch,
            snapshot,
            files,
            longer,
            at,
        ) {
            lemma_low_risk_rounds_is_steady(
                config,
                branch,
                (left - 1) as nat,
                captured.snapshot,
                captured.files,
                replies,
                more,
                end,
            );
        }
    }
}

/// What `low_risk` comes to rests on the replies that it has read alone.
pub broadcast proof fn lemma_low_risk_is_steady(
    config: Config,
    branch: BranchConfig,
    captured: CapturedConflict,
    replies: Seq<Reply>,
    more: Seq<Reply>,
    at: nat,
)
    ensures
        steady(
            at,
            replies.len(),
            low_risk(config, branch, captured, replies, at),
            #[trigger] low_risk(config, branch, captured, replies + more, at),
        ),
{
    broadcast use lemma_low_risk_rounds_is_steady;
}

/// What `collected` comes to rests on the replies that it has read alone.
pub broadcast proof fn lemma_collected_is_steady(
    job: JobView,
    after_head: Seq<char>,
    replies: Seq<Reply>,
    more: Seq<Reply>,
    at: nat,
)
    ensures
        steady(
            at,
            replies.len(),
            collected(job, after_head, replies, at),
            #[trigger] collected(job, after_head, replies + more, at),
        ),
{
    broadcast use lemma_asked_is_steady;

    reveal(collected);
}

/// What `finished` comes to rests on the replies that it has read alone.
#[verifier::rlimit(40)]
pub broadcast proof fn lemma_finished_is_steady(
    config: Config,
    branch: BranchConfig,
    notify_on_noop: bool,
    replies: Seq<Reply>,
    more: Seq<Reply>,
    at: nat,
)
    ensures
        steady(
            at,
            replies.len(),
            finished(config, branch, notify_on_noop, replies, at),
            #[trigger] finished(config, branch, notify_on_noop, replies + more, at),
        ),
{
    broadcast use {lemma_asked_is_steady, lemma_chat_from_is_steady, lemma_collected_is_steady};

    reveal(finished);
}

/// What `worktree_added` comes to rests on the replies that it has read alone.
pub broadcast proof fn lemma_worktree_added_is_steady(
    config: Config,
    branch_name: Seq<char>,
    worktree: Seq<char>,
    replies: Seq<Reply>,
    more: Seq<Reply>,
    at: nat,
)
    ensures
        steady(
            at,
            replies.len(),
            worktree_added(config, branch_name, worktree, replies, at),
            #[trigger] worktree_added(config, branch_name, worktree, replies + more, at),
        ),
{
    broadcast use lemma_asked_is_steady;

    reveal(worktree_added);
}

/// What `heads_saved` comes to rests on the replies that it has read alone.
pub broadcast proof fn lemma_heads_saved_is_steady(
    config: Config,
    branch_name: Seq<char>,
    worktree: Seq<char>,
    replies: Seq<Reply>,
    more: Seq<Reply>,
    at: nat,
)
    ensures
        steady(
            at,
            replies.len(),
            heads_saved(config, branch_name, worktree, replies, at),
            #[trigger] heads_saved(config, branch_name, worktree, replies + more, at),
        ),
{
    broadcast use lemma_asked_is_steady;

    reveal(heads_saved);
}

/// What `handed_over` comes to rests on the replies that it has read alone.
#[verifier::rlimit(40)]
pub broadcast proof fn lemma_handed_over_is_steady(
    config: Config,
    branch: BranchConfig,
    captured: CapturedConflict,
    replies: Seq<Reply>,
    more: Seq<Reply>,
    at: nat,
)
    ensures
        steady(
            at,
            replies.len(),
            handed_over(config, branch, captured, replies, at),
            #[trigger] handed_over(config, branch, captured, replies + more, at),
        ),
{
    broadcast use {lemma_asked_is_steady, lemma_decided_is_steady};

    reveal(handed_over);
}

/// What `conflict_handled` comes to rests on the replies that it has read alone.
#[verifier::rlimit(40)]
pub broadcast proof fn lemma_conflict_handled_is_steady(
    config: Config,
    branch: BranchConfig,
    captured: CapturedConflict,
    notify_on_noop: bool,
    replies: Seq<Reply>,
    more: Seq<Reply>,
    at: nat,
)
    ensures
        steady(
            at,
            replies.len(),
            conflict_handled(config, branch, captured, notify_on_noop, replies, at),
            #[trigger] conflict_handled(
                config,
                branch,
                captured,
                notify_on_noop,
                replies + more,
                at,
            ),
        ),
{
    broadcast use {
        lemma_asked_is_steady,
        lemma_low_risk_is_steady,
        lemma_finished_is_steady,
        lemma_handed_over_is_steady,
    };

    reveal(conflict_handled);
}

/// What `stop_handled` comes to rests on the replies that it has read alone.
#[verifier::rlimit(40)]
pub broadcast proof fn lemma_stop_handled_is_steady(
    config: Config,
    branch: BranchConfig,
    output: CommandOutput,
    notify_on_noop: bool,
    replies: Seq<Reply>,
    more: Seq<Reply>,
    at: nat,
)
    ensures
        steady(
            at,
            replies.len(),
            stop_handled(config, branch, output, notify_on_noop, replies, at),
            #[trigger] stop_handled(config, branch, output, notify_on_noop, replies + more, at),
        ),
{
    broadcast use {
        lemma_asked_is_steady,
        lemma_finished_is_steady,
        lemma_conflict_handled_is_steady,
    };

    reveal(stop_handled);
}

/// A check of the repository is started anew with each reply; once it has come to an end, further
/// replies change nothing, and before that it asks.
pub broadcast proof fn lemma_check_job_is_steady(
    replies: Seq<Reply>,
    more: Seq<Reply>,
    at: nat,
)
    ensures
        steady(
            at,
            replies.len(),
            check_job(replies, at),
            #[trigger] check_job(replies + more, at),
        ),
{
    broadcast use lemma_asked_is_steady;
}

/// What `sync_job_run` comes to rests on the replies that it has read alone.
#[verifier::rlimit(40)]
pub broadcast proof fn lemma_sync_job_run_is_steady(
    data_dir: Seq<char>,
    job_id: Seq<char>,
    branch_name: Seq<char>,
    notify_on_noop: bool,
    replies: Seq<Reply>,
    more: Seq<Reply>,
    at: nat,
)
    ensures
        steady(
            at,
            replies.len(),
            sync_job_run(data_dir, job_id, branch_name, notify_on_noop, replies, at),
            #[trigger] sync_job_run(
                data_dir,
                job_id,
                branch_name,
                notify_on_noop,
                replies + more,
                at,
            ),
        ),
{
    broadcast use {
        lemma_asked_is_steady,
        lemma_finished_is_steady,
        lemma_worktree_added_is_steady,
        lemma_heads_saved_is_steady,
        lemma_stop_handled_is_steady,
    };
}

/// What `sync_failure_handled` comes to rests on the replies that it has read alone.
pub broadcast proof fn lemma_sync_failure_handled_is_steady(
    branch_name: Seq<char>,
    details: Seq<char>,
    replies: Seq<Reply>,
    more: Seq<Reply>,
    at: nat,
)
    ensures
        steady(
            at,
            replies.len(),
            sync_failure_handled(branch_name, details, replies, at),
            #[trigger] sync_failure_handled(branch_name, details, replies + more, at),
        ),
{
    broadcast use lemma_asked_is_steady;
}

/// A sync job is started anew with each reply; once it has come to an end, further replies change
/// nothing, and before that it asks.
#[verifier::rlimit(40)]
pub broadcast proof fn lemma_sync_job_is_steady(
    data_dir: Seq<char>,
    job_id: Seq<char>,
    branch_name: Seq<char>,
    notify_on_noop: bool,
    replies: Seq<Reply>,
    more: Seq<Reply>,
    at: nat,
)
    ensures
        steady(
            at,
            replies.len(),
            sync_job(data_dir, job_id, branch_name, notify_on_noop, replies, at),
            #[trigger] sync_job(data_dir, job_id, branch_name, notify_on_noop, replies + more, at),
        ),
{
    broadcast use {lemma_sync_job_run_is_steady, lemma_sync_failure_handled_is_steady};
}

} // verus!
