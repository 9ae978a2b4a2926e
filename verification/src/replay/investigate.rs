//! Investigations that are started anew.

use vstd::prelude::*;

use crate::config::{BranchConfig, Config};
use crate::journal::{Reply, Run};
use crate::llm::types::SignalFacts;
use crate::protection::dependency::graph::CargoReachabilitySnapshot;
use crate::protection::investigate::{
    advanced, alerted, attempted, drafted, investigation_run, judged, project_seen, recorded,
    trial_kept, ReportedView, TrialView,
};
use crate::protection::investigate::candidate::{
    admitted, built, candidate_tests_from, changes_written_from, contract_held, examined,
    failure_kept, prepared,
};
use crate::protection::investigate::files::{
    changes_checked_from, file_read, files_read_from, safe_file,
};
use crate::protection::types::{
    ArtifactView, ChangeView, FindingView, InvestigationView, ReviewView, VerificationView,
};
use crate::replay::{lemma_asked_is_steady, lemma_decided_is_steady, steady};
use crate::sync::checks::test_record;
use crate::text::utf8_len;

verus! {

/// What `files_read_from` comes to rests on the replies that it has read alone.
pub broadcast proof fn lemma_files_read_from_is_steady(
    offered: Seq<Seq<char>>,
    paths: Seq<Seq<char>>,
    next: nat,
    total: nat,
    files: Seq<(Seq<char>, Seq<char>)>,
    replies: Seq<Reply>,
    more: Seq<Reply>,
    at: nat,
)
    ensures
        steady(
            at,
            replies.len(),
            files_read_from(offered, paths, next, total, files, replies, at),
            #[trigger] files_read_from(offered, paths, next, total, files, replies + more, at),
        ),
    decreases paths.len() - next,
{
    broadcast use lemma_asked_is_steady;

    let longer = replies + more;
    if next < paths.len() {
        if let Run::On(read, end) = file_read(offered, paths[next as int], total, longer, at) {
            lemma_files_read_from_is_steady(
                offered,
                paths,
                next + 1,
                read.0,
                files.push((paths[next as int], read.1)),
                replies,
                more,
                end,
            );
        }
    }
}

/// What `changes_checked_from` comes to rests on the replies that it has read alone.
pub broadcast proof fn lemma_changes_checked_from_is_steady(
    offered: Seq<Seq<char>>,
    changes: Seq<ChangeView>,
    next: nat,
    total: nat,
    replies: Seq<Reply>,
    more: Seq<Reply>,
    at: nat,
)
    ensures
        steady(
            at,
            replies.len(),
            changes_checked_from(offered, changes, next, total, replies, at),
            #[trigger] changes_checked_from(offered, changes, next, total, replies + more, at),
        ),
    decreases changes.len() - next,
{
    broadcast use lemma_asked_is_steady;

    let longer = replies + more;
    if next < changes.len() {
        let change = changes[next as int];
        if let Run::On(_, end) = safe_file(change.path, longer, at) {
            lemma_changes_checked_from_is_steady(
                offered,
                changes,
                next + 1,
                total + utf8_len(change.content),
                replies,
                more,
                end,
            );
        }
    }
}

/// What `admitted` comes to rests on the replies that it has read alone.
pub broadcast proof fn lemma_admitted_is_steady(
    config: Config,
    offered: Seq<Seq<char>>,
    decision: InvestigationView,
    requested: Option<Seq<char>>,
    replies: Seq<Reply>,
    more: Seq<Reply>,
    at: nat,
)
    ensures
        steady(
            at,
            replies.len(),
            admitted(config, offered, decision, requested, replies, at),
            #[trigger] admitted(config, offered, decision, requested, replies + more, at),
        ),
{
    broadcast use lemma_changes_checked_from_is_steady;

    reveal(admitted);
}

/// What `changes_written_from` comes to rests on the replies that it has read alone.
pub broadcast proof fn lemma_changes_written_from_is_steady(
    changes: Seq<ChangeView>,
    next: nat,
    replies: Seq<Reply>,
    more: Seq<Reply>,
    at: nat,
)
    ensures
        steady(
            at,
            replies.len(),
            changes_written_from(changes, next, replies, at),
            #[trigger] changes_written_from(changes, next, replies + more, at),
        ),
    decreases changes.len() - next,
{
    broadcast use lemma_asked_is_steady;

    if next < changes.len() {
        lemma_changes_written_from_is_steady(changes, next + 1, replies, more, at + 1);
    }
}

/// What `built` comes to rests on the replies that it has read alone.
pub broadcast proof fn lemma_built_is_steady(
    worktree: Seq<char>,
    changes: Seq<ChangeView>,
    replies: Seq<Reply>,
    more: Seq<Reply>,
    at: nat,
)
    ensures
        steady(
            at,
            replies.len(),
            built(worktree, changes, replies, at),
            #[trigger] built(worktree, changes, replies + more, at),
        ),
{
    broadcast use {lemma_asked_is_steady, lemma_changes_written_from_is_steady};

    reveal(built);
}

/// What `candidate_tests_from` comes to rests on the replies that it has read alone.
pub broadcast proof fn lemma_candidate_tests_from_is_steady(
    tests: Seq<Seq<char>>,
    next: nat,
    printed: Seq<char>,
    replies: Seq<Reply>,
    more: Seq<Reply>,
    at: nat,
)
    ensures
        steady(
            at,
            replies.len(),
            candidate_tests_from(tests, next, printed, replies, at),
            #[trigger] candidate_tests_from(tests, next, printed, replies + more, at),
        ),
    decreases tests.len() - next,
{
    broadcast use lemma_asked_is_steady;

    let longer = replies + more;
    if next < tests.len() && at < longer.len() {
        if let Reply::Output(output) = longer[at as int] {
            lemma_candidate_tests_from_is_steady(
                tests,
                next + 1,
                printed + test_record(tests[next as int], output),
                replies,
                more,
                at + 1,
            );
        }
    }
}

/// What `examined` comes to rests on the replies that it has read alone.
pub broadcast proof fn lemma_examined_is_steady(
    branch: BranchConfig,
    base: Seq<char>,
    replies: Seq<Reply>,
    more: Seq<Reply>,
    at: nat,
)
    ensures
        steady(
            at,
            replies.len(),
            examined(branch, base, replies, at),
            #[trigger] examined(branch, base, replies + more, at),
        ),
{
    broadcast use {lemma_asked_is_steady, lemma_candidate_tests_from_is_steady};

    reveal(examined);
}

/// What `contract_held` comes to rests on the replies that it has read alone.
pub broadcast proof fn lemma_contract_held_is_steady(
    config: Config,
    branch: BranchConfig,
    base: Seq<char>,
    review: ReviewView,
    output: Seq<char>,
    replies: Seq<Reply>,
    more: Seq<Reply>,
    at: nat,
)
    ensures
        steady(
            at,
            replies.len(),
            contract_held(config, branch, base, review, output, replies, at),
            #[trigger] contract_held(config, branch, base, review, output, replies + more, at),
        ),
{
    broadcast use lemma_asked_is_steady;

    reveal(contract_held);
}

/// What `project_seen` comes to rests on the replies that it has read alone.
pub broadcast proof fn lemma_project_seen_is_steady(
    replies: Seq<Reply>,
    more: Seq<Reply>,
    at: nat,
)
    ensures
        steady(
            at,
            replies.len(),
            project_seen(replies, at),
            #[trigger] project_seen(replies + more, at),
        ),
{
    broadcast use lemma_asked_is_steady;

    reveal(project_seen);
}

/// What `judged` comes to rests on the replies that it has read alone.
pub broadcast proof fn lemma_judged_is_steady(
    config: Config,
    facts: SignalFacts,
    offered: Seq<Seq<char>>,
    replies: Seq<Reply>,
    more: Seq<Reply>,
    at: nat,
)
    ensures
        steady(
            at,
            replies.len(),
            judged(config, facts, offered, replies, at),
            #[trigger] judged(config, facts, offered, replies + more, at),
        ),
{
    broadcast use {lemma_decided_is_steady, lemma_files_read_from_is_steady};

    reveal(judged);
}

/// What `recorded` comes to rests on the replies that it has read alone.
pub broadcast proof fn lemma_recorded_is_steady(
    config: Config,
    message: ReportedView,
    decision: InvestigationView,
    reachability: Option<CargoReachabilitySnapshot>,
    replies: Seq<Reply>,
    more: Seq<Reply>,
    at: nat,
)
    ensures
        steady(
            at,
            replies.len(),
            recorded(config, message, decision, reachability, replies, at),
            #[trigger] recorded(config, message, decision, reachability, replies + more, at),
        ),
{
    broadcast use lemma_asked_is_steady;

    reveal(recorded);
}

/// What `alerted` comes to rests on the replies that it has read alone.
pub broadcast proof fn lemma_alerted_is_steady(
    config: Config,
    message: ReportedView,
    decision: InvestigationView,
    replies: Seq<Reply>,
    more: Seq<Reply>,
    at: nat,
)
    ensures
        steady(
            at,
            replies.len(),
            alerted(config, message, decision, replies, at),
            #[trigger] alerted(config, message, decision, replies + more, at),
        ),
{
    broadcast use lemma_asked_is_steady;

    reveal(alerted);
}

/// What `prepared` comes to rests on the replies that it has read alone.
#[verifier::rlimit(40)]
pub broadcast proof fn lemma_prepared_is_steady(
    config: Config,
    offered: Seq<Seq<char>>,
    finding_id: Seq<char>,
    decision: InvestigationView,
    requested: Option<Seq<char>>,
    candidate_id: Seq<char>,
    replies: Seq<Reply>,
    more: Seq<Reply>,
    at: nat,
)
    ensures
        steady(
            at,
            replies.len(),
            prepared(config, offered, finding_id, decision, requested, candidate_id, replies, at),
            #[trigger] prepared(
                config,
                offered,
                finding_id,
                decision,
                requested,
                candidate_id,
                replies + more,
                at,
            ),
        ),
{
    broadcast use {
        lemma_asked_is_steady,
        lemma_admitted_is_steady,
        lemma_built_is_steady,
        lemma_examined_is_steady,
        lemma_contract_held_is_steady,
    };
}

/// What `failure_kept` comes to rests on the replies that it has read alone.
pub broadcast proof fn lemma_failure_kept_is_steady(
    config: Config,
    finding_id: Seq<char>,
    summary: Seq<char>,
    candidate_id: Seq<char>,
    error: Seq<char>,
    replies: Seq<Reply>,
    more: Seq<Reply>,
    at: nat,
)
    ensures
        steady(
            at,
            replies.len(),
            failure_kept(config, finding_id, summary, candidate_id, error, replies, at),
            #[trigger] failure_kept(
                config,
                finding_id,
                summary,
                candidate_id,
                error,
                replies + more,
                at,
            ),
        ),
{
    broadcast use lemma_asked_is_steady;
}

/// What `trial_kept` comes to rests on the replies that it has read alone.
pub broadcast proof fn lemma_trial_kept_is_steady(
    artifacts: (ArtifactView, VerificationView),
    error: Option<Seq<char>>,
    replies: Seq<Reply>,
    more: Seq<Reply>,
    at: nat,
)
    ensures
        steady(
            at,
            replies.len(),
            trial_kept(artifacts, error, replies, at),
            #[trigger] trial_kept(artifacts, error, replies + more, at),
        ),
{
    broadcast use lemma_asked_is_steady;
}

/// What `attempted` comes to rests on the replies that it has read alone.
#[verifier::rlimit(40)]
pub broadcast proof fn lemma_attempted_is_steady(
    config: Config,
    offered: Seq<Seq<char>>,
    finding_id: Seq<char>,
    decision: InvestigationView,
    requested: Option<Seq<char>>,
    replies: Seq<Reply>,
    more: Seq<Reply>,
    at: nat,
)
    ensures
        steady(
            at,
            replies.len(),
            attempted(config, offered, finding_id, decision, requested, replies, at),
            #[trigger] attempted(
                config,
                offered,
                finding_id,
                decision,
                requested,
                replies + more,
                at,
            ),
        ),
{
    broadcast use {
        lemma_asked_is_steady,
        lemma_prepared_is_steady,
        lemma_failure_kept_is_steady,
        lemma_trial_kept_is_steady,
    };

    reveal(attempted);
}

/// What `advanced` comes to rests on the replies that it has read alone.
pub broadcast proof fn lemma_advanced_is_steady(
    finding: FindingView,
    verification: Option<VerificationView>,
    replies: Seq<Reply>,
    more: Seq<Reply>,
    at: nat,
)
    ensures
        steady(
            at,
            replies.len(),
            advanced(finding, verification, replies, at),
            #[trigger] advanced(finding, verification, replies + more, at),
        ),
{
    broadcast use lemma_asked_is_steady;

    reveal(advanced);
}

/// What `drafted` comes to rests on the replies that it has read alone.
pub broadcast proof fn lemma_drafted_is_steady(
    config: Config,
    finding: FindingView,
    trial: TrialView,
    replies: Seq<Reply>,
    more: Seq<Reply>,
    at: nat,
)
    ensures
        steady(
            at,
            replies.len(),
            drafted(config, finding, trial, replies, at),
            #[trigger] drafted(config, finding, trial, replies + more, at),
        ),
{
    broadcast use lemma_asked_is_steady;

    reveal(drafted);
}

/// An investigation is started anew with each reply; once it has come to an end, further replies
/// change nothing, and before that it asks.
#[verifier::rlimit(40)]
pub broadcast proof fn lemma_investigation_run_is_steady(
    config: Config,
    message: ReportedView,
    requested: Option<Seq<char>>,
    found: Result<Option<CargoReachabilitySnapshot>, Seq<Seq<char>>>,
    replies: Seq<Reply>,
    more: Seq<Reply>,
)
    ensures
        steady(
            0,
            replies.len(),
            investigation_run(config, message, requested, found, replies),
            #[trigger] investigation_run(config, message, requested, found, replies + more),
        ),
{
    broadcast use {
        lemma_project_seen_is_steady,
        lemma_judged_is_steady,
        lemma_recorded_is_steady,
        lemma_alerted_is_steady,
        lemma_attempted_is_steady,
        lemma_advanced_is_steady,
        lemma_drafted_is_steady,
    };
}

} // verus!
