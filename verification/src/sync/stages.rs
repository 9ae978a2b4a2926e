//! What each stage of bringing a branch in step comes to, from the replies that it was given.

use vstd::prelude::*;

use crate::calls::git::GitView;
use crate::calls::notify::NotifyView;
use crate::calls::protect::ProtectionView;
use crate::calls::{RequestView, Tree};
use crate::config::{BranchConfig, Config, LlmConfig, PushStrategy, RepoConfig, SyncStrategy};
use crate::fault::fault_text;
use crate::journal::{asked, Reply, Run};
use crate::llm::summary;
use crate::protection::types::CommitSecurityReviewBatch;
use crate::repo::{CommandOutput, ConflictSnapshot};
use crate::report::{BranchStatus, ReportView};
use crate::sync::auto_resolve::{
    attempt, continuation, continue_from, head_or_empty, round_run, rounds_from, rounds_of, staged,
    with_stderr, ContinueView, RoundView,
};
use crate::sync::checks::{contracts_verified, lacks_tests, screened, tested};
use crate::sync::conflict::{settled, started, StartView};
use crate::sync::laws::is_success;
use crate::sync::notify::summed_up;
use crate::sync::publish::{pushed, surveyed, tagged};
use crate::sync::report::{on_one_line, short};
use crate::sync::stage::{BranchView, StageView};
use crate::sync::steps::{fork_name, upstream_name};
use crate::sync::{branch_done, branch_once, branch_with_retries, Task};
use crate::text::number::signed_decimal;
use crate::text::{text_option, texts};

verus! {

/// A branch is started in this order: fetched from its place in the fork, where that is, checked out,
/// where the branch is and where the base is, and what the upstream has since they parted. What is
/// known then is just what was given.
#[verifier::rlimit(30)]
pub proof fn lemma_start_is_what_was_found(
    config: Config,
    branch: BranchConfig,
    replies: Seq<Reply>,
    at: nat,
)
    ensures
        match started(config, branch, replies, at) {
            Run::Ask(request) => {
                &&& replies.len() <= at ==> request == RequestView::Git(
                    Tree::Main,
                    GitView::FetchBranch {
                        remote: config.repo.fork_remote@,
                        branch: branch.name@,
                    },
                )
                &&& replies.len() == at + 1 ==> request == RequestView::Git(
                    Tree::Main,
                    GitView::RemoteHead {
                        remote: config.repo.fork_remote@,
                        branch: branch.name@,
                    },
                )
                &&& replies.len() == at + 2 ==> (replies[at as int + 1] matches Reply::Maybe(found)
                    && request == RequestView::Git(
                    Tree::Main,
                    if found is Some && branch.push != PushStrategy::Skip {
                        GitView::CheckoutAt {
                            branch: branch.name@,
                            start: fork_name(config.repo, branch),
                        }
                    } else {
                        GitView::Checkout { branch: branch.name@ }
                    },
                ))
                &&& replies.len() == at + 3 ==> request == RequestView::Git(
                    Tree::Main,
                    GitView::Head,
                )
                &&& replies.len() == at + 4 ==> request == RequestView::Git(
                    Tree::Main,
                    GitView::ShortRef { name: upstream_name(config.repo) },
                )
                &&& replies.len() == at + 5 ==> request == RequestView::Git(
                    Tree::Main,
                    GitView::MergeBase { left: "HEAD"@, right: upstream_name(config.repo) },
                )
                &&& replies.len() >= at + 6 ==> ({
                    ||| (replies.len() == at + 6 && (
                    replies[at as int + 5] matches Reply::Maybe(Some(parted)) && request
                        == RequestView::Git(
                        Tree::Main,
                        GitView::Log {
                            range: parted@ + ".."@ + upstream_name(config.repo),
                            limit: 12,
                        },
                    )))
                    ||| config.notify.sync_start && request == RequestView::Notify(
                        NotifyView::SyncStart {
                            branch: branch.name@,
                            base: upstream_name(config.repo),
                            strategy: branch.sync,
                        },
                    )
                })
            },
            Run::On(start, end) => {
                &&& at + 6 <= replies.len()
                &&& replies[at as int + 1] matches Reply::Maybe(found) && start.remote_before
                    == text_option(found)
                &&& replies[at as int + 3] matches Reply::Text(head) && start.before_head == head@
                &&& replies[at as int + 4] matches Reply::Text(head) && start.base_head == head@
                &&& match replies[at as int + 5] {
                    Reply::Maybe(None) => start.upstream.len() == 0,
                    Reply::Maybe(Some(_)) => at + 7 <= replies.len() && (
                    replies[at as int + 6] matches Reply::List(list) && start.upstream == texts(
                        list@,
                    )),
                    _ => false,
                }
            },
            Run::Fail(_, _) => replies.len() > at,
        },
{
    reveal(started);
}

/// Whether there is something staged is what a command says by how it ends: with zero there is
/// nothing, with one there is something, and with anything else that is not known.
pub proof fn lemma_staged_is_told_by_status(replies: Seq<Reply>, at: nat)
    ensures
        replies.len() <= at ==> staged(replies, at) == Run::Ask::<bool>(
            RequestView::Git(
                Tree::Main,
                GitView::Run { args: seq!["diff"@, "--cached"@, "--quiet"@] },
            ),
        ),
        replies.len() > at ==> (replies[at as int] matches Reply::Output(output) ==> {
            &&& output.status == 0 ==> staged(replies, at) == Run::On(false, at + 1)
            &&& output.status == 1 ==> staged(replies, at) == Run::On(true, at + 1)
            &&& output.status != 0 && output.status != 1 ==> staged(replies, at) is Fail
        }),
{
}

/// Whether a request is one that a sync is continued by.
pub open spec fn is_continue_step(strategy: SyncStrategy, request: RequestView) -> bool {
    ||| request == RequestView::Git(Tree::Main, GitView::Continue { strategy })
    ||| request == RequestView::Git(Tree::Main, GitView::Snapshot { limit: 81920 })
    ||| request == RequestView::Git(Tree::Main, GitView::Head)
    ||| request == RequestView::Git(
        Tree::Main,
        GitView::Run { args: seq!["diff"@, "--cached"@, "--quiet"@] },
    )
}

/// A sync that is continued without help comes through only where the last reply says so; otherwise it
/// stops with the conflicts that were given last, and with no conflicts only where it got nowhere. It
/// is continued no more often than there are tries left, four replies to each.
pub proof fn lemma_continuing_ends_as_told(
    strategy: SyncStrategy,
    left: nat,
    last_head: Seq<char>,
    details: Seq<Seq<char>>,
    replies: Seq<Reply>,
    at: nat,
)
    ensures
        match continue_from(strategy, left, last_head, details, replies, at) {
            Run::Ask(request) => is_continue_step(strategy, request) && (replies.len() > at
                ==> replies.len() <= at + 4 * left),
            Run::On(ContinueView::Applied(_), end) => at < end <= replies.len() && end <= at + 4
                * left && is_success(replies[end - 1]),
            Run::On(ContinueView::Stopped(snapshot, _), end) => {
                &&& at < end <= replies.len()
                &&& end <= at + 4 * left + 1
                &&& exists|k: int|
                    at <= k < end && #[trigger] replies[k] == Reply::Snapshot(snapshot)
                &&& snapshot.files@.len() > 0 ==> replies[end - 1] == Reply::Snapshot(snapshot)
            },
            Run::Fail(_, end) => at < end,
        },
    decreases left,
{
    if left > 0 && at + 1 < replies.len() {
        if let Reply::Output(output) = replies[at as int] {
            if let Reply::Snapshot(snapshot) = replies[at as int + 1] {
                let more = with_stderr(
                    details,
                    "continue stderr: "@,
                    output.stderr@,
                );
                if let Run::On(head, a) = head_or_empty(replies, at + 2) {
                    lemma_continuing_ends_as_told(
                        strategy,
                        (left - 1) as nat,
                        head,
                        more,
                        replies,
                        at + 4,
                    );
                }
            }
        }
    } else if left == 0 && at < replies.len() {
        if let Reply::Snapshot(snapshot) = replies[at as int] {
            assert(replies[at as int] == Reply::Snapshot(snapshot));
        }
    }
}

/// A sync is continued without help only where something is staged, and no more than twenty times.
pub proof fn lemma_continuation_needs_something_staged(
    strategy: SyncStrategy,
    first_stderr: Seq<char>,
    replies: Seq<Reply>,
    at: nat,
)
    ensures
        match continuation(strategy, first_stderr, replies, at) {
            Run::Ask(request) => is_continue_step(strategy, request) && (replies.len() > at
                ==> replies.len() <= at + 82),
            Run::On(None, end) => end == at + 1 && (replies[at as int] matches Reply::Output(output)
                && output.status == 0),
            Run::On(Some(ContinueView::Applied(_)), end) => at + 2 < end <= replies.len() && (
            replies[at as int] matches Reply::Output(output) && output.status == 1) && is_success(
                replies[end - 1],
            ),
            Run::On(Some(ContinueView::Stopped(snapshot, _)), end) => at + 2 < end <= replies.len()
                && exists|k: int|
                at + 2 <= k < end && #[trigger] replies[k] == Reply::Snapshot(snapshot),
            Run::Fail(_, end) => at < end,
        },
{
    if let Run::On(true, a) = staged(replies, at) {
        if let Run::On(head, b) = head_or_empty(replies, a) {
            lemma_continuing_ends_as_told(
                strategy,
                20,
                head,
                seq![
                    "rerere/autostaged resolution detected: continuing sync"@,
                    "initial continue stderr: "@ + on_one_line(first_stderr),
                ],
                replies,
                b,
            );
        }
    }
}

proof fn lemma_round_ends_as_told(
    llm: Option<LlmConfig>,
    branch: BranchConfig,
    base: Seq<char>,
    round: nat,
    snapshot: ConflictSnapshot,
    details: Seq<Seq<char>>,
    replies: Seq<Reply>,
    at: nat,
)
    ensures
        round_run(llm, branch, base, round, snapshot, details, replies, at) matches Run::On(
            RoundView::Over(outcome),
            end,
        ) ==> (outcome.applied ==> 0 < end <= replies.len() && is_success(replies[end - 1])),
{
    reveal(round_run);
}

/// Conflicts count as resolved only where the last reply says that the sync, continued, came through.
/// There is no attempt where they are switched off, and none comes through without allowed paths.
pub proof fn lemma_attempt_ends_as_told(
    llm: Option<LlmConfig>,
    branch: BranchConfig,
    base: Seq<char>,
    snapshot: ConflictSnapshot,
    replies: Seq<Reply>,
    at: nat,
)
    ensures
        !branch.auto_resolve.enabled ==> (attempt(
            llm,
            branch,
            base,
            snapshot,
            replies,
            at,
        ) matches Run::On(None, end) && end == at),
        branch.auto_resolve.enabled ==> !(attempt(llm, branch, base, snapshot, replies, at)
            matches Run::On(None, _)),
        branch.auto_resolve.enabled && branch.auto_resolve.allowed_paths@.len() == 0 ==> (attempt(
            llm,
            branch,
            base,
            snapshot,
            replies,
            at,
        ) matches Run::On(Some(outcome), end) && end == at && !outcome.applied && outcome.snapshot
            == snapshot),
        attempt(llm, branch, base, snapshot, replies, at) matches Run::On(Some(outcome), end) ==> (
        outcome.applied ==> 0 < end <= replies.len() && is_success(replies[end - 1])),
{
    if branch.auto_resolve.enabled && branch.auto_resolve.allowed_paths@.len() > 0 {
        lemma_rounds_end_as_told(
            llm,
            branch,
            base,
            1,
            snapshot,
            seq!["auto resolve: enabled"@],
            replies,
            at,
        );
    }
}

proof fn lemma_rounds_end_as_told(
    llm: Option<LlmConfig>,
    branch: BranchConfig,
    base: Seq<char>,
    round: nat,
    snapshot: ConflictSnapshot,
    details: Seq<Seq<char>>,
    replies: Seq<Reply>,
    at: nat,
)
    ensures
        rounds_from(llm, branch, base, round, snapshot, details, replies, at) matches Run::On(
            outcome,
            end,
        ) ==> (outcome.applied ==> 0 < end <= replies.len() && is_success(replies[end - 1])),
    decreases rounds_of(branch.auto_resolve) + 1 - round,
{
    if round <= rounds_of(branch.auto_resolve) {
        lemma_round_ends_as_told(llm, branch, base, round, snapshot, details, replies, at);
        if let Run::On(RoundView::Going(next, more), end) = round_run(
            llm,
            branch,
            base,
            round,
            snapshot,
            details,
            replies,
            at,
        ) {
            lemma_rounds_end_as_told(llm, branch, base, round + 1, next, more, replies, end);
        }
    }
}

/// A branch goes on only where its sync came through, at once or, as the last reply says, when it was
/// continued. A branch that does not go on is reported as in conflict.
pub proof fn lemma_branch_goes_on_where_its_sync_came_through(
    config: Config,
    branch: BranchConfig,
    start: StartView,
    output: CommandOutput,
    replies: Seq<Reply>,
    at: nat,
)
    ensures
        match settled(config, branch, start, output, replies, at) {
            Run::On(StageView::Go(details), end) => if output.status == 0 {
                end == at && details.len() == 0
            } else {
                0 < end <= replies.len() && is_success(replies[end - 1])
            },
            Run::On(StageView::End(outcome), _) => output.status != 0 && (
            outcome matches BranchView::Report(report) && report.status == BranchStatus::Conflict),
            Run::Ask(request) => output.status != 0 && (replies.len() <= at ==> request
                == RequestView::Git(Tree::Main, GitView::Snapshot { limit: 81920 })),
            Run::Fail(_, _) => output.status != 0,
        },
{
    reveal(settled);
    if let Run::On(snapshot, a) = asked::<ConflictSnapshot>(
        replies,
        at,
        RequestView::Git(Tree::Main, GitView::Snapshot { limit: 81920 }),
    ) {
        let base = upstream_name(config.repo);
        lemma_attempt_ends_as_told(config.llm, branch, base, snapshot, replies, a);
        lemma_continuation_needs_something_staged(branch.sync, output.stderr@, replies, a);
        if let Run::On(Some(ContinueView::Stopped(next, _)), b) = continuation(
            branch.sync,
            output.stderr@,
            replies,
            a,
        ) {
            lemma_attempt_ends_as_told(config.llm, branch, base, next, replies, b);
        }
    }
}

/// A branch is screened in this order: it must have tests of behaviour where it needs them, the
/// protection rules must let it pass, and the commits since it started must be looked over and
/// allowed. Each that fails ends the branch as failed.
pub proof fn lemma_screening_goes_in_order(
    branch: BranchConfig,
    before_head: Seq<char>,
    details: Seq<Seq<char>>,
    replies: Seq<Reply>,
    at: nat,
)
    ensures
        ({
            let run = screened(branch, before_head, details, replies, at);
            let lacking = branch.require_behavioral_tests && !branch.behavioral_tests;
            &&& lacking ==> (run matches Run::On(StageView::End(BranchView::Report(report)), end)
                && end == at && report.status == BranchStatus::Failed)
            &&& !lacking && replies.len() <= at ==> run == Run::Ask::<
                StageView<Option<CommitSecurityReviewBatch>>,
            >(RequestView::Protection(Tree::Main, ProtectionView::Gate))
            &&& !lacking && replies.len() > at ==> (replies[at as int] matches Reply::Failed(fault)
                ==> (run matches Run::On(StageView::End(BranchView::Report(report)), end) && end
                == at + 1 && report.status == BranchStatus::Failed && report.details[0]
                == "project protection gate blocked execution: "@ + fault_text(fault@)
                && report.details.skip(1) == details))
            &&& !lacking && replies.len() == at + 1 && replies[at as int] is Done ==> run
                == Run::Ask::<StageView<Option<CommitSecurityReviewBatch>>>(
                RequestView::Protection(
                    Tree::Main,
                    ProtectionView::Reviews { from: before_head, to: "HEAD"@ },
                ),
            )
            &&& !lacking && replies.len() > at + 1 && replies[at as int] is Done ==> (
            match replies[at as int + 1] {
                Reply::Reviews(None) => run == Run::On(
                    StageView::Go(None::<CommitSecurityReviewBatch>),
                    at + 2,
                ),
                Reply::Failed(fault) => run matches Run::On(
                    StageView::End(BranchView::Report(report)),
                    end,
                ) && end == at + 2 && report.status == BranchStatus::Failed && report.details
                    == seq!["project security review failed closed: "@ + fault_text(fault@)],
                Reply::Reviews(Some(batch)) => {
                    &&& replies.len() == at + 2 ==> run == Run::Ask::<
                        StageView<Option<CommitSecurityReviewBatch>>,
                    >(
                        RequestView::Protection(
                            Tree::Main,
                            ProtectionView::CanProceed { batch },
                        ),
                    )
                    &&& replies.len() > at + 2 && replies[at as int + 2] is Done ==> run == Run::On(
                        StageView::Go(Some(batch)),
                        at + 3,
                    )
                    &&& replies.len() > at + 2 ==> (
                    replies[at as int + 2] matches Reply::Failed(fault) ==> (run matches Run::On(
                        StageView::End(BranchView::Report(report)),
                        end,
                    ) && end == at + 3 && report.status == BranchStatus::Failed
                        && report.details[0] == "project security review blocked execution: "@
                        + fault_text(fault@)))
                },
                _ => true,
            })
        }),
{
    reveal(screened);
    if replies.len() > at {
        if let Reply::Failed(fault) = replies[at as int] {
            let lines = seq![
                "project protection gate blocked execution: "@ + fault_text(fault@),
            ] + details;
            assert(lines.skip(1) =~= details);
        }
    }
}

/// The contracts of commits that were reviewed are verified against what the tests printed, before a
/// branch goes on; one that fails ends the branch as failed.
pub proof fn lemma_contracts_are_verified(
    branch: BranchConfig,
    batch: Option<CommitSecurityReviewBatch>,
    printed: Seq<char>,
    replies: Seq<Reply>,
    at: nat,
)
    ensures
        ({
            let run = contracts_verified(branch, batch, printed, replies, at);
            match batch {
                None => run matches Run::On(StageView::Go(_), end) && end == at,
                Some(found) => {
                    &&& replies.len() <= at ==> run == Run::Ask::<StageView<()>>(
                        RequestView::Protection(
                            Tree::Main,
                            ProtectionView::VerifyContracts {
                                batch: found,
                                tests: texts(branch.tests@),
                                output: printed,
                            },
                        ),
                    )
                    &&& run matches Run::On(StageView::Go(_), end) ==> end == at + 1
                        && replies[at as int] is Contracts
                    &&& run matches Run::On(StageView::End(outcome), end) ==> end == at + 1 && (
                    replies[at as int] is Contracts == false) && (
                    outcome matches BranchView::Report(report) && report.status
                        == BranchStatus::Failed)
                },
            }
        }),
{
}

/// A branch whose conflicts were resolved and that has no tests is failed where the settings ask for
/// tests then, and only there.
pub proof fn lemma_resolved_branch_owes_tests(branch: BranchConfig, details: Seq<Seq<char>>)
    ensures
        lacks_tests(branch, details) <==> !(branch.tests@.len() > 0 || !branch.auto_resolve.enabled
            || !branch.auto_resolve.require_tests || details.len() == 0),
{
}

/// A branch that owes tests does not go on from its tests.
pub proof fn lemma_branch_that_owes_tests_stops(
    config: Config,
    branch: BranchConfig,
    batch: Option<CommitSecurityReviewBatch>,
    details: Seq<Seq<char>>,
    replies: Seq<Reply>,
    at: nat,
)
    requires
        branch.tests@.len() == 0,
        branch.auto_resolve.enabled,
        branch.auto_resolve.require_tests,
        details.len() > 0,
    ensures
        !(tested(config, branch, batch, details, replies, at) matches Run::On(
            StageView::Go(_),
            _,
        )),
{
    reveal(tested);
}

/// What is to be pushed is surveyed in this order: where the branch is now, the commits, and the
/// files; since its place in the fork where it is there, and else all of it, and the files of the last
/// commit. What is known then is just what was given.
pub proof fn lemma_survey_is_what_was_found(
    repo: RepoConfig,
    branch: BranchConfig,
    has_remote: bool,
    replies: Seq<Reply>,
    at: nat,
)
    ensures
        ({
            let since = fork_name(repo, branch) + "..HEAD"@;
            match surveyed(repo, branch, has_remote, replies, at) {
                Run::Ask(request) => {
                    ||| replies.len() <= at && request == RequestView::Git(
                        Tree::Main,
                        GitView::Head,
                    )
                    ||| replies.len() == at + 1 && request == RequestView::Git(
                        Tree::Main,
                        GitView::Log {
                            range: if has_remote {
                                since
                            } else {
                                "HEAD"@
                            },
                            limit: 12,
                        },
                    )
                    ||| (replies.len() == at + 2 && (
                    replies[at as int] matches Reply::Text(head) && request == RequestView::Git(
                        Tree::Main,
                        GitView::ChangedFiles {
                            range: if has_remote {
                                since
                            } else {
                                head@ + "^.."@ + head@
                            },
                            limit: 30,
                        },
                    )))
                },
                Run::On(survey, end) => {
                    &&& end == at + 3 <= replies.len()
                    &&& replies[at as int] matches Reply::Text(head) && survey.after_head == head@
                    &&& replies[at as int + 1] matches Reply::List(list) && survey.commits == texts(
                        list@,
                    )
                    &&& match replies[at as int + 2] {
                        Reply::List(list) => survey.files == texts(list@),
                        _ => !has_remote && survey.files.len() == 0,
                    }
                },
                Run::Fail(_, _) => replies.len() > at,
            }
        }),
{
    reveal(surveyed);
}

/// A branch is pushed in this order: fetched from its place in the fork, where that is now, and then
/// the push, only where that is where it was. A push that fails ends the branch as failed; a place
/// that moved ends it with where it was and where it is.
pub proof fn lemma_push_goes_in_order(
    repo: RepoConfig,
    branch: BranchConfig,
    expected: Option<Seq<char>>,
    replies: Seq<Reply>,
    at: nat,
)
    ensures
        match pushed(repo, branch, expected, replies, at) {
            Run::Ask(request) => {
                &&& branch.push != PushStrategy::Skip
                &&& replies.len() <= at ==> request == RequestView::Git(
                    Tree::Main,
                    GitView::FetchBranch { remote: repo.fork_remote@, branch: branch.name@ },
                )
                &&& replies.len() == at + 1 ==> request == RequestView::Git(
                    Tree::Main,
                    GitView::RemoteHead { remote: repo.fork_remote@, branch: branch.name@ },
                )
                &&& replies.len() >= at + 2 ==> replies.len() == at + 2 && (
                replies[at as int + 1] matches Reply::Maybe(current) && text_option(current)
                    == expected)
            },
            Run::On(StageView::Go(_), end) => if branch.push == PushStrategy::Skip {
                end == at
            } else {
                end == at + 3 <= replies.len() && is_success(replies[at as int + 2])
            },
            Run::On(StageView::End(BranchView::RemoteChanged { expected: was, current }), end) => {
                &&& end == at + 2 <= replies.len()
                &&& was == expected
                &&& replies[at as int + 1] matches Reply::Maybe(found) && current == text_option(
                    found,
                ) && current != expected
            },
            Run::On(StageView::End(BranchView::Report(report)), end) => {
                &&& end == at + 3 <= replies.len()
                &&& report.status == BranchStatus::Failed
                &&& replies[at as int + 2] matches Reply::Output(output) && output.status != 0
                    && report.details.len() == 3 && report.details[1] == "push failed with code "@
                    + signed_decimal(output.status as int) && report.details[2] == "stderr: "@
                    + on_one_line(output.stderr@)
            },
            Run::Fail(_, _) => branch.push != PushStrategy::Skip && replies.len() > at,
        },
{
    reveal(pushed);
}

/// The tag of a release is asked for after a push only; what is given is handed out, and a failure
/// ends the branch as failed, though it was pushed.
pub proof fn lemma_tag_goes_with_its_branch(
    repo: RepoConfig,
    branch: BranchConfig,
    after_head: Seq<char>,
    replies: Seq<Reply>,
    at: nat,
)
    ensures
        match tagged(repo, branch, after_head, replies, at) {
            Run::Ask(request) => branch.push != PushStrategy::Skip && request
                == RequestView::Protection(
                Tree::Main,
                ProtectionView::ReleaseTag { remote: repo.fork_remote@, branch: branch.name@ },
            ),
            Run::On(StageView::Go(tag), end) => if branch.push == PushStrategy::Skip {
                tag is None && end == at
            } else {
                end == at + 1 && replies[at as int] == Reply::Maybe(tag)
            },
            Run::On(StageView::End(BranchView::Report(report)), end) => {
                &&& end == at + 1 <= replies.len()
                &&& report.status == BranchStatus::Failed
                &&& report.head == Some(after_head)
                &&& replies[at as int] matches Reply::Failed(fault) ==> report.details == seq![
                    "branch push succeeded, release tag failed"@,
                    "release error: "@ + fault_text(fault@),
                ]
            },
            Run::On(StageView::End(_), _) => false,
            Run::Fail(_, _) => false,
        },
{
    reveal(tagged);
}

/// A branch whose place in the fork moved is abandoned and tried anew; where no tries are left, it is
/// reported as failed, with where its place was and where it is.
pub proof fn lemma_moved_branch_is_tried_again(
    config: Config,
    branch: BranchConfig,
    retries: nat,
    replies: Seq<Reply>,
    at: nat,
)
    ensures
        ({
            let run = branch_with_retries(config, branch, retries, replies, at);
            match branch_once(config, branch, replies, at) {
                Run::Ask(request) => run == Run::Ask::<ReportView>(request),
                Run::Fail(chain, end) => run == Run::Fail::<ReportView>(chain, end),
                Run::On(BranchView::Report(report), end) => run == Run::On(report, end),
                Run::On(BranchView::RemoteChanged { expected, current }, end) => if retries == 0 {
                    run matches Run::On(report, last) && {
                        &&& last == end
                        &&& report.branch == branch.name@
                        &&& report.status == BranchStatus::Failed
                        &&& report.details[2] == "remote branch: "@ + fork_name(config.repo, branch)
                        &&& report.details[3] == "expected remote head: "@ + (match expected {
                            Some(head) => short(head),
                            None => "not found"@,
                        })
                        &&& report.details[4] == "current remote head: "@ + (match current {
                            Some(head) => short(head),
                            None => "not found"@,
                        })
                    }
                } else {
                    &&& replies.len() <= end ==> run == Run::Ask::<ReportView>(
                        RequestView::Git(Tree::Main, GitView::Abort),
                    )
                    &&& replies.len() > end && replies[end as int] is Done ==> run
                        == branch_with_retries(
                        config,
                        branch,
                        (retries - 1) as nat,
                        replies,
                        end + 1,
                    )
                },
            }
        }),
{
}

/// A report is summed up by the model, or stands for itself.
pub proof fn lemma_summary_is_the_models_or_the_report(
    llm: Option<LlmConfig>,
    text: Seq<char>,
    replies: Seq<Reply>,
    at: nat,
)
    ensures
        match summary(llm, text, replies, at) {
            Run::On(Some(found), end) => summed_up(llm, text, replies, at) == Run::On(found, end),
            Run::On(None, end) => summed_up(llm, text, replies, at) == Run::On(text, end),
            Run::Ask(request) => summed_up(llm, text, replies, at) == Run::Ask::<Seq<char>>(
                request,
            ),
            Run::Fail(_, end) => !(summed_up(llm, text, replies, at) is Ask),
        },
{
}

/// A branch whose place in the fork moved is tried once more, and a sync is continued without help
/// from where it is, up to twenty times.
pub proof fn lemma_tries_are_limited(
    config: Config,
    branch: BranchConfig,
    strategy: SyncStrategy,
    first_stderr: Seq<char>,
    replies: Seq<Reply>,
    at: nat,
)
    ensures
        branch_done(config, Task::Sync, branch, replies, at) == branch_with_retries(
            config,
            branch,
            1,
            replies,
            at,
        ),
        at + 2 <= replies.len() ==> (replies[at as int] matches Reply::Output(output)
            && output.status == 1 ==> (replies[at as int + 1] matches Reply::Text(head) ==> {
            let going = continue_from(
                strategy,
                20,
                head@,
                seq![
                    "rerere/autostaged resolution detected: continuing sync"@,
                    "initial continue stderr: "@ + on_one_line(first_stderr),
                ],
                replies,
                at + 2,
            );
            match continuation(strategy, first_stderr, replies, at) {
                Run::Ask(request) => going == Run::Ask::<ContinueView>(request),
                Run::Fail(chain, end) => going == Run::Fail::<ContinueView>(chain, end),
                Run::On(found, end) => found matches Some(outcome) && going == Run::On(
                    outcome,
                    end,
                ),
            }
        })),
{
    reveal(branch_done);
}

} // verus!
