//! What an investigation asks for, request by request, and what it keeps.

use vstd::prelude::*;

use crate::calls::git::GitView;
use crate::calls::notify::NotifyView;
use crate::calls::protect::ProtectionView;
use crate::calls::signal::SignalCallView;
use crate::calls::{RequestView, Tree};
use crate::config::{BranchConfig, Config, ProtectionAutomation};
use crate::data::{json_writing, DataView};
use crate::digest::digest_of;
use crate::fault::fault_text;
use crate::journal::{asked, Reply, Run};
use crate::llm::types::SignalFacts;
use crate::llm::{investigation, selection};
use crate::path::{absolute, below, parts};
use crate::protection::dependency::graph::CargoReachabilitySnapshot;
use crate::protection::investigate::candidate::{
    admitted, all_evidence, branch_named, built, candidate_tests_from, candidate_tree_added,
    candidate_worktree, changes_written_from, contract_held, examined, failure_kept, lacking,
    prepared, test_branch, tests_lacking,
};
use crate::protection::investigate::files::{
    candidates_among, changes_checked_from, file_read, files_read_from, may_be_candidate,
    offered_files, safe_file,
};
use crate::protection::investigate::policy::{
    calls_for_action, confidence_name, dependency_lines, package_line, plain_name, project_name,
    severity_name,
};
use crate::protection::investigate::{
    advanced, alerted, attempted, concluded, dedupe_data, dedupe_digest, drafted, input_fault,
    judged, message_facts, recorded, JudgementView, RecordView, ReportedView, TrialView,
};
use crate::protection::types::{
    BatchView, ChangeView, CommitSecurityReviewBatch, DispositionView, FindingState, FindingView,
    InvestigationView, ReviewView, SecurityContractVerificationDecision, SecuritySignalSource,
    VerificationView,
};
use crate::replay::{answers, request_of};
use crate::service::jobs::steps::was_printed;
use crate::sync::checks::test_record;
use crate::sync::steps::was_given;
use crate::text::bytes::strict;
use crate::text::laws::{lemma_character_is_replaced_everywhere, lemma_lower_case_changes_capitals};
use crate::text::order::lemma_push_contains;
use crate::text::pattern::{begins_with, finishes_with, holds, replaced};
use crate::text::split::{filled, pieces, Separator};
use crate::text::{ascii_lower, first_chars, texts, trimmed, utf8_len};

verus! {

/// Whether one of some changes is in a file.
pub open spec fn is_changed(changes: Seq<ChangeView>, path: Seq<char>) -> bool {
    exists|i: int| 0 <= i < changes.len() && (#[trigger] changes[i]).path == path
}

/// Whether one of some changes gives a file a content.
pub open spec fn is_change(changes: Seq<ChangeView>, path: Seq<char>, content: Seq<char>) -> bool {
    exists|i: int|
        0 <= i < changes.len() && (#[trigger] changes[i]).path == path && changes[i].content
            == content
}

/// Whether commits are those of a reply.
pub open spec fn were_reviewed(replies: Seq<Reply>, batch: CommitSecurityReviewBatch) -> bool {
    exists|k: int| 0 <= k < replies.len() && #[trigger] replies[k] == Reply::Reviews(Some(batch))
}

/// Whether commits are the one commit of a candidate, with the judgement that it answers: it is a
/// fix, brings no risk, and must be verified.
pub open spec fn is_commit_of_candidate(
    config: Config,
    review: ReviewView,
    replies: Seq<Reply>,
    evaluated: BatchView,
) -> bool {
    &&& evaluated.project == project_name(config)
    &&& was_printed(replies, evaluated.from)
    &&& evaluated.to == "HEAD"@
    &&& evaluated.disposition == DispositionView::VerifyRequired
    &&& evaluated.cache_hits == 0
    &&& evaluated.reviews.len() == 1
    &&& ({
        let only = evaluated.reviews[0];
        &&& was_printed(replies, only.commit)
        &&& only.decision.security_fix_detected
        &&& !only.decision.introduced_risk
        &&& only.decision.affected == review.affected
        &&& only.decision.severity == review.severity
        &&& only.decision.confidence == review.confidence
        &&& only.decision.categories == review.categories
        &&& only.decision.summary == review.summary
        &&& only.decision.mechanism == review.mechanism
        &&& only.decision.evidence == review.evidence
        &&& only.decision.fix_contract == review.fix_contract
        &&& only.disposition == DispositionView::VerifyRequired
        &&& was_given(replies, only.policy_fingerprint)
    })
}

/// Whether a command is one that a candidate is committed by, in its worktree.
pub open spec fn is_work_command(args: Seq<Seq<char>>) -> bool {
    ||| args == seq!["diff"@, "--check"@]
    ||| args == seq!["status"@, "--porcelain"@]
    ||| args == seq!["add"@, "--all"@]
    ||| args == seq!["rev-parse"@, "HEAD"@]
    ||| args == seq![
        "-c"@,
        "user.name=TermiteRS Candidate"@,
        "-c"@,
        "user.email=termiters@localhost"@,
        "commit"@,
        "-m"@,
        "security candidate"@,
    ]
}

/// The place where the branch that is asked for stands, or the first branch.
pub open spec fn is_tested_branch(
    config: Config,
    requested: Option<Seq<char>>,
    branch: BranchConfig,
) -> bool {
    match requested {
        Some(name) => exists|i: int|
            0 <= i < config.branches@.len() && #[trigger] config.branches@[i] == branch
                && branch.name@ == name && forall|j: int|
                0 <= j < i ==> (#[trigger] config.branches@[j]).name@ != name,
        None => config.branches@.len() > 0 && config.branches@[0] == branch,
    }
}

/// Whether a request is one that a candidate is prepared by: its changes, in its worktree, as they
/// were given; its commit; and the tests of the branch that is asked for, in the sandbox.
pub open spec fn is_candidate_step(
    config: Config,
    decision: InvestigationView,
    requested: Option<Seq<char>>,
    candidate_id: Seq<char>,
    replies: Seq<Reply>,
    request: RequestView,
) -> bool {
    let worktree = below(below(config.data_dir@, "protection/worktrees"@), candidate_id);
    match request {
        RequestView::Signal(SignalCallView::Inspect { path }) => is_changed(
            decision.changes,
            path,
        ),
        RequestView::Signal(SignalCallView::IsInside { path }) => is_changed(
            decision.changes,
            path,
        ),
        RequestView::Signal(SignalCallView::PrepareWorktree { worktree: place }) => place
            == worktree,
        RequestView::Signal(SignalCallView::Now) => true,
        RequestView::Git(Tree::Main, GitView::Run { args }) => {
            ||| args == seq!["rev-parse"@, "HEAD"@]
            ||| args.len() == 5 && args[0] == "worktree"@ && args[1] == "add"@ && args[2]
                == "--detach"@ && args[3] == worktree && was_printed(replies, args[4])
        },
        RequestView::Git(Tree::Work, GitView::WriteFile { path, content }) => is_change(
            decision.changes,
            path,
            content,
        ),
        RequestView::Git(Tree::Work, GitView::Run { args }) => is_work_command(args),
        RequestView::Git(Tree::Work, GitView::Test { command, sandboxed }) => sandboxed && exists|
            branch: BranchConfig,
        |
            #[trigger] is_tested_branch(config, requested, branch) && texts(
                branch.tests@,
            ).contains(command),
        RequestView::Git(Tree::Work, GitView::RangePatch { from, to, limit }) => was_printed(
            replies,
            from,
        ) && to == "HEAD"@ && limit == 768 * 1024,
        RequestView::Protection(Tree::Work, ProtectionView::Gate) => true,
        RequestView::Protection(Tree::Work, ProtectionView::Reviews { from, to }) => was_printed(
            replies,
            from,
        ) && to == "HEAD"@,
        RequestView::Protection(Tree::Work, ProtectionView::CanProceed { batch }) => were_reviewed(
            replies,
            batch,
        ),
        RequestView::Protection(
            Tree::Work,
            ProtectionView::VerifyContracts { batch, tests, .. },
        ) => were_reviewed(replies, batch) && exists|branch: BranchConfig|
            #[trigger] is_tested_branch(config, requested, branch) && tests == texts(branch.tests@),
        RequestView::Protection(Tree::Work, ProtectionView::PolicyFingerprint) => true,
        RequestView::Protection(
            Tree::Work,
            ProtectionView::VerifySignalContract { evaluated, tests, .. },
        ) => is_commit_of_candidate(config, decision.review, replies, evaluated) && exists|
            branch: BranchConfig,
        |
            #[trigger] is_tested_branch(config, requested, branch) && tests == texts(branch.tests@),
        _ => false,
    }
}

proof fn lemma_found_branch(branches: Seq<BranchConfig>, name: Seq<char>)
    ensures
        branch_named(branches, name) matches Some(branch)
            ==> exists|i: int|
            0 <= i < branches.len() && #[trigger] branches[i] == branch && branch.name@ == name
                && forall|j: int| 0 <= j < i ==> (#[trigger] branches[j]).name@ != name,
    decreases branches.len(),
{
    if branches.len() > 0 {
        if branches[0].name@ != name {
            let rest = branches.skip(1);
            lemma_found_branch(rest, name);
            if let Some(branch) = branch_named(
                rest,
                name,
            ) {
                let i = choose|i: int|
                    0 <= i < rest.len() && #[trigger] rest[i] == branch && branch.name@ == name
                        && forall|j: int| 0 <= j < i ==> (#[trigger] rest[j]).name@ != name;
                assert(branches[i + 1] == branch);
                assert forall|j: int| 0 <= j < i + 1 implies (#[trigger] branches[j]).name@
                    != name by {
                    if j > 0 {
                        assert(rest[j - 1] == branches[j]);
                    }
                }
            }
        } else {
            assert(branches[0].name@ == name);
        }
    }
}

/// The branch whose tests a candidate must pass is the first of the name that is asked for, or, where
/// none is asked for, the first of all.
pub proof fn lemma_tested_branch_is_the_one_asked_for(config: Config, requested: Option<Seq<char>>)
    ensures
        test_branch(config, requested) matches Ok(branch) ==> is_tested_branch(
            config,
            requested,
            branch,
        ),
{
    if let Some(name) = requested {
        lemma_found_branch(config.branches@, name);
    }
}

proof fn lemma_checking_asks(
    offered: Seq<Seq<char>>,
    changes: Seq<ChangeView>,
    next: nat,
    total: nat,
    replies: Seq<Reply>,
    at: nat,
)
    ensures
        changes_checked_from(offered, changes, next, total, replies, at) matches Run::Ask(request)
            ==> {
            ||| request matches RequestView::Signal(SignalCallView::Inspect { path }) && is_changed(
                changes,
                path,
            )
            ||| request matches RequestView::Signal(SignalCallView::IsInside { path })
                && is_changed(changes, path)
        },
    decreases changes.len() - next,
{
    if next < changes.len() {
        let change = changes[next as int];
        assert(is_changed(changes, change.path));
        if let Run::On(_, end) = safe_file(change.path, replies, at) {
            lemma_checking_asks(
                offered,
                changes,
                next + 1,
                total + utf8_len(change.content),
                replies,
                end,
            );
        }
    }
}

proof fn lemma_writing_asks(changes: Seq<ChangeView>, next: nat, replies: Seq<Reply>, at: nat)
    ensures
        changes_written_from(changes, next, replies, at) matches Run::Ask(request) ==> (
        request matches RequestView::Git(Tree::Work, GitView::WriteFile { path, content })
            && is_change(changes, path, content)),
    decreases changes.len() - next,
{
    if next < changes.len() {
        let change = changes[next as int];
        assert(is_change(changes, change.path, change.content));
        if let Run::On(_, end) = asked::<()>(
            replies,
            at,
            RequestView::Git(
                Tree::Work,
                GitView::WriteFile { path: change.path, content: change.content },
            ),
        ) {
            lemma_writing_asks(changes, next + 1, replies, end);
        }
    }
}

proof fn lemma_testing_asks(
    tests: Seq<Seq<char>>,
    next: nat,
    printed: Seq<char>,
    replies: Seq<Reply>,
    at: nat,
)
    ensures
        candidate_tests_from(tests, next, printed, replies, at) matches Run::Ask(request) ==> (
        request matches RequestView::Git(Tree::Work, GitView::Test { command, sandboxed })
            && sandboxed && tests.contains(command)),
    decreases tests.len() - next,
{
    if next < tests.len() && at < replies.len() {
        if let Reply::Output(output) = replies[at as int] {
            lemma_testing_asks(
                tests,
                next + 1,
                printed + test_record(tests[next as int], output),
                replies,
                at + 1,
            );
        }
    }
}

proof fn lemma_building_asks(
    worktree: Seq<char>,
    changes: Seq<ChangeView>,
    replies: Seq<Reply>,
    at: nat,
)
    ensures
        match built(worktree, changes, replies, at) {
            Run::Ask(request) => {
                ||| request == RequestView::Signal(SignalCallView::PrepareWorktree { worktree })
                ||| request == RequestView::Git(
                    Tree::Main,
                    GitView::Run { args: seq!["rev-parse"@, "HEAD"@] },
                )
                ||| (request matches RequestView::Git(Tree::Main, GitView::Run { args })
                    && args.len() == 5 && args[0] == "worktree"@ && args[1] == "add"@ && args[2]
                    == "--detach"@ && args[3] == worktree && was_printed(replies, args[4]))
                ||| (request matches RequestView::Git(
                    Tree::Work,
                    GitView::WriteFile { path, content },
                ) && is_change(changes, path, content))
                ||| (request matches RequestView::Git(Tree::Work, GitView::Run { args })
                    && is_work_command(args))
                ||| request == RequestView::Protection(Tree::Work, ProtectionView::Gate)
            },
            Run::On(base, _) => was_printed(replies, base),
            Run::Fail(_, _) => true,
        },
{
    reveal(built);
    if let Run::On(_, a) = asked::<()>(
        replies,
        at,
        RequestView::Signal(SignalCallView::PrepareWorktree { worktree }),
    ) {
        if a < replies.len() {
            if let Reply::Output(output) = replies[a as int] {
                let base = trimmed(output.stdout@);
                assert(was_printed(replies, base));
            }
        }
    }
    if let Run::On(base, b) = candidate_tree_added(worktree, replies, at) {
        lemma_writing_asks(changes, 0, replies, b);
    }
}

/// Preparing a candidate asks for nothing but the steps of that candidate.
#[verifier::rlimit(40)]
pub proof fn lemma_candidate_asks_for_its_steps(
    config: Config,
    offered: Seq<Seq<char>>,
    finding_id: Seq<char>,
    decision: InvestigationView,
    requested: Option<Seq<char>>,
    candidate_id: Seq<char>,
    replies: Seq<Reply>,
    at: nat,
)
    ensures
        prepared(
            config,
            offered,
            finding_id,
            decision,
            requested,
            candidate_id,
            replies,
            at,
        ) matches Run::Ask(request) ==> is_candidate_step(
            config,
            decision,
            requested,
            candidate_id,
            replies,
            request,
        ),
{
    let worktree = candidate_worktree(config.data_dir@, candidate_id);
    let admitting = admitted(config, offered, decision, requested, replies, at);
    assert(match admitting {
        Run::Ask(request) => is_candidate_step(
            config,
            decision,
            requested,
            candidate_id,
            replies,
            request,
        ),
        Run::On(branch, _) => is_tested_branch(config, requested, branch),
        Run::Fail(_, _) => true,
    }) by {
        reveal(admitted);
        lemma_checking_asks(offered, decision.changes, 0, 0, replies, at);
        lemma_tested_branch_is_the_one_asked_for(config, requested);
    }
    if let Run::On(branch, a) = admitting {
        lemma_building_asks(worktree, decision.changes, replies, a);
        if let Run::On(base, b) = built(worktree, decision.changes, replies, a) {
            let examining = examined(branch, base, replies, b);
            assert(examining matches Run::Ask(request) ==> is_candidate_step(
                config,
                decision,
                requested,
                candidate_id,
                replies,
                request,
            )) by {
                reveal(examined);
                lemma_testing_asks(texts(branch.tests@), 0, Seq::empty(), replies, b + 2);
                if b < replies.len() {
                    if let Reply::Reviews(Some(batch)) = replies[b as int] {
                        assert(were_reviewed(replies, batch));
                    }
                }
            }
            if let Run::On(output, c) = examining {
                assert(contract_held(
                    config,
                    branch,
                    base,
                    decision.review,
                    output,
                    replies,
                    c,
                ) matches Run::Ask(request) ==> is_candidate_step(
                    config,
                    decision,
                    requested,
                    candidate_id,
                    replies,
                    request,
                )) by {
                    reveal(contract_held);
                }
            }
        }
    }
}

/// What writing changes asks for.
pub open spec fn change_asks(changes: Seq<ChangeView>, at: nat) -> spec_fn(Seq<Reply>) -> Option<
    RequestView,
> {
    |replies: Seq<Reply>| request_of(changes_written_from(changes, 0, replies, at))
}

proof fn lemma_change_is_asked_for(
    changes: Seq<ChangeView>,
    next: nat,
    replies: Seq<Reply>,
    first: nat,
    i: nat,
)
    requires
        next <= i < changes.len(),
        first + i <= replies.len(),
        forall|j: int| next <= j < i ==> #[trigger] replies[first + j] is Done,
    ensures
        changes_written_from(changes, next, replies.take((first + i) as int), first + next)
            == Run::Ask::<()>(
            RequestView::Git(
                Tree::Work,
                GitView::WriteFile {
                    path: changes[i as int].path,
                    content: changes[i as int].content,
                },
            ),
        ),
    decreases i - next,
{
    let known = replies.take((first + i) as int);
    if next < i {
        assert(replies[first + next as int] is Done);
        assert(known[first + next as int] == replies[first + next as int]);
        lemma_change_is_asked_for(changes, next + 1, replies, first, i);
    }
}

proof fn lemma_changes_were_done(
    changes: Seq<ChangeView>,
    next: nat,
    replies: Seq<Reply>,
    first: nat,
)
    requires
        next <= changes.len(),
    ensures
        changes_written_from(changes, next, replies, first + next) matches Run::On(_, end) ==> {
            &&& end == first + changes.len()
            &&& next < changes.len() ==> end <= replies.len()
            &&& forall|j: int| next <= j < changes.len() ==> #[trigger] replies[first + j] is Done
        },
    decreases changes.len() - next,
{
    if next < changes.len() {
        lemma_changes_were_done(changes, next + 1, replies, first);
        if let Run::On(_, _) = changes_written_from(changes, next, replies, first + next) {
            assert(replies[first + next as int] is Done);
        }
    }
}

/// Before a candidate is committed each of its changes was written, in order: just that path, with
/// just that content.
pub proof fn lemma_changes_are_written_in_order(
    changes: Seq<ChangeView>,
    replies: Seq<Reply>,
    at: nat,
)
    ensures
        changes_written_from(changes, 0, replies, at) matches Run::On(_, end) ==> {
            &&& end == at + changes.len()
            &&& forall|i: int|
                0 <= i < changes.len() ==> {
                    &&& answers(
                        change_asks(changes, at),
                        replies,
                        at + i,
                        RequestView::Git(
                            Tree::Work,
                            GitView::WriteFile {
                                path: (#[trigger] changes[i]).path,
                                content: changes[i].content,
                            },
                        ),
                    )
                    &&& replies[at + i] is Done
                }
        },
{
    lemma_changes_were_done(changes, 0, replies, at);
    if let Run::On(_, end) = changes_written_from(changes, 0, replies, at) {
        assert forall|i: int| 0 <= i < changes.len() implies {
            &&& answers(
                change_asks(changes, at),
                replies,
                at + i,
                RequestView::Git(
                    Tree::Work,
                    GitView::WriteFile {
                        path: (#[trigger] changes[i]).path,
                        content: changes[i].content,
                    },
                ),
            )
            &&& replies[at + i] is Done
        } by {
            assert(replies[at + i] is Done);
            lemma_change_is_asked_for(changes, 0, replies, at, i as nat);
        }
    }
}

/// What is kept of a candidate that was prepared: its finding, its worktree and its summary, the
/// digest of the patch that was given last but one, and the time that was given last.
pub proof fn lemma_prepared_candidate_is_kept(
    config: Config,
    offered: Seq<Seq<char>>,
    finding_id: Seq<char>,
    decision: InvestigationView,
    requested: Option<Seq<char>>,
    candidate_id: Seq<char>,
    replies: Seq<Reply>,
    at: nat,
)
    ensures
        prepared(
            config,
            offered,
            finding_id,
            decision,
            requested,
            candidate_id,
            replies,
            at,
        ) matches Run::On(artifacts, end) ==> {
            &&& 2 <= end <= replies.len()
            &&& artifacts.0.id == candidate_id
            &&& artifacts.0.finding_id == finding_id
            &&& artifacts.0.worktree_path == below(
                below(config.data_dir@, "protection/worktrees"@),
                candidate_id,
            )
            &&& artifacts.0.summary == decision.candidate_summary
            &&& artifacts.1.id == "verification-"@ + candidate_id
            &&& artifacts.1.candidate_id == candidate_id
            &&& artifacts.1.verifier == "static-gate+sandbox-tests+commit-review+fix-contract"@
            &&& artifacts.1.passed
            &&& replies[end - 2] matches Reply::Text(patch) && digest_of(patch@) == Some(
                artifacts.0.content_sha256,
            )
            &&& replies[end - 1] matches Reply::Text(now) && artifacts.0.created_at == now@
                && artifacts.1.created_at == now@
        },
{
}

/// What is kept of a candidate that failed: its finding and its worktree, why it failed, the digest
/// of what is there of it, and the time that was given last.
pub proof fn lemma_failed_candidate_is_kept(
    config: Config,
    finding_id: Seq<char>,
    summary: Seq<char>,
    candidate_id: Seq<char>,
    error: Seq<char>,
    replies: Seq<Reply>,
    at: nat,
)
    ensures
        ({
            let worktree = below(below(config.data_dir@, "protection/worktrees"@), candidate_id);
            match failure_kept(config, finding_id, summary, candidate_id, error, replies, at) {
                Run::Ask(request) => {
                    ||| request == RequestView::Signal(SignalCallView::WorktreeIsDir { worktree })
                    ||| request == RequestView::Git(
                        Tree::Work,
                        GitView::Run { args: seq!["log"@, "-1"@, "--pretty=%s"@] },
                    )
                    ||| request == RequestView::Git(
                        Tree::Work,
                        GitView::Run { args: seq!["show"@, "--format="@, "--patch"@, "HEAD"@] },
                    ) && was_printed(replies, "security candidate"@)
                    ||| request == RequestView::Git(
                        Tree::Work,
                        GitView::Run { args: seq!["diff"@, "--patch"@, "HEAD"@] },
                    )
                    ||| request == RequestView::Signal(SignalCallView::Now)
                },
                Run::On(artifacts, end) => {
                    &&& 2 <= end <= replies.len()
                    &&& artifacts.0.id == candidate_id
                    &&& artifacts.0.finding_id == finding_id
                    &&& artifacts.0.worktree_path == worktree
                    &&& artifacts.0.summary == "候选未通过门禁："@ + summary + "；"@ + error
                    &&& artifacts.1.id == "verification-"@ + candidate_id
                    &&& artifacts.1.candidate_id == candidate_id
                    &&& artifacts.1.verifier == "candidate-pipeline-failed-closed"@
                    &&& !artifacts.1.passed
                    &&& artifacts.1.summary == error
                    &&& artifacts.1.evidence == seq!["测试、推送、发布和部署均未获得授权"@]
                    &&& match replies[end - 2] {
                        Reply::Output(output) => digest_of(output.stdout@) == Some(
                            artifacts.0.content_sha256,
                        ),
                        _ => digest_of(Seq::empty()) == Some(artifacts.0.content_sha256),
                    }
                    &&& replies[end - 1] matches Reply::Text(now) && artifacts.0.created_at == now@
                        && artifacts.1.created_at == now@
                },
                Run::Fail(_, _) => true,
            }
        }),
{
    let worktree = below(below(config.data_dir@, "protection/worktrees"@), candidate_id);
    if let Run::On(true, a) = asked::<bool>(
        replies,
        at,
        RequestView::Signal(SignalCallView::WorktreeIsDir { worktree }),
    ) {
        if a < replies.len() {
            if let Reply::Output(output) = replies[a as int] {
                assert(was_printed(replies, trimmed(output.stdout@)));
            }
        }
    }
}

/// A file may be a candidate just where it lies inside the project and is none of those that hold
/// rules or secrets, with slashes either way and letters of either case.
pub proof fn lemma_candidates_hold_no_secrets(path: Seq<char>)
    ensures
        ({
            let plain = replaced(path, "\\"@, "/"@);
            let lower = ascii_lower(plain);
            may_be_candidate(path) <==> !({
                ||| absolute(plain)
                ||| exists|i: int| 0 <= i < parts(plain).len() && #[trigger] parts(plain)[i] == ".."@
                ||| begins_with(lower, ".git/"@)
                ||| begins_with(lower, ".github/workflows/"@)
                ||| holds(lower, "/.env"@)
                ||| finishes_with(lower, ".env"@)
                ||| finishes_with(lower, "termite.yml"@)
                ||| finishes_with(lower, "termiters.yml"@)
                ||| holds(lower, "secret"@)
                ||| holds(lower, "credential"@)
            })
        }),
{
}

/// Files that are read are those that were chosen, in order, and are not too large: none has more
/// than forty-eight times 1024 bytes, and together they have no more than sixty-four times 1024.
pub proof fn lemma_read_files_are_limited(
    offered: Seq<Seq<char>>,
    paths: Seq<Seq<char>>,
    next: nat,
    total: nat,
    files: Seq<(Seq<char>, Seq<char>)>,
    replies: Seq<Reply>,
    at: nat,
)
    requires
        next <= paths.len(),
        total <= 64 * 1024,
    ensures
        files_read_from(offered, paths, next, total, files, replies, at) matches Run::On(found, _)
            ==> {
            &&& found.len() == files.len() + paths.len() - next
            &&& found.take(files.len() as int) == files
            &&& forall|i: int|
                files.len() <= i < found.len() ==> (#[trigger] found[i]).0 == paths[i - files.len()
                    + next] && is_file_content(replies, found[i].1)
            &&& total + read_size(found, files.len() as int) <= 64 * 1024
        },
    decreases paths.len() - next,
{
    if next < paths.len() {
        let path = paths[next as int];
        if let Run::On(read, end) = file_read(offered, path, total, replies, at) {
            let more = files.push((path, read.1));
            assert(0 <= end - 1 < replies.len());
            assert(replies[end - 1] matches Reply::Bytes(bytes) && strict(bytes@)
                == Some(read.1) && read.0 == total + bytes@.len() && bytes@.len() <= 48 * 1024);
            assert(is_file_content(replies, read.1));
            let bytes = replies[end - 1]->Bytes_0;
            assert(utf8_len(read.1) == bytes@.len()) by {
                vstd::utf8::decode_utf8_encode_utf8(bytes@);
            }
            lemma_read_files_are_limited(offered, paths, next + 1, read.0, more, replies, end);
            if let Run::On(found, _) = files_read_from(
                offered,
                paths,
                next,
                total,
                files,
                replies,
                at,
            ) {
                assert(found.take(files.len() as int) =~= found.take(more.len() as int).take(
                    files.len() as int,
                ));
                assert(more.take(files.len() as int) =~= files);
                assert(found[files.len() as int] == found.take(more.len() as int)[files.len() as int]);
            }
        }
    } else {
        assert(files.take(files.len() as int) =~= files);
    }
}

/// Whether a text is what a file of no more than forty-eight times 1024 bytes holds, as a reply says.
pub open spec fn is_file_content(replies: Seq<Reply>, content: Seq<char>) -> bool {
    exists|k: int|
        0 <= k < replies.len() && ((#[trigger] replies[k]) matches Reply::Bytes(bytes)
            && strict(bytes@) == Some(content) && bytes@.len() <= 48 * 1024)
}

/// The bytes of the files from one on.
pub open spec fn read_size(files: Seq<(Seq<char>, Seq<char>)>, next: int) -> nat
    decreases files.len() - next,
{
    if next < 0 || next >= files.len() {
        0
    } else {
        utf8_len(files[next].1) + read_size(files, next + 1)
    }
}

/// Whether a text is the digest by which a message on a project is told from others: of the project,
/// and of the summary, the reference and the content of the message.
pub open spec fn is_key_of(config: Config, message: ReportedView, key: Seq<char>) -> bool {
    json_writing(
        DataView::List(
            seq![
                DataView::Text(project_name(config)),
                DataView::Text(message.summary),
                match message.reference {
                    Some(reference) => DataView::Text(reference),
                    None => DataView::Null,
                },
                DataView::Text(message.content),
            ],
        ),
    ) matches Ok(text) && digest_of(text) == Some(key)
}

/// Whether a finding is what a judgement on a message found.
pub open spec fn is_finding_of(
    config: Config,
    message: ReportedView,
    decision: InvestigationView,
    reachability: Option<CargoReachabilitySnapshot>,
    key: Seq<char>,
    now: Seq<char>,
    finding: FindingView,
) -> bool {
    let review = decision.review;
    let known = review.evidence.len();
    &&& finding.id == "finding-user-"@ + first_chars(key, 32)
    &&& finding.project == project_name(config)
    &&& finding.signal_id == "signal-user-"@ + first_chars(key, 32)
    &&& finding.state == (if review.affected == Some(false) {
        FindingState::Unaffected
    } else if calls_for_action(texts(config.protection.profiles@), review) {
        FindingState::Affected
    } else {
        FindingState::Uncertain
    })
    &&& finding.classification == "external-security-signal"@
    &&& finding.severity == severity_name(review.severity)
    &&& finding.confidence == confidence_name(review.confidence)
    &&& finding.affected == review.affected
    &&& finding.build_allowed <==> review.affected == Some(false)
    &&& finding.summary == review.summary
    &&& finding.evidence.len() >= known
    &&& finding.evidence.take(known as int) == review.evidence
    &&& ({
        let claimed = decision.affected_packages;
        let lines = finding.evidence.skip(known as int);
        if claimed.len() == 0 {
            lines.len() == 0
        } else {
            match reachability {
                None => lines.len() == 1,
                Some(snapshot) => {
                    &&& lines.len() == claimed.len() + (if snapshot.ambiguous_edges@.len() > 0 {
                        1int
                    } else {
                        0int
                    })
                    &&& forall|i: int|
                        0 <= i < claimed.len() ==> #[trigger] lines[i] == package_line(
                            snapshot.reachable_packages@,
                            claimed[i],
                        )
                },
            }
        }
    })
    &&& finding.dedupe_key == "finding-user:"@ + key
    &&& finding.created_at == now
    &&& finding.updated_at == now
}

/// What is kept of a message and of the judgement on it: the message as it was given, the finding
/// that the judgement comes to, and the plan that it recommends, all of the time that was given.
pub proof fn lemma_record_is_kept(
    config: Config,
    message: ReportedView,
    decision: InvestigationView,
    reachability: Option<CargoReachabilitySnapshot>,
    replies: Seq<Reply>,
    at: nat,
)
    ensures
        match recorded(config, message, decision, reachability, replies, at) {
            Run::Ask(request) => match request {
                RequestView::Signal(SignalCallView::OpenStore) => replies.len() <= at,
                RequestView::Signal(SignalCallView::Now) => replies.len() == at + 1,
                RequestView::Signal(SignalCallView::SaveSignal { .. }) => replies.len() == at + 2,
                RequestView::Signal(SignalCallView::SaveFinding { .. }) => replies.len() == at + 3,
                RequestView::Signal(SignalCallView::SavePlan { .. }) => replies.len() == at + 4,
                _ => false,
            },
            Run::On(record, end) => {
                &&& end == at + 5
                &&& replies[at as int + 1] matches Reply::Text(now) && exists|key: Seq<char>|
                    {
                        &&& #[trigger] is_key_of(config, message, key)
                        &&& record.signal.id == "signal-user-"@ + first_chars(key, 32)
                        &&& record.signal.project == project_name(config)
                        &&& record.signal.source == SecuritySignalSource::UserReport
                        &&& record.signal.summary == message.summary
                        &&& record.signal.reference == message.reference
                        &&& record.signal.dedupe_key == "user-report:"@ + key
                        &&& record.signal.received_at == now@
                        &&& is_finding_of(
                            config,
                            message,
                            decision,
                            reachability,
                            key,
                            now@,
                            record.finding,
                        )
                        &&& record.plan.id == "plan-user-"@ + first_chars(key, 32)
                        &&& record.plan.finding_id == record.finding.id
                        &&& record.plan.action == decision.recommended_action
                        &&& record.plan.summary == decision.candidate_summary
                        &&& record.plan.requirements == (match decision.review.fix_contract {
                            Some(contract) => contract.regression_cases,
                            None => Seq::empty(),
                        })
                        &&& record.plan.created_at == now@
                    }
                &&& recorded(
                    config,
                    message,
                    decision,
                    reachability,
                    replies.take(at as int + 2),
                    at,
                ) == Run::Ask::<RecordView>(
                    RequestView::Signal(SignalCallView::SaveSignal { signal: record.signal }),
                )
                &&& recorded(
                    config,
                    message,
                    decision,
                    reachability,
                    replies.take(at as int + 3),
                    at,
                ) == Run::Ask::<RecordView>(
                    RequestView::Signal(SignalCallView::SaveFinding { finding: record.finding }),
                )
                &&& recorded(
                    config,
                    message,
                    decision,
                    reachability,
                    replies.take(at as int + 4),
                    at,
                ) == Run::Ask::<RecordView>(
                    RequestView::Signal(SignalCallView::SavePlan { plan: record.plan }),
                )
            },
            Run::Fail(_, _) => true,
        },
{
    reveal(recorded);
    if let Run::On(record, end) = recorded(config, message, decision, reachability, replies, at) {
        let project = project_name(config);
        let key = dedupe_digest(project, message)->Ok_0;
        assert(dedupe_data(project, message)->List_0 =~= seq![
            DataView::Text(project),
            DataView::Text(message.summary),
            match message.reference {
                Some(reference) => DataView::Text(reference),
                None => DataView::Null,
            },
            DataView::Text(message.content),
        ]);
        assert(is_key_of(config, message, key));
        let review = decision.review;
        let known = review.evidence.len() as int;
        let lines = dependency_lines(decision.affected_packages, reachability);
        assert(record.finding.evidence.take(known) =~= review.evidence);
        assert(record.finding.evidence.skip(known) =~= lines);
        let two = replies.take(at as int + 2);
        let three = replies.take(at as int + 3);
        let four = replies.take(at as int + 4);
        assert(two[at as int] == replies[at as int]);
        assert(two[at as int + 1] == replies[at as int + 1]);
        assert(three[at as int] == replies[at as int]);
        assert(three[at as int + 1] == replies[at as int + 1]);
        assert(three[at as int + 2] == replies[at as int + 2]);
        assert(four[at as int] == replies[at as int]);
        assert(four[at as int + 1] == replies[at as int + 1]);
        assert(four[at as int + 2] == replies[at as int + 2]);
        assert(four[at as int + 3] == replies[at as int + 3]);
    }
}

/// An alarm is raised just where a judgement calls for action: under the name of the project, with
/// what was reported and what was found. What comes of it is kept as it was given.
pub proof fn lemma_alarm_is_raised(
    config: Config,
    message: ReportedView,
    decision: InvestigationView,
    replies: Seq<Reply>,
    at: nat,
)
    ensures
        ({
            let review = decision.review;
            let run = alerted(config, message, decision, replies, at);
            if !calls_for_action(texts(config.protection.profiles@), review) {
                run matches Run::On(notice, end) && end == at && !notice.sent && notice.error
                    is None
            } else if replies.len() <= at {
                run matches Run::Ask(request) && request == RequestView::Notify(
                    NotifyView::Alert {
                        subject: project_name(config) + " 安全消息告警"@,
                        body: message.summary + "\n\n判断："@ + review.summary + "\n严重性："@
                            + severity_name(review.severity) + "\n引用："@ + (
                        match message.reference {
                            Some(reference) => reference,
                            None => "无"@,
                        }) + "\n\nTermiteRS 尚未推送、发布或部署任何修改。"@,
                    },
                )
            } else {
                match replies[at as int] {
                    Reply::Flag(sent) => run matches Run::On(notice, end) && end == at + 1
                        && notice.sent == sent && notice.error is None,
                    Reply::Failed(fault) => run matches Run::On(notice, end) && end == at + 1
                        && !notice.sent && notice.error == Some(fault_text(fault@)),
                    _ => true,
                }
            }
        }),
{
    reveal(alerted);
}

/// A candidate is tried just where a judgement calls for action and the settings allow candidates,
/// under a name that was never used.
pub proof fn lemma_candidate_is_tried(
    config: Config,
    offered: Seq<Seq<char>>,
    finding_id: Seq<char>,
    decision: InvestigationView,
    requested: Option<Seq<char>>,
    replies: Seq<Reply>,
    at: nat,
)
    ensures
        ({
            let run = attempted(config, offered, finding_id, decision, requested, replies, at);
            if !(calls_for_action(texts(config.protection.profiles@), decision.review)
                && config.protection.automation == ProtectionAutomation::Candidate) {
                run matches Run::On(trial, end) && end == at && trial.candidate is None
                    && trial.verification is None && trial.error is None
            } else if replies.len() <= at {
                run matches Run::Ask(request) && request == RequestView::Signal(
                    SignalCallView::NewId,
                )
            } else {
                run matches Run::On(trial, end) ==> {
                    &&& replies[at as int] matches Reply::Text(id) && (
                    trial.candidate matches Some(candidate) && candidate.id == "candidate-"@ + id@
                        && candidate.finding_id == finding_id && candidate.worktree_path == below(
                        below(config.data_dir@, "protection/worktrees"@),
                        "candidate-"@ + id@,
                    ))
                    &&& trial.verification matches Some(verification)
                        && verification.candidate_id == trial.candidate->0.id && (
                    verification.passed <==> trial.error is None)
                    &&& trial.error matches Some(error) ==> trial.verification->0.summary == error
                }
            }
        }),
{
    reveal(attempted);
    if let Run::On(id, a) = asked::<String>(
        replies,
        at,
        RequestView::Signal(SignalCallView::NewId),
    ) {
        let candidate_id = "candidate-"@ + id@;
        lemma_prepared_candidate_is_kept(
            config,
            offered,
            finding_id,
            decision,
            requested,
            candidate_id,
            replies,
            a,
        );
        if let Run::Fail(chain, b) = prepared(
            config,
            offered,
            finding_id,
            decision,
            requested,
            candidate_id,
            replies,
            a,
        ) {
            lemma_failed_candidate_is_kept(
                config,
                finding_id,
                decision.candidate_summary,
                candidate_id,
                fault_text(chain),
                replies,
                b,
            );
        }
    }
}

/// A finding moves on just where its candidate was verified: it awaits delivery from the time that
/// was given, is kept so, and is otherwise as it was.
pub proof fn lemma_verified_finding_awaits_delivery(
    finding: FindingView,
    verification: Option<VerificationView>,
    replies: Seq<Reply>,
    at: nat,
)
    ensures
        ({
            let passed = verification matches Some(found) && found.passed;
            match advanced(finding, verification, replies, at) {
                Run::Ask(request) => {
                    &&& passed
                    &&& ({
                        ||| replies.len() <= at && request == RequestView::Signal(
                            SignalCallView::Now,
                        )
                        ||| (replies.len() == at + 1 && (
                        request matches RequestView::Signal(
                            SignalCallView::SaveFinding { finding: kept },
                        ) && (replies[at as int] matches Reply::Text(now) && kept == (FindingView {
                            state: FindingState::AwaitingDelivery,
                            updated_at: now@,
                            ..finding
                        }))))
                    })
                },
                Run::On(after, end) => if passed {
                    &&& end == at + 2
                    &&& replies[at as int] matches Reply::Text(now) && after == (FindingView {
                        state: FindingState::AwaitingDelivery,
                        updated_at: now@,
                        ..finding
                    })
                } else {
                    after == finding && end == at
                },
                Run::Fail(_, _) => passed,
            }
        }),
{
    reveal(advanced);
}

/// A draft is asked for with the finding as it is kept, its candidate and how that one fared, for the
/// repository of the fork; a draft that is given is kept, and handed out.
pub proof fn lemma_draft_is_of_its_finding(
    config: Config,
    finding: FindingView,
    trial: TrialView,
    replies: Seq<Reply>,
    at: nat,
)
    ensures
        match drafted(config, finding, trial, replies, at) {
            Run::Ask(request) => {
                ||| replies.len() <= at && request == RequestView::Signal(
                    SignalCallView::Draft {
                        remote: config.repo.fork@,
                        finding,
                        artifact: trial.candidate,
                        outcome: trial.verification,
                    },
                )
                ||| (replies.len() == at + 1 && (
                replies[at as int] matches Reply::Draft(Some(draft)) && request
                    == RequestView::Signal(SignalCallView::SaveDraft { draft })))
            },
            Run::On(draft, end) => replies[at as int] == Reply::Draft(draft) && end == at + (
            if draft is Some {
                2int
            } else {
                1int
            }),
            Run::Fail(_, _) => replies.len() > at,
        },
{
    reveal(drafted);
}

/// What an investigation comes to holds what its stages came to: the record of the message and its
/// judgement, the alarm, the candidate, the finding as it was kept last, and the draft.
pub proof fn lemma_output_holds_its_stages(
    config: Config,
    message: ReportedView,
    requested: Option<Seq<char>>,
    offered: Seq<Seq<char>>,
    reachability: Option<CargoReachabilitySnapshot>,
    judgement: JudgementView,
    replies: Seq<Reply>,
    at: nat,
)
    ensures
        concluded(
            config,
            message,
            requested,
            offered,
            reachability,
            judgement,
            replies,
            at,
        ) matches Run::On(output, end) ==> {
            let decision = judgement.decision;
            &&& output.decision == decision
            &&& output.selection == judgement.selection
            &&& recorded(config, message, decision, reachability, replies, at) matches Run::On(
                record,
                a,
            ) && {
                &&& output.signal == record.signal
                &&& output.plan == record.plan
                &&& alerted(config, message, decision, replies, a) matches Run::On(notice, b) && {
                    &&& output.notification_sent == notice.sent
                    &&& output.notification_error == notice.error
                    &&& attempted(
                        config,
                        offered,
                        record.finding.id,
                        decision,
                        requested,
                        replies,
                        b,
                    ) matches Run::On(trial, c) && {
                        &&& output.candidate == trial.candidate
                        &&& output.verification == trial.verification
                        &&& output.candidate_error == trial.error
                        &&& advanced(record.finding, trial.verification, replies, c)
                            matches Run::On(finding, d) && {
                            &&& output.finding == finding
                            &&& drafted(config, finding, trial, replies, d) matches Run::On(
                                draft,
                                e,
                            ) && output.issue_draft == draft && e == end
                        }
                    }
                }
            }
        },
{
}

/// A message is looked into just where the protection rules are on, it says something, and it is no
/// longer than sixty-four times 1024 bytes.
pub proof fn lemma_message_is_looked_into(config: Config, message: ReportedView)
    ensures
        input_fault(config, message) is None <==> config.protection.enabled && trimmed(
            message.summary,
        ).len() > 0 && utf8_len(message.content) <= 64 * 1024,
{
}

/// What is told of a message is the message as it was given, and what is known of the project.
pub proof fn lemma_message_is_told_as_given(
    config: Config,
    message: ReportedView,
    reachability: Option<CargoReachabilitySnapshot>,
)
    ensures
        ({
            let facts = message_facts(config, message, reachability);
            &&& facts.project == project_name(config)
            &&& facts.project_description == config.protection.project_description@
            &&& facts.summary == message.summary
            &&& facts.reference == message.reference
            &&& facts.content == message.content
            &&& facts.reachability == reachability
        }),
{
}

/// The files that are offered are those of the repository that may be candidates, ten thousand at the
/// most.
pub proof fn lemma_offered_files_are_tracked(replies: Seq<Reply>, at: nat)
    ensures
        replies.len() <= at ==> offered_files(replies, at) == Run::Ask::<Seq<Seq<char>>>(
            RequestView::Git(Tree::Main, GitView::Run { args: seq!["ls-files"@, "-z"@] }),
        ),
        offered_files(replies, at) matches Run::On(offered, end) ==> {
            &&& end == at + 1
            &&& offered.len() <= 10000
            &&& replies[at as int] matches Reply::Output(output) && output.status == 0 && forall|
                path: Seq<char>,
            |
                #[trigger] offered.contains(path) <==> path.len() > 0 && pieces(
                    output.stdout@,
                    Separator::Char('\0'),
                ).contains(path) && may_be_candidate(path)
        },
{
    if let Run::On(offered, _) = offered_files(replies, at) {
        let output = replies[at as int]->Output_0;
        let all = pieces(output.stdout@, Separator::Char('\0'));
        let condition = |piece: Seq<char>| piece.len() > 0;
        assert forall|path: Seq<char>| #[trigger] offered.contains(path) <==> path.len() > 0
            && all.contains(path) && may_be_candidate(path) by {
            lemma_candidates_among(filled(all), path);
            if path.len() > 0 && all.contains(path) {
                let i = choose|i: int| 0 <= i < all.len() && all[i] == path;
                all.lemma_filter_contains(condition, i);
                assert(filled(all).contains(path));
            }
            if filled(all).contains(path) {
                all.lemma_filter_contains_rev(condition, path);
                all.lemma_filter_pred(condition, filled(all).index_of(path));
            }
        }
    }
}

proof fn lemma_candidates_among(paths: Seq<Seq<char>>, path: Seq<char>)
    ensures
        candidates_among(paths).contains(path) <==> paths.contains(path) && may_be_candidate(path),
    decreases paths.len(),
{
    if paths.len() > 0 {
        let before = paths.drop_last();
        lemma_candidates_among(before, path);
        lemma_push_contains(candidates_among(before), paths.last());
        lemma_push_contains(before, paths.last());
        assert(paths =~= before.push(paths.last()));
    }
}

/// A judgement rests on the files that were chosen for the message, as they were read: what is asked
/// for after they were read is asked for with just those.
pub proof fn lemma_judgement_rests_on_chosen_files(
    config: Config,
    facts: SignalFacts,
    offered: Seq<Seq<char>>,
    replies: Seq<Reply>,
    at: nat,
)
    ensures
        match selection(config.llm, facts, offered, replies, at) {
            Run::On(Some(chosen), a) => match files_read_from(
                offered,
                texts(chosen.paths@),
                0,
                0,
                Seq::empty(),
                replies,
                a,
            ) {
                Run::On(files, b) => {
                    &&& files.len() == chosen.paths@.len()
                    &&& forall|i: int|
                        0 <= i < files.len() ==> (#[trigger] files[i]).0 == chosen.paths@[i]@
                            && is_file_content(replies, files[i].1)
                    &&& match investigation(config.llm, facts, files, replies, b) {
                        Run::On(Some(decision), c) => judged(config, facts, offered, replies, at)
                            == Run::On(JudgementView { selection: chosen, decision }, c),
                        Run::Ask(request) => judged(config, facts, offered, replies, at)
                            == Run::Ask::<JudgementView>(request),
                        _ => judged(config, facts, offered, replies, at) is Fail,
                    }
                },
                _ => !(judged(config, facts, offered, replies, at) is On),
            },
            _ => !(judged(config, facts, offered, replies, at) is On),
        },
{
    reveal(judged);
    if let Run::On(Some(chosen), a) = selection(config.llm, facts, offered, replies, at) {
        let paths = texts(chosen.paths@);
        let none = Seq::<(Seq<char>, Seq<char>)>::empty();
        lemma_read_files_are_limited(offered, paths, 0, 0, none, replies, a);
        if let Run::On(files, b) = files_read_from(offered, paths, 0, 0, none, replies, a) {
            assert forall|i: int| 0 <= i < files.len() implies (#[trigger] files[i]).0
                == chosen.paths@[i]@ && is_file_content(replies, files[i].1) by {
                assert(files[i].0 == paths[i - none.len() + 0]);
                assert(paths[i] == chosen.paths@[i]@);
            }
        }
    }
}

/// A candidate is prepared just for a judgement with changes and a contract with cases of regression,
/// and for a branch with tests, some of them of behaviour.
pub proof fn lemma_candidate_needs_changes_and_tests(
    decision: InvestigationView,
    branch: BranchConfig,
)
    ensures
        lacking(decision) is None <==> decision.changes.len() > 0 && (
        decision.review.fix_contract matches Some(contract) && contract.regression_cases.len() > 0),
        tests_lacking(branch) is None <==> branch.tests@.len() > 0 && branch.behavioral_tests,
{
}

/// The evidence of a candidate is all that its verifications give, and nothing else.
pub proof fn lemma_all_evidence_is_kept(
    results: Seq<SecurityContractVerificationDecision>,
    line: Seq<char>,
)
    ensures
        all_evidence(results).contains(line) <==> exists|i: int|
            0 <= i < results.len() && texts((#[trigger] results[i]).evidence@).contains(line),
    decreases results.len(),
{
    if results.len() > 0 {
        let before = results.drop_last();
        let last = texts(results.last().evidence@);
        lemma_all_evidence_is_kept(before, line);
        let all = all_evidence(results);
        let first = all_evidence(before);
        if all.contains(line) {
            let k = choose|k: int| 0 <= k < all.len() && all[k] == line;
            if k < first.len() {
                assert(first[k] == line);
                let i = choose|i: int|
                    0 <= i < before.len() && texts((#[trigger] before[i]).evidence@).contains(line);
                assert(results[i] == before[i]);
            } else {
                assert(last[k - first.len()] == line);
                assert(results[results.len() - 1] == results.last());
            }
        }
        if exists|i: int|
            0 <= i < results.len() && texts((#[trigger] results[i]).evidence@).contains(line) {
            let i = choose|i: int|
                0 <= i < results.len() && texts((#[trigger] results[i]).evidence@).contains(line);
            if i < before.len() {
                assert(before[i] == results[i]);
                let k = choose|k: int| 0 <= k < first.len() && first[k] == line;
                assert(all[k] == line);
            } else {
                let k = choose|k: int| 0 <= k < last.len() && last[k] == line;
                assert(all[first.len() + k] == line);
            }
        }
    }
}

/// Names of packages are compared in lower case and with hyphens for underscores.
pub proof fn lemma_names_are_compared_plainly(name: Seq<char>)
    ensures
        plain_name(name).len() == name.len(),
        forall|i: int|
            0 <= i < name.len() ==> plain_name(name)[i] == (if #[trigger] name[i] == '_' {
                '-'
            } else {
                ascii_lower(name)[i]
            }),
{
    reveal_strlit("_");
    reveal_strlit("-");
    let lower = ascii_lower(name);
    lemma_lower_case_changes_capitals(name);
    lemma_character_is_replaced_everywhere(lower, '_', '-');
    assert("_"@ =~= seq!['_']);
    assert("-"@ =~= seq!['-']);
    assert forall|i: int| 0 <= i < name.len() implies plain_name(name)[i] == (if #[trigger] name[i]
        == '_' {
        '-'
    } else {
        ascii_lower(name)[i]
    }) by {
        assert(lower[i] == '_' <==> name[i] == '_');
    }
}

} // verus!
