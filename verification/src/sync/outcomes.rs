//! What a run over the branches of a project comes to.

use vstd::prelude::*;

use crate::calls::git::GitView;
use crate::calls::notify::NotifyView;
use crate::calls::{RequestView, Tree};
use crate::config::{AutoResolveConfig, BranchConfig, Config, PushStrategy, RepoConfig};
use crate::journal::{asked, Reply, Run};
use crate::llm::laws::lemma_summary_asks_the_model;
use crate::protection::types::{
    disposition_label, CommitSecurityReviewBatch, EvaluatedSecurityReview,
};
use crate::replay::sync::lemma_branch_done_is_steady;
use crate::replay::{answers, hands_on, lemma_beginning, lemma_nothing_more, request_of};
use crate::repo::{AheadBehind, CommandOutput, ConflictSnapshot};
use crate::report::{BranchStatus, ReportView};
use crate::sync::auto_resolve::{
    first_outside, is_allowed, lies_in, refusal, rounds_of, with_stderr,
};
use crate::sync::checks::{
    blocked_lines, review_line, screened, test_failure, test_record, tested, tests_from,
};
use crate::sync::conflict::{
    aborted, checkout_request, conflict_lines, settled, started, sync_request, tree_lines,
    StartView,
};
use crate::sync::notify::{end_notified, noticed, noticed_from};
use crate::sync::publish::{
    push_line, push_request, pushed, remote_line, success, surveyed, tag_lines, tagged, tests_line,
    was_active, SurveyView,
};
use crate::sync::report::{listed, note_line, on_one_line, short};
use crate::sync::stage::{BranchView, StageView};
use crate::sync::steps::{fork_name, upstream_name};
use crate::sync::{
    branch_done, branch_once, branch_state, branch_with_retries, branches_done, is_selected, ready,
    status_run, sync_run, SyncOptions, Task, MAX_REMOTE_CHANGED_RETRIES,
};
use crate::text::number::{decimal, signed_decimal};
use crate::text::order::lemma_push_contains;
use crate::text::pattern::{begins_with, replaced, without_trailing};
use crate::text::{
    fitting_prefix, is_blank, joined, lemma_fitting_prefix_fits, lemma_utf8_len_concat, texts,
    trimmed, utf8_len,
};

verus! {

/// What looking at a branch asks for.
pub open spec fn state_asks(config: Config, branch: BranchConfig, at: nat) -> spec_fn(
    Seq<Reply>,
) -> Option<RequestView> {
    |replies: Seq<Reply>| request_of(branch_state(config, branch, replies, at))
}

/// How far a branch is from a reference, as it is shown.
pub open spec fn distance_shown(other: Seq<char>, distance: AheadBehind) -> Seq<char> {
    "vs "@ + other + ": ahead "@ + decimal(distance.ahead as nat) + ", behind "@ + decimal(
        distance.behind as nat,
    )
}

/// Whether a line tells how far a branch is from a reference: the reply at a position says whether
/// the reference is there, and if it is, the next reply is the distance between just this branch and
/// just this reference.
pub open spec fn tells_distance(
    asks: spec_fn(Seq<Reply>) -> Option<RequestView>,
    branch: BranchConfig,
    other: Seq<char>,
    missing: Seq<char>,
    replies: Seq<Reply>,
    at: int,
    line: Seq<char>,
) -> bool {
    ||| replies[at] == Reply::Flag(false) && line == missing + other
    ||| replies[at] == Reply::Flag(true) && answers(
        asks,
        replies,
        at + 1,
        RequestView::Git(Tree::Main, GitView::AheadBehind { branch: branch.name@, other }),
    ) && (replies[at + 1] matches Reply::Distance(distance) && line == distance_shown(
        other,
        distance,
    ))
}

/// Whether a report tells the state of a branch, from the replies from a position on: how far the
/// branch is from the base in the upstream, and how far from its place in the fork; a branch that is
/// not there is reported as failed.
pub open spec fn tells_state(
    config: Config,
    branch: BranchConfig,
    asks: spec_fn(Seq<Reply>) -> Option<RequestView>,
    replies: Seq<Reply>,
    at: nat,
    report: ReportView,
) -> bool {
    let second = if replies[(at + 2) as int] == Reply::Flag(true) {
        (at + 4) as int
    } else {
        (at + 3) as int
    };
    &&& report.branch == branch.name@
    &&& report.kind == branch.kind@
    &&& !report.active
    &&& answers(
        asks,
        replies,
        at as int,
        RequestView::Git(
            Tree::Main,
            GitView::LocalBranchExists { branch: branch.name@ },
        ),
    )
    &&& if replies[at as int] == Reply::Flag(false) {
        &&& report.status == BranchStatus::Failed
        &&& report.details == seq!["local branch not found"@]
        &&& report.head is None
    } else {
        &&& report.status == BranchStatus::Skipped
        &&& answers(
            asks,
            replies,
            (at + 1) as int,
            RequestView::Git(Tree::Main, GitView::ShortRef { name: branch.name@ }),
        )
        &&& replies[(at + 1) as int] matches Reply::Text(head) && report.head == Some(
            head@,
        )
        &&& report.details.len() == 3
        &&& report.details[0] == "status only: fetch completed, sync/test/push skipped"@
        &&& answers(
            asks,
            replies,
            (at + 2) as int,
            RequestView::Git(
                Tree::Main,
                GitView::RefExists { name: upstream_name(config.repo) },
            ),
        )
        &&& tells_distance(
            asks,
            branch,
            upstream_name(config.repo),
            "base ref not found: "@,
            replies,
            (at + 2) as int,
            report.details[1],
        )
        &&& answers(
            asks,
            replies,
            second,
            RequestView::Git(
                Tree::Main,
                GitView::RemoteBranchExists {
                    remote: config.repo.fork_remote@,
                    branch: branch.name@,
                },
            ),
        )
        &&& tells_distance(
            asks,
            branch,
            fork_name(config.repo, branch),
            "remote branch not found: "@,
            replies,
            second,
            report.details[2],
        )
    }
}

/// The report on a branch tells its state.
pub proof fn lemma_state_tells_distances(
    config: Config,
    branch: BranchConfig,
    replies: Seq<Reply>,
    at: nat,
)
    ensures
        branch_state(config, branch, replies, at) matches Run::On(report, _) ==> tells_state(
            config,
            branch,
            state_asks(config, branch, at),
            replies,
            at,
            report,
        ),
{
    if let Run::On(report, end) = branch_state(config, branch, replies, at) {
        if replies[at as int] == Reply::Flag(true) {
            let one = replies.take((at + 1) as int);
            assert(one[at as int] == replies[at as int]);
            let two = replies.take((at + 2) as int);
            assert(two[at as int] == replies[at as int]);
            assert(two[(at + 1) as int] == replies[(at + 1) as int]);
            let three = replies.take((at + 3) as int);
            assert(three[at as int] == replies[at as int]);
            assert(three[(at + 1) as int] == replies[(at + 1) as int]);
            assert(three[(at + 2) as int] == replies[(at + 2) as int]);
            if at + 4 <= replies.len() {
                let four = replies.take((at + 4) as int);
                assert(four[at as int] == replies[at as int]);
                assert(four[(at + 1) as int] == replies[(at + 1) as int]);
                assert(four[(at + 2) as int] == replies[(at + 2) as int]);
                assert(four[(at + 3) as int] == replies[(at + 3) as int]);
            }
            if at + 5 <= replies.len() {
                let five = replies.take((at + 5) as int);
                assert(five[at as int] == replies[at as int]);
                assert(five[(at + 1) as int] == replies[(at + 1) as int]);
                assert(five[(at + 2) as int] == replies[(at + 2) as int]);
                assert(five[(at + 3) as int] == replies[(at + 3) as int]);
                assert(five[(at + 4) as int] == replies[(at + 4) as int]);
            }
        }
    }
}

/// Whether a request looks at a branch, and at nothing else: at the branch itself, the base in the
/// upstream, and its place in the fork.
pub open spec fn looks_at(config: Config, branch: BranchConfig, request: RequestView) -> bool {
    ||| request == RequestView::Git(
        Tree::Main,
        GitView::LocalBranchExists { branch: branch.name@ },
    )
    ||| request == RequestView::Git(Tree::Main, GitView::ShortRef { name: branch.name@ })
    ||| request == RequestView::Git(
        Tree::Main,
        GitView::RefExists { name: upstream_name(config.repo) },
    )
    ||| request == RequestView::Git(
        Tree::Main,
        GitView::AheadBehind { branch: branch.name@, other: upstream_name(config.repo) },
    )
    ||| request == RequestView::Git(
        Tree::Main,
        GitView::RemoteBranchExists {
            remote: config.repo.fork_remote@,
            branch: branch.name@,
        },
    )
    ||| request == RequestView::Git(
        Tree::Main,
        GitView::AheadBehind { branch: branch.name@, other: fork_name(config.repo, branch) },
    )
}

/// Whether an option selects a branch: all of them, or the one of a name.
pub open spec fn selects_branch(options: SyncOptions, branch: BranchConfig) -> bool {
    options.branch is None || options.branch->0@ == branch.name@
}

proof fn lemma_branches_are_looked_at(
    config: Config,
    options: SyncOptions,
    next: nat,
    entries: Seq<ReportView>,
    replies: Seq<Reply>,
    at: nat,
)
    ensures
        branches_done(config, options, Task::Status, next, entries, replies, at) matches Run::Ask(
            request,
        ) ==> exists|i: int|
            0 <= i < config.branches@.len() && selects_branch(
                options,
                #[trigger] config.branches@[i],
            ) && looks_at(config, config.branches@[i], request),
    decreases config.branches@.len() - next,
{
    if next < config.branches@.len() {
        reveal(branch_done);
        let branch = config.branches@[next as int];
        if is_selected(options, branch) {
            if let Run::On(entry, end) = branch_done(config, Task::Status, branch, replies, at) {
                lemma_branches_are_looked_at(
                    config,
                    options,
                    next + 1,
                    entries.push(entry),
                    replies,
                    end,
                );
            }
        } else {
            lemma_branches_are_looked_at(config, options, next + 1, entries, replies, at);
        }
    }
}

/// A run that looks at branches makes the repository ready, in this order: that it is there, its
/// remotes, and what they have; and then looks at the selected branches only.
pub proof fn lemma_status_looks_at_selected_branches(
    config: Config,
    options: SyncOptions,
    replies: Seq<Reply>,
)
    ensures
        status_run(config, options, replies, 0) matches Run::Ask(request) ==> {
            ||| replies.len() == 0 && request == RequestView::Git(Tree::Main, GitView::EnsureRepo)
            ||| replies.len() == 1 && request == RequestView::Git(
                Tree::Main,
                GitView::EnsureRemotes,
            )
            ||| replies.len() == 2 && request == RequestView::Git(Tree::Main, GitView::FetchAll)
            ||| exists|i: int|
                0 <= i < config.branches@.len() && selects_branch(
                    options,
                    #[trigger] config.branches@[i],
                ) && looks_at(config, config.branches@[i], request)
        },
{
    lemma_branches_are_looked_at(config, options, 0, Seq::empty(), replies, 3);
}

/// What a run that looks at branches asks for.
pub open spec fn status_asks(config: Config, options: SyncOptions) -> spec_fn(Seq<Reply>) -> Option<
    RequestView,
> {
    |replies: Seq<Reply>| request_of(status_run(config, options, replies, 0))
}

/// What looking at the branches from one on asks for.
spec fn looking_asks(
    config: Config,
    options: SyncOptions,
    next: nat,
    entries: Seq<ReportView>,
    at: nat,
) -> spec_fn(Seq<Reply>) -> Option<RequestView> {
    |replies: Seq<Reply>|
        request_of(branches_done(config, options, Task::Status, next, entries, replies, at))
}

/// Whether an entry is what looking at a branch came to, from a position of a run on.
pub open spec fn is_seen(
    config: Config,
    branch: BranchConfig,
    whole: spec_fn(Seq<Reply>) -> Option<RequestView>,
    replies: Seq<Reply>,
    from: nat,
    entry: ReportView,
) -> bool {
    &&& branch_state(config, branch, replies, from) matches Run::On(report, _) && report == entry
    &&& hands_on(state_asks(config, branch, from), whole, from, replies)
}

/// Whether an entry is what looking at a selected branch came to, somewhere in a run.
pub open spec fn is_seen_somewhere(
    config: Config,
    options: SyncOptions,
    whole: spec_fn(Seq<Reply>) -> Option<RequestView>,
    replies: Seq<Reply>,
    entry: ReportView,
) -> bool {
    exists|b: int, from: nat|
        0 <= b < config.branches@.len() && selects_branch(options, config.branches@[b])
            && #[trigger] is_seen(config, config.branches@[b], whole, replies, from, entry)
}

proof fn lemma_entries_are_seen(
    config: Config,
    options: SyncOptions,
    whole: spec_fn(Seq<Reply>) -> Option<RequestView>,
    next: nat,
    entries: Seq<ReportView>,
    replies: Seq<Reply>,
    at: nat,
)
    requires
        hands_on(looking_asks(config, options, next, entries, at), whole, at, replies),
        forall|i: int|
            0 <= i < entries.len() ==> is_seen_somewhere(
                config,
                options,
                whole,
                replies,
                #[trigger] entries[i],
            ),
    ensures
        branches_done(config, options, Task::Status, next, entries, replies, at) matches Run::On(
            found,
            _,
        ) ==> forall|i: int|
            0 <= i < found.len() ==> is_seen_somewhere(
                config,
                options,
                whole,
                replies,
                #[trigger] found[i],
            ),
    decreases config.branches@.len() - next,
{
    if next < config.branches@.len() {
        reveal(branch_done);
        let branch = config.branches@[next as int];
        let here = looking_asks(config, options, next, entries, at);
        if !is_selected(options, branch) {
            let rest = looking_asks(config, options, next + 1, entries, at);
            assert forall|k: int|
                at <= k <= replies.len() && rest(#[trigger] replies.take(k)) is Some implies whole(
                replies.take(k),
            ) == rest(replies.take(k)) by {
                assert(here(replies.take(k)) == rest(replies.take(k)));
            }
            lemma_entries_are_seen(config, options, whole, next + 1, entries, replies, at);
        } else if let Run::On(entry, end) = branch_done(
            config,
            Task::Status,
            branch,
            replies,
            at,
        ) {
            let part = state_asks(config, branch, at);
            assert forall|k: int|
                at <= k <= replies.len() && part(#[trigger] replies.take(k)) is Some implies whole(
                replies.take(k),
            ) == part(replies.take(k)) by {
                assert(here(replies.take(k)) == part(replies.take(k)));
            }
            assert(is_seen(config, config.branches@[next as int], whole, replies, at, entry));
            let after = entries.push(entry);
            let rest = looking_asks(config, options, next + 1, after, end);
            assert(at <= end) by {
                lemma_nothing_more(replies);
                lemma_branch_done_is_steady(
                    config,
                    Task::Status,
                    branch,
                    replies,
                    Seq::empty(),
                    at,
                );
            }
            assert forall|k: int|
                end <= k <= replies.len() && rest(#[trigger] replies.take(k)) is Some implies whole(
                replies.take(k),
            ) == rest(replies.take(k)) by {
                lemma_beginning(replies, k);
                lemma_branch_done_is_steady(
                    config,
                    Task::Status,
                    branch,
                    replies.take(k),
                    replies.skip(k),
                    at,
                );
                assert(here(replies.take(k)) == rest(replies.take(k)));
            }
            lemma_entries_are_seen(config, options, whole, next + 1, after, replies, end);
        }
    }
}

/// Each entry of a run that looks at branches is what looking at a selected branch came to.
proof fn lemma_status_entries_are_seen(
    config: Config,
    options: SyncOptions,
    replies: Seq<Reply>,
)
    ensures
        status_run(config, options, replies, 0) matches Run::On(entries, _) ==> forall|i: int|
            0 <= i < entries.len() ==> is_seen_somewhere(
                config,
                options,
                status_asks(config, options),
                replies,
                #[trigger] entries[i],
            ),
{
    if let Run::On(_, at) = ready(replies, 0) {
        assert(at == 3);
        let none = Seq::<ReportView>::empty();
        let whole = status_asks(config, options);
        let part = looking_asks(config, options, 0, none, 3);
        assert forall|k: int|
            3 <= k <= replies.len() && part(#[trigger] replies.take(k)) is Some implies whole(
            replies.take(k),
        ) == part(replies.take(k)) by {
            let known = replies.take(k);
            assert(known[0] == replies[0]);
            assert(known[1] == replies[1]);
            assert(known[2] == replies[2]);
        }
        lemma_entries_are_seen(config, options, whole, 0, none, replies, 3);
    }
}

/// Whether an entry tells the state of a selected branch, from some place of a run on.
pub open spec fn tells_selected_state(
    config: Config,
    options: SyncOptions,
    asks: spec_fn(Seq<Reply>) -> Option<RequestView>,
    replies: Seq<Reply>,
    entry: ReportView,
) -> bool {
    exists|b: int, from: nat|
        0 <= b < config.branches@.len() && selects_branch(options, config.branches@[b])
            && #[trigger] tells_state(config, config.branches@[b], asks, replies, from, entry)
}

/// Each entry of a run that looks at branches tells the state of a selected branch: each of its lines
/// on a distance is made of the reply to a request, by that run, for just that distance.
pub proof fn lemma_status_tells_distances(
    config: Config,
    options: SyncOptions,
    replies: Seq<Reply>,
)
    ensures
        status_run(config, options, replies, 0) matches Run::On(entries, _) ==> forall|i: int|
            0 <= i < entries.len() ==> tells_selected_state(
                config,
                options,
                status_asks(config, options),
                replies,
                #[trigger] entries[i],
            ),
{
    lemma_status_entries_are_seen(config, options, replies);
    if let Run::On(entries, _) = status_run(config, options, replies, 0) {
        let whole = status_asks(config, options);
        assert forall|i: int| 0 <= i < entries.len() implies tells_selected_state(
            config,
            options,
            whole,
            replies,
            #[trigger] entries[i],
        ) by {
            assert(is_seen_somewhere(config, options, whole, replies, entries[i]));
            let (b, from) = choose|b: int, from: nat|
                0 <= b < config.branches@.len() && selects_branch(options, config.branches@[b])
                    && #[trigger] is_seen(
                    config,
                    config.branches@[b],
                    whole,
                    replies,
                    from,
                    entries[i],
                );
            lemma_state_tells_distances(config, config.branches@[b], replies, from);
            assert(tells_state(config, config.branches@[b], whole, replies, from, entries[i]));
        }
    }
}

/// The names of the selected branches from one on, in order.
pub open spec fn selected_names(config: Config, options: SyncOptions, next: nat) -> Seq<Seq<char>>
    decreases config.branches@.len() - next,
{
    if next >= config.branches@.len() {
        Seq::empty()
    } else {
        let rest = selected_names(config, options, next + 1);
        if selects_branch(options, config.branches@[next as int]) {
            seq![config.branches@[next as int].name@] + rest
        } else {
            rest
        }
    }
}

/// The names in a report.
pub open spec fn reported_names(entries: Seq<ReportView>) -> Seq<Seq<char>> {
    entries.map_values(|e: ReportView| e.branch)
}

/// Whether an outcome that ends a branch early is a report under its name and its kind, that the
/// branch failed or is in conflict; or else that the fork moved on.
pub open spec fn ends_branch(branch: BranchConfig, outcome: BranchView) -> bool {
    outcome matches BranchView::Report(report) ==> {
        &&& report.branch == branch.name@
        &&& report.kind == branch.kind@
        &&& report.status == BranchStatus::Failed || report.status == BranchStatus::Conflict
        &&& report.active
    }
}

#[verifier::rlimit(40)]
proof fn lemma_settling_ends(
    config: Config,
    branch: BranchConfig,
    start: StartView,
    output: CommandOutput,
    replies: Seq<Reply>,
    at: nat,
)
    ensures
        settled(config, branch, start, output, replies, at) matches Run::On(
            StageView::End(outcome),
            _,
        ) ==> ends_branch(branch, outcome),
{
    reveal(settled);
}

proof fn lemma_screening_ends(
    branch: BranchConfig,
    before_head: Seq<char>,
    details: Seq<Seq<char>>,
    replies: Seq<Reply>,
    at: nat,
)
    ensures
        screened(branch, before_head, details, replies, at) matches Run::On(
            StageView::End(outcome),
            _,
        ) ==> ends_branch(branch, outcome),
{
    reveal(screened);
}

proof fn lemma_testing_ends(
    config: Config,
    branch: BranchConfig,
    batch: Option<CommitSecurityReviewBatch>,
    details: Seq<Seq<char>>,
    replies: Seq<Reply>,
    at: nat,
)
    ensures
        tested(config, branch, batch, details, replies, at) matches Run::On(
            StageView::End(outcome),
            _,
        ) ==> ends_branch(branch, outcome),
{
    reveal(tested);
    lemma_tests_end(
        config.protection.enabled,
        branch,
        details,
        0,
        Seq::empty(),
        replies,
        at,
    );
}

proof fn lemma_publishing_ends(
    repo: RepoConfig,
    branch: BranchConfig,
    expected: Option<Seq<char>>,
    after_head: Seq<char>,
    replies: Seq<Reply>,
    at: nat,
)
    ensures
        pushed(repo, branch, expected, replies, at) matches Run::On(StageView::End(outcome), _)
            ==> ends_branch(branch, outcome),
        tagged(repo, branch, after_head, replies, at) matches Run::On(StageView::End(outcome), _)
            ==> ends_branch(branch, outcome),
{
    reveal(pushed);
    reveal(tagged);
}

/// Whatever is reported of a branch is reported under its name and its kind.
pub proof fn lemma_report_names_its_branch(
    config: Config,
    branch: BranchConfig,
    replies: Seq<Reply>,
    at: nat,
)
    ensures
        branch_once(config, branch, replies, at) matches Run::On(BranchView::Report(report), _)
            ==> report.branch == branch.name@ && report.kind == branch.kind@ && report.status
            != BranchStatus::Skipped && (report.status != BranchStatus::Success ==> report.active),
{
    if let Run::On(start, a) = started(config, branch, replies, at) {
        if let Run::On(output, b) = asked::<CommandOutput>(
            replies,
            a,
            sync_request(config.repo, branch),
        ) {
            lemma_settling_ends(config, branch, start, output, replies, b);
            if let Run::On(StageView::Go(details), c) = settled(
                config,
                branch,
                start,
                output,
                replies,
                b,
            ) {
                lemma_screening_ends(branch, start.before_head, details, replies, c);
                if let Run::On(StageView::Go(batch), d) = screened(
                    branch,
                    start.before_head,
                    details,
                    replies,
                    c,
                ) {
                    lemma_testing_ends(config, branch, batch, details, replies, d);
                    if let Run::On(StageView::Go(_), e) = tested(
                        config,
                        branch,
                        batch,
                        details,
                        replies,
                        d,
                    ) {
                        lemma_publication_ends(config, branch, start, replies, e);
                    }
                }
            }
        }
    }
}

proof fn lemma_publication_ends(
    config: Config,
    branch: BranchConfig,
    start: StartView,
    replies: Seq<Reply>,
    at: nat,
)
    ensures
        surveyed(config.repo, branch, start.remote_before is Some, replies, at) matches Run::On(
            survey,
            a,
        ) ==> {
            &&& pushed(config.repo, branch, start.remote_before, replies, a) matches Run::On(
                StageView::End(outcome),
                _,
            ) ==> ends_branch(branch, outcome)
            &&& pushed(config.repo, branch, start.remote_before, replies, a) matches Run::On(
                StageView::Go(_),
                b,
            ) ==> (tagged(config.repo, branch, survey.after_head, replies, b) matches Run::On(
                StageView::End(outcome),
                _,
            ) ==> ends_branch(branch, outcome))
        },
{
    if let Run::On(survey, a) = surveyed(
        config.repo,
        branch,
        start.remote_before is Some,
        replies,
        at,
    ) {
        lemma_publishing_ends(
            config.repo,
            branch,
            start.remote_before,
            survey.after_head,
            replies,
            a,
        );
        if let Run::On(StageView::Go(_), b) = pushed(
            config.repo,
            branch,
            start.remote_before,
            replies,
            a,
        ) {
            lemma_publishing_ends(
                config.repo,
                branch,
                start.remote_before,
                survey.after_head,
                replies,
                b,
            );
        }
    }
}

/// A test that fails ends a branch as failed: the report says which one, how it ended, what was
/// resolved before, and what it printed as errors.
proof fn lemma_tests_end(
    sandboxed: bool,
    branch: BranchConfig,
    details: Seq<Seq<char>>,
    next: nat,
    printed: Seq<char>,
    replies: Seq<Reply>,
    at: nat,
)
    ensures
        tests_from(sandboxed, branch, details, next, printed, replies, at)
            matches Run::On(StageView::End(outcome), end) ==> {
            &&& outcome matches BranchView::Report(report) && report.branch == branch.name@
                && report.kind == branch.kind@ && report.status == BranchStatus::Failed
                && report.active
            &&& next < branch.tests@.len()
            &&& at < end <= replies.len()
            &&& replies[end - 1] matches Reply::Output(output) && output.status != 0 && exists|
                i: int,
            |
                next <= i < branch.tests@.len() && outcome->Report_0.details == seq![
                    "test failed: "@ + (#[trigger] branch.tests@[i])@,
                    "exit code: "@ + signed_decimal(output.status as int),
                ] + details + (if is_blank(output.stderr@) {
                    Seq::<Seq<char>>::empty()
                } else {
                    seq!["stderr: "@ + on_one_line(output.stderr@)]
                })
        },
    decreases branch.tests@.len() - next,
{
    if next < branch.tests@.len() && at < replies.len() {
        if let Reply::Output(output) = replies[at as int] {
            let command = branch.tests@[next as int]@;
            if output.status == 0 {
                lemma_tests_end(
                    sandboxed,
                    branch,
                    details,
                    next + 1,
                    printed + test_record(command, output),
                    replies,
                    at + 1,
                );
            } else {
                let shown = seq![
                    "test failed: "@ + branch.tests@[next as int]@,
                    "exit code: "@ + signed_decimal(output.status as int),
                ] + details + (if is_blank(output.stderr@) {
                    Seq::<Seq<char>>::empty()
                } else {
                    seq!["stderr: "@ + on_one_line(output.stderr@)]
                });
                assert(test_failure(branch, command, output, details).details =~= shown);
            }
        }
    }
}

proof fn lemma_retried_names(
    config: Config,
    branch: BranchConfig,
    retries: nat,
    replies: Seq<Reply>,
    at: nat,
)
    ensures
        branch_with_retries(config, branch, retries, replies, at) matches Run::On(report, _)
            ==> report.branch == branch.name@ && report.kind == branch.kind@ && report.status
            != BranchStatus::Skipped,
    decreases retries,
{
    lemma_report_names_its_branch(config, branch, replies, at);
    if retries > 0 {
        if let Run::On(_, a) = branch_once(config, branch, replies, at) {
            if let Run::On(_, b) = aborted(replies, a) {
                lemma_retried_names(config, branch, (retries - 1) as nat, replies, b);
            }
        }
    }
}

proof fn lemma_branches_are_reported(
    config: Config,
    options: SyncOptions,
    task: Task,
    next: nat,
    entries: Seq<ReportView>,
    replies: Seq<Reply>,
    at: nat,
)
    ensures
        branches_done(config, options, task, next, entries, replies, at) matches Run::On(found, _)
            ==> {
            &&& reported_names(found) == reported_names(entries) + selected_names(
                config,
                options,
                next,
            )
            &&& entries.len() <= found.len()
            &&& found.take(entries.len() as int) == entries
            &&& forall|i: int|
                entries.len() <= i < found.len() ==> ((#[trigger] found[i]).status
                    == BranchStatus::Skipped) == (task == Task::DryRun || task == Task::Status
                    && found[i].status != BranchStatus::Failed)
            &&& task == Task::DryRun ==> forall|i: int|
                entries.len() <= i < found.len() ==> (#[trigger] found[i]).details == seq![
                    "dry run: fetch completed, sync/test/push skipped"@,
                ]
        },
    decreases config.branches@.len() - next,
{
    if next < config.branches@.len() {
        let branch = config.branches@[next as int];
        if is_selected(options, branch) {
            reveal(branch_done);
            lemma_retried_names(
                config,
                branch,
                MAX_REMOTE_CHANGED_RETRIES as nat,
                replies,
                at,
            );
            if let Run::On(entry, end) = branch_done(config, task, branch, replies, at) {
                lemma_branches_are_reported(
                    config,
                    options,
                    task,
                    next + 1,
                    entries.push(entry),
                    replies,
                    end,
                );
                assert(reported_names(entries.push(entry)) + selected_names(
                    config,
                    options,
                    next + 1,
                ) =~= reported_names(entries) + selected_names(config, options, next));
                if let Run::On(found, _) = branches_done(
                    config,
                    options,
                    task,
                    next,
                    entries,
                    replies,
                    at,
                ) {
                    assert(found.take(entries.len() as int) =~= found.take(
                        entries.push(entry).len() as int,
                    ).take(entries.len() as int));
                    assert(entries.push(entry).take(entries.len() as int) =~= entries);
                    assert(found[entries.len() as int] == found.take(
                        entries.push(entry).len() as int,
                    )[entries.len() as int]);
                }
            }
        } else {
            lemma_branches_are_reported(config, options, task, next + 1, entries, replies, at);
        }
    } else {
        assert(reported_names(entries) + Seq::<Seq<char>>::empty() =~= reported_names(entries));
        assert(entries.take(entries.len() as int) =~= entries);
    }
}

/// A run reports each selected branch once, in the order of the settings, and no other. A dry run
/// reports each as skipped, a look at the branches as skipped or not there, and any other run never
/// as skipped.
pub proof fn lemma_run_reports_selected_branches(
    config: Config,
    options: SyncOptions,
    replies: Seq<Reply>,
)
    ensures
        sync_run(config, options, replies, 0) matches Run::On(entries, _) ==> {
            &&& reported_names(entries) == selected_names(config, options, 0)
            &&& forall|i: int|
                0 <= i < entries.len() ==> ((#[trigger] entries[i]).status
                    == BranchStatus::Skipped) == options.dry_run
            &&& options.dry_run ==> forall|i: int|
                0 <= i < entries.len() ==> (#[trigger] entries[i]).details == seq![
                    "dry run: fetch completed, sync/test/push skipped"@,
                ]
        },
        status_run(config, options, replies, 0) matches Run::On(entries, _) ==> reported_names(
            entries,
        ) == selected_names(config, options, 0),
{
    let none = Seq::<ReportView>::empty();
    assert(reported_names(none) =~= Seq::<Seq<char>>::empty());
    assert(Seq::<Seq<char>>::empty() + selected_names(config, options, 0) =~= selected_names(
        config,
        options,
        0,
    ));
    lemma_branches_are_reported(config, options, Task::Status, 0, none, replies, 3);
    lemma_branches_are_reported(config, options, Task::DryRun, 0, none, replies, 3);
    lemma_branches_are_reported(config, options, Task::Sync, 0, none, replies, 3);
}

/// A branch is pushed to its place in the fork. The push is forced only where the settings say so and
/// the branch was there already, and then only if it still is where it was.
pub proof fn lemma_push_is_as_set(
    repo: RepoConfig,
    branch: BranchConfig,
    expected: Option<Seq<char>>,
)
    ensures
        push_request(repo, branch, expected) == (if branch.push == PushStrategy::ForceWithLease
            && expected is Some {
            RequestView::Git(
                Tree::Main,
                GitView::PushWithLease {
                    remote: repo.fork_remote@,
                    branch: branch.name@,
                    expected: expected->0,
                },
            )
        } else {
            RequestView::Git(
                Tree::Main,
                GitView::Push { remote: repo.fork_remote@, branch: branch.name@ },
            )
        }),
{
}

/// A branch that is pushed and is in the fork is checked out where the fork has it; any other is
/// checked out as it is here.
pub proof fn lemma_checkout_is_as_set(
    repo: RepoConfig,
    branch: BranchConfig,
    remote_before: Option<String>,
)
    ensures
        checkout_request(repo, branch, remote_before) == (if remote_before is Some && branch.push
            != PushStrategy::Skip {
            RequestView::Git(
                Tree::Main,
                GitView::CheckoutAt { branch: branch.name@, start: fork_name(repo, branch) },
            )
        } else {
            RequestView::Git(Tree::Main, GitView::Checkout { branch: branch.name@ })
        }),
{
}

/// Whether a path is an allowed one or lies below it, with slashes either way and none at the end of
/// the allowed one.
pub open spec fn is_below(path: Seq<char>, allowed: Seq<char>) -> bool {
    let plain = replaced(path, "\\"@, "/"@);
    exists|root: Seq<char>|
        {
            &&& #[trigger] is_root_of(root, allowed)
            &&& plain == root || plain.len() > root.len() && plain.take(root.len() as int) == root
                && plain[root.len() as int] == '/'
        }
}

/// Whether a text is an allowed path without the slashes at its end.
pub open spec fn is_root_of(root: Seq<char>, allowed: Seq<char>) -> bool {
    let plain = replaced(allowed, "\\"@, "/"@);
    &&& root.len() <= plain.len()
    &&& plain.take(root.len() as int) == root
    &&& forall|i: int| root.len() <= i < plain.len() ==> #[trigger] plain[i] == '/'
    &&& root.len() > 0 ==> root.last() != '/'
}

/// A text without a character at its end is the text up to where only that character follows.
pub proof fn lemma_without_trailing(text: Seq<char>, c: char)
    ensures
        ({
            let root = without_trailing(text, c);
            &&& root.len() <= text.len()
            &&& text.take(root.len() as int) == root
            &&& forall|i: int| root.len() <= i < text.len() ==> #[trigger] text[i] == c
            &&& root.len() > 0 ==> root.last() != c
        }),
    decreases text.len(),
{
    if text.len() > 0 && text.last() == c {
        let rest = text.drop_last();
        lemma_without_trailing(rest, c);
        let root = without_trailing(text, c);
        assert(text.take(root.len() as int) =~= rest.take(root.len() as int));
        assert forall|i: int| root.len() <= i < text.len() implies #[trigger] text[i] == c by {
            if i < rest.len() {
                assert(rest[i] == text[i]);
            }
        }
    } else {
        assert(text.take(text.len() as int) =~= text);
    }
}

/// A path is allowed just where it is one of the allowed paths or lies below one.
pub proof fn lemma_allowed_is_below(path: Seq<char>, allowed: Seq<Seq<char>>)
    ensures
        is_allowed(path, allowed) <==> exists|i: int|
            0 <= i < allowed.len() && is_below(path, #[trigger] allowed[i]),
{
    reveal_strlit("/");
    assert forall|i: int| 0 <= i < allowed.len() implies lies_in(path, #[trigger] allowed[i])
        == is_below(path, allowed[i]) by {
        let entry = allowed[i];
        let plain = replaced(entry, "\\"@, "/"@);
        let root = without_trailing(plain, '/');
        let shown = replaced(path, "\\"@, "/"@);
        lemma_without_trailing(plain, '/');
        assert(is_root_of(root, entry));
        let prefix = root + "/"@;
        if begins_with(shown, prefix) {
            assert(shown.subrange(0, prefix.len() as int) == prefix);
            assert(shown.take(root.len() as int) =~= root) by {
                assert forall|j: int| 0 <= j < root.len() implies shown[j] == root[j] by {
                    assert(shown.subrange(0, prefix.len() as int)[j] == prefix[j]);
                }
            }
            assert(shown.subrange(0, prefix.len() as int)[root.len() as int]
                == prefix[root.len() as int]);
        }
        if is_below(path, entry) {
            let other = choose|other: Seq<char>|
                {
                    &&& #[trigger] is_root_of(other, entry)
                    &&& shown == other || shown.len() > other.len() && shown.take(
                        other.len() as int,
                    ) == other && shown[other.len() as int] == '/'
                };
            assert(other =~= root) by {
                if other.len() < root.len() {
                    assert(plain[root.len() - 1] == '/');
                    assert(plain.take(root.len() as int)[root.len() - 1] == root.last());
                } else if root.len() < other.len() {
                    assert(plain[other.len() - 1] == '/');
                    assert(plain.take(other.len() as int)[other.len() - 1] == other.last());
                }
            }
            if shown != root {
                assert(shown.subrange(0, prefix.len() as int) =~= prefix) by {
                    assert forall|j: int| 0 <= j < prefix.len() implies shown[j] == prefix[j] by {
                        if j < root.len() {
                            assert(shown.take(root.len() as int)[j] == root[j]);
                        }
                    }
                }
            }
        }
    }
    if is_allowed(path, allowed) {
        let i = choose|i: int| 0 <= i < allowed.len() && #[trigger] lies_in(path, allowed[i]);
        assert(is_below(path, allowed[i]));
    }
    if exists|i: int| 0 <= i < allowed.len() && is_below(path, #[trigger] allowed[i]) {
        let i = choose|i: int| 0 <= i < allowed.len() && is_below(path, #[trigger] allowed[i]);
        assert(lies_in(path, allowed[i]));
    }
}

/// Conflicts are refused just where they are in more files than the limit says, or one of the files
/// is not allowed.
pub proof fn lemma_refusal_has_a_reason(config: AutoResolveConfig, files: Seq<Seq<char>>)
    ensures
        refusal(config, files) is None <==> files.len() <= config.max_conflict_files && (forall|
            i: int,
        |
            0 <= i < files.len() ==> is_allowed(#[trigger] files[i], texts(config.allowed_paths@))),
{
    lemma_outside(files, texts(config.allowed_paths@));
}

/// Conflicts have no file outside the allowed paths just where each is allowed.
pub proof fn lemma_outside(files: Seq<Seq<char>>, allowed: Seq<Seq<char>>)
    ensures
        first_outside(files, allowed) is None <==> (forall|i: int|
            0 <= i < files.len() ==> is_allowed(#[trigger] files[i], allowed)),
        first_outside(files, allowed) matches Some(path) ==> files.contains(path) && !is_allowed(
            path,
            allowed,
        ),
    decreases files.len(),
{
    if files.len() > 0 {
        let rest = files.skip(1);
        lemma_outside(rest, allowed);
        assert forall|i: int| 0 <= i < rest.len() implies #[trigger] rest[i] == files[i + 1] by {}
        if first_outside(files, allowed) is None {
            assert forall|i: int| 0 <= i < files.len() implies is_allowed(
                #[trigger] files[i],
                allowed,
            ) by {
                if i > 0 {
                    assert(rest[i - 1] == files[i]);
                }
            }
        }
        if let Some(path) = first_outside(files, allowed) {
            if is_allowed(files[0], allowed) {
                let i = choose|i: int| 0 <= i < rest.len() && rest[i] == path;
                assert(files[i + 1] == path);
            } else {
                assert(files[0] == path);
            }
        }
    }
}

/// There is at least one round, and no more than the settings say.
pub proof fn lemma_rounds_are_limited(config: AutoResolveConfig)
    ensures
        rounds_of(config) == (if config.max_rounds == 0 {
            1
        } else {
            config.max_rounds as nat
        }),
{
}

/// A branch counts as active just where the upstream had commits, there were commits or files to
/// push, the branch moved, or a tag was pushed.
pub proof fn lemma_active_has_a_reason(start: StartView, survey: SurveyView, tag: Option<Seq<char>>)
    ensures
        was_active(start, survey, tag) <==> !(start.upstream.len() == 0 && survey.commits.len() == 0
            && survey.files.len() == 0 && start.before_head == survey.after_head && tag is None),
{
}

/// What is reported of a branch that came through, line by line.
pub proof fn lemma_success_is_reported(
    repo: RepoConfig,
    branch: BranchConfig,
    start: StartView,
    survey: SurveyView,
    tag: Option<Seq<char>>,
    details: Seq<Seq<char>>,
)
    ensures
        ({
            let report = success(repo, branch, start, survey, tag, details);
            let lines = report.details;
            &&& report.status == BranchStatus::Success
            &&& report.head == Some(survey.after_head)
            &&& lines[0] == (match branch.note {
                Some(note) => "note: "@ + note@,
                None => "note: none"@,
            })
            &&& lines[1] == "before sync: "@ + start.before_head
            &&& lines[2] == "after sync: "@ + survey.after_head
            &&& lines[3] == "target base: "@ + upstream_name(repo) + " @ "@ + start.base_head
            &&& lines[4] == "remote before push: "@ + fork_name(repo, branch) + (
            match start.remote_before {
                Some(head) => " @ "@ + head.take(if head.len() < 8 {
                    head.len() as int
                } else {
                    8
                }),
                None => " not found"@,
            })
            &&& lines[lines.len() - 2] == (if branch.tests@.len() == 0 {
                "no tests configured"@
            } else {
                decimal(branch.tests@.len()) + " test command(s) passed"@
            })
            &&& lines.last() == (if branch.push == PushStrategy::Skip {
                "push skipped by config"@
            } else {
                "pushed to "@ + fork_name(repo, branch)
            })
            &&& forall|i: int| 0 <= i < details.len() ==> lines.contains(#[trigger] details[i])
            &&& tag matches Some(name) ==> lines.contains("release tag pushed: "@ + name)
            &&& forall|i: int|
                0 <= i < start.upstream.len() ==> lines.contains(
                    "  "@ + #[trigger] start.upstream[i],
                )
            &&& forall|i: int|
                0 <= i < survey.commits.len() ==> lines.contains(
                    "  "@ + #[trigger] survey.commits[i],
                )
            &&& forall|i: int|
                0 <= i < survey.files.len() ==> lines.contains("  "@ + #[trigger] survey.files[i])
        }),
{
    let first = seq![
        note_line(branch),
        "before sync: "@ + start.before_head,
        "after sync: "@ + survey.after_head,
        "target base: "@ + upstream_name(repo) + " @ "@ + start.base_head,
        remote_line(fork_name(repo, branch), start.remote_before),
    ];
    let upstream = listed("upstream commits included"@, start.upstream);
    let commits = listed("commits pushed to remote"@, survey.commits);
    let files = listed("files pushed to remote"@, survey.files);
    let tags = tag_lines(tag);
    let last = seq![
        tests_line(branch.tests@.len()),
        push_line(branch, fork_name(repo, branch)),
    ];
    let lines = success(repo, branch, start, survey, tag, details).details;
    assert(lines == first + upstream + commits + files + tags + details + last);
    let a = first.len();
    let b = a + upstream.len();
    let c = b + commits.len();
    let d = c + files.len();
    let e = d + tags.len();
    if let Some(head) = start.remote_before {
        assert("remote before push: "@ + fork_name(repo, branch) + " @ "@ + short(head)
            =~= "remote before push: "@ + fork_name(repo, branch) + (" @ "@ + short(head)));
    } else {
        assert("remote before push: "@ + fork_name(repo, branch) + " not found"@
            =~= "remote before push: "@ + fork_name(repo, branch) + (" not found"@));
    }
    assert forall|i: int| 0 <= i < details.len() implies lines.contains(#[trigger] details[i]) by {
        assert(lines[e + i] == details[i]);
    }
    if let Some(name) = tag {
        assert(lines[d as int] == "release tag pushed: "@ + name);
    }
    assert forall|i: int| 0 <= i < start.upstream.len() implies lines.contains(
        "  "@ + #[trigger] start.upstream[i],
    ) by {
        assert(lines[a + 1 + i] == "  "@ + start.upstream[i]);
    }
    assert forall|i: int| 0 <= i < survey.commits.len() implies lines.contains(
        "  "@ + #[trigger] survey.commits[i],
    ) by {
        assert(lines[b + 1 + i] == "  "@ + survey.commits[i]);
    }
    assert forall|i: int| 0 <= i < survey.files.len() implies lines.contains(
        "  "@ + #[trigger] survey.files[i],
    ) by {
        assert(lines[c + 1 + i] == "  "@ + survey.files[i]);
    }
}

/// What is reported of a conflict that was given up, line by line.
pub proof fn lemma_conflict_is_reported(
    branch: BranchConfig,
    base: Seq<char>,
    start: StartView,
    status: i32,
    snapshot: ConflictSnapshot,
    details: Seq<Seq<char>>,
)
    ensures
        ({
            let lines = conflict_lines(branch, base, start, status, snapshot, details);
            &&& lines[0] == (match branch.note {
                Some(note) => "note: "@ + note@,
                None => "note: none"@,
            })
            &&& lines[1] == "before sync: "@ + start.before_head
            &&& lines[2] == "target base: "@ + base + " @ "@ + start.base_head
            &&& lines[3] == "sync failed with code "@ + signed_decimal(status as int)
                + " against "@ + base
            &&& lines[4] == "conflict files: "@ + joined(texts(snapshot.files@), ", "@)
            &&& forall|i: int| 0 <= i < details.len() ==> lines.contains(#[trigger] details[i])
            &&& forall|i: int|
                0 <= i < start.upstream.len() ==> lines.contains(
                    "  "@ + #[trigger] start.upstream[i],
                )
            &&& !is_blank(snapshot.status@) ==> lines.contains(
                "git status: "@ + replaced(snapshot.status@, "\n"@, "; "@),
            )
            &&& !is_blank(snapshot.combined_diff@) ==> lines.contains(
                "combined diff captured for future LLM analysis"@,
            )
        }),
{
    let upstream = listed("upstream commits planned"@, start.upstream);
    let tree = tree_lines(snapshot);
    let lines = conflict_lines(branch, base, start, status, snapshot, details);
    let a: int = 5;
    let b = a + upstream.len();
    let c = b + details.len();
    assert forall|i: int| 0 <= i < details.len() implies lines.contains(#[trigger] details[i]) by {
        assert(lines[b + i] == details[i]);
    }
    assert forall|i: int| 0 <= i < start.upstream.len() implies lines.contains(
        "  "@ + #[trigger] start.upstream[i],
    ) by {
        assert(lines[a + 1 + i] == "  "@ + start.upstream[i]);
    }
    if !is_blank(snapshot.status@) {
        assert(lines[c] == tree[0]);
    }
    if !is_blank(snapshot.combined_diff@) {
        assert(lines[lines.len() - 1] == tree.last());
    }
}

/// A review is reported as blocking just where it does not allow its commit.
pub proof fn lemma_blocked_reviews_are_reported(
    reviews: Seq<EvaluatedSecurityReview>,
    line: Seq<char>,
)
    ensures
        blocked_lines(reviews).contains(line) <==> exists|i: int|
            0 <= i < reviews.len() && !((#[trigger] reviews[i]).disposition is Allow) && line
                == reviews[i].commit@ + " "@ + disposition_label(
                reviews[i].disposition@,
            ) + ": "@ + reviews[i].decision.summary@,
    decreases reviews.len(),
{
    if reviews.len() > 0 {
        let before = reviews.drop_last();
        lemma_blocked_reviews_are_reported(before, line);
        lemma_push_contains(blocked_lines(before), review_line(reviews.last()));
        if blocked_lines(before).contains(line) {
            let i = choose|i: int|
                0 <= i < before.len() && !((#[trigger] before[i]).disposition is Allow) && line
                    == before[i].commit@ + " "@ + disposition_label(
                    before[i].disposition@,
                ) + ": "@ + before[i].decision.summary@;
            assert(reviews[i] == before[i]);
        }
        if !(reviews.last().disposition is Allow) && line == review_line(reviews.last()) {
            assert(reviews[reviews.len() - 1] == reviews.last());
        }
        if exists|i: int|
            0 <= i < reviews.len() && !((#[trigger] reviews[i]).disposition is Allow) && line
                == reviews[i].commit@ + " "@ + disposition_label(
                reviews[i].disposition@,
            ) + ": "@ + reviews[i].decision.summary@ {
            let i = choose|i: int|
                0 <= i < reviews.len() && !((#[trigger] reviews[i]).disposition is Allow) && line
                    == reviews[i].commit@ + " "@ + disposition_label(
                    reviews[i].disposition@,
                ) + ": "@ + reviews[i].decision.summary@;
            if i < before.len() {
                assert(before[i] == reviews[i]);
            }
        }
    }
}

/// What a test printed is recorded with its command before it.
pub proof fn lemma_test_is_recorded(command: Seq<char>, output: CommandOutput)
    ensures
        test_record(command, output) == "$ "@ + command + "\n"@ + output.stdout@ + "\n"@
            + output.stderr@ + "\n"@,
{
}

/// Errors on one line hold no line break and no more than five hundred bytes and three dots.
pub proof fn lemma_line_is_limited(text: Seq<char>)
    ensures
        utf8_len(on_one_line(text)) <= 500 + utf8_len("..."@),
{
    let line = replaced(replaced(text, "\r"@, ""@), "\n"@, " | "@);
    if utf8_len(line) > 500 {
        lemma_fitting_prefix_fits(line, 500);
        lemma_utf8_len_concat(fitting_prefix(line, 500), "..."@);
    }
}

/// Errors that print nothing add no line, and any others add one.
pub proof fn lemma_errors_are_told(
    details: Seq<Seq<char>>,
    title: Seq<char>,
    stderr: Seq<char>,
)
    ensures
        with_stderr(details, title, stderr) == (if trimmed(stderr).len() == 0 {
            details
        } else {
            details.push(title + on_one_line(stderr))
        }),
{
}

/// The entries from one on that say that a branch failed or is in conflict.
pub open spec fn troubles(entries: Seq<ReportView>, next: nat) -> Seq<ReportView>
    decreases entries.len() - next,
{
    if next >= entries.len() {
        Seq::empty()
    } else {
        let entry = entries[next as int];
        let rest = troubles(entries, next + 1);
        if entry.status == BranchStatus::Failed || entry.status == BranchStatus::Conflict {
            seq![entry] + rest
        } else {
            rest
        }
    }
}

/// Without summaries, each branch that failed or is in conflict is told of, in order, and no other:
/// under its name and how it stands, with all that is reported of it.
pub proof fn lemma_every_trouble_is_told(
    entries: Seq<ReportView>,
    next: nat,
    replies: Seq<Reply>,
    at: nat,
)
    requires
        at <= replies.len(),
    ensures
        match noticed_from(entries, next, replies, at) {
            Run::Ask(request) => {
                let told = replies.len() - at;
                let all = troubles(entries, next);
                &&& told < all.len()
                &&& request == RequestView::Notify(
                    NotifyView::Failure {
                        subject: all[told].branch + " "@ + (if all[told].status
                            == BranchStatus::Failed {
                            "Failed"@
                        } else {
                            "Conflict"@
                        }),
                        entry: all[told],
                    },
                )
            },
            Run::On(_, end) => end == at + troubles(entries, next).len() && end <= replies.len(),
            Run::Fail(_, _) => false,
        },
    decreases entries.len() - next,
{
    if next < entries.len() {
        let entry = entries[next as int];
        if let Run::On(_, end) = noticed(entry, replies, at) {
            lemma_every_trouble_is_told(entries, next + 1, replies, end);
        }
    }
}

/// What the end of a run is told by: without summaries, a message for each branch in trouble; with
/// them, one message on the whole report, where something happened or such messages are asked for,
/// and none otherwise.
pub proof fn lemma_end_is_told(
    config: Config,
    notify_on_noop: bool,
    entries: Seq<ReportView>,
    replies: Seq<Reply>,
    at: nat,
)
    requires
        at <= replies.len(),
    ensures
        end_notified(config, notify_on_noop, entries, replies, at) matches Run::Ask(request) ==> {
            if !config.notify.sync_summary {
                request matches RequestView::Notify(NotifyView::Failure { entry, .. })
                    && entries.contains(entry)
            } else {
                &&& notify_on_noop || exists|i: int|
                    0 <= i < entries.len() && (#[trigger] entries[i]).active
                &&& if replies.len() == at {
                    request == RequestView::Notify(NotifyView::Render { entries })
                } else {
                    ||| request is Model
                    ||| (request matches RequestView::Notify(
                        NotifyView::Summary { report, .. },
                    ) && (replies[at as int] matches Reply::Text(text) && report == text@))
                }
            }
        },
        config.notify.sync_summary && (notify_on_noop || exists|i: int|
            0 <= i < entries.len() && (#[trigger] entries[i]).active) && at == replies.len()
            ==> end_notified(config, notify_on_noop, entries, replies, at) is Ask,
{
    if !config.notify.sync_summary {
        lemma_every_trouble_is_told(entries, 0, replies, at);
        if let Run::Ask(_) = noticed_from(entries, 0, replies, at) {
            lemma_troubles_are_entries(entries, 0, replies.len() - at);
        }
    } else if let Run::On(text, after) = asked::<String>(
        replies,
        at,
        RequestView::Notify(NotifyView::Render { entries }),
    ) {
        lemma_summary_asks_the_model(config.llm, text@, replies, after);
    }
}

proof fn lemma_troubles_are_entries(entries: Seq<ReportView>, next: nat, i: int)
    requires
        0 <= i < troubles(entries, next).len(),
    ensures
        entries.contains(troubles(entries, next)[i]),
    decreases entries.len() - next,
{
    let entry = entries[next as int];
    let rest = troubles(entries, next + 1);
    if entry.status == BranchStatus::Failed || entry.status == BranchStatus::Conflict {
        if i > 0 {
            lemma_troubles_are_entries(entries, next + 1, i - 1);
        }
    } else {
        lemma_troubles_are_entries(entries, next + 1, i);
    }
}

} // verus!
