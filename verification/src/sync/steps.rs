//! What a run over the branches of a project asks for, request by request.

use vstd::prelude::*;

use crate::calls::conflict::ConflictView;
use crate::calls::git::GitView;
use crate::calls::notify::NotifyView;
use crate::calls::protect::ProtectionView;
use crate::calls::{RequestView, Tree};
use crate::command::git;
use crate::config::{BranchConfig, Config, PushStrategy, RepoConfig, SyncStrategy};
use crate::journal::{asked, Reply, Run};
use crate::llm::laws::{lemma_analysis_asks_the_model, lemma_resolution_asks_the_model};
use crate::repo::{
    CommandOutput, ConflictFileContent, ConflictSnapshot, ResolvedFile, SyncPatchContext,
};
use crate::sync::auto_resolve::{
    advance, attempt, branch_facts, continuation, continue_from, head_or_empty, patch_or_unknown,
    round_line, round_on, round_run, rounds_from, rounds_of, solved, staged, with_stderr,
    written_from, ContinueView, RoundView, MAX_CONTINUES, PATCH_CONTEXT_BYTES, SNAPSHOT_BYTES,
};
use crate::sync::checks::{screened, test_record, tested, tests_from};
use crate::sync::conflict::{
    abandoned, aborted, base_ref, resolved_from, settled, started, sync_request, StartView,
};
use crate::sync::publish::{pushed, surveyed, tagged};
use crate::sync::report::on_one_line;
use crate::sync::stage::StageView;
use crate::sync::branch_once;
use crate::text::{joined, texts};

verus! {

/// What a branch is brought in step with: the base branch of the upstream.
pub open spec fn upstream_name(repo: RepoConfig) -> Seq<char> {
    repo.upstream_remote@ + "/"@ + repo.base_branch@
}

/// Where a branch is pushed to: the branch of the same name in the fork.
pub open spec fn fork_name(repo: RepoConfig, branch: BranchConfig) -> Seq<char> {
    repo.fork_remote@ + "/"@ + branch.name@
}

/// Whether a text stands among the replies as what was asked for.
pub open spec fn was_given(replies: Seq<Reply>, text: Seq<char>) -> bool {
    exists|k: int|
        0 <= k < replies.len() && match #[trigger] replies[k] {
            Reply::Text(found) => found@ == text,
            Reply::Maybe(Some(found)) => found@ == text,
            _ => false,
        }
}

/// Whether a range of commits is one that a branch is looked at by: what the upstream has since a
/// commit that was given, or what the fork does not have yet.
pub open spec fn is_range(
    repo: RepoConfig,
    branch: BranchConfig,
    replies: Seq<Reply>,
    range: Seq<char>,
) -> bool {
    ||| range == "HEAD"@
    ||| range == fork_name(repo, branch) + "..HEAD"@
    ||| exists|start: Seq<char>|
        was_given(replies, start) && range == #[trigger] (start + ".."@ + upstream_name(repo))
}

/// Whether a range of files is one that a branch is looked at by: what the fork does not have yet,
/// or the last commit, where that was given.
pub open spec fn is_file_range(
    repo: RepoConfig,
    branch: BranchConfig,
    replies: Seq<Reply>,
    range: Seq<char>,
) -> bool {
    ||| range == fork_name(repo, branch) + "..HEAD"@
    ||| exists|head: Seq<char>|
        was_given(replies, head) && range == #[trigger] (head + "^.."@ + head)
}

/// Whether a call of git is one that bringing a branch in step makes: on this branch, its base and
/// its place in the fork, the way the settings of the branch say.
pub open spec fn is_git_step(
    config: Config,
    branch: BranchConfig,
    replies: Seq<Reply>,
    call: GitView,
) -> bool {
    let repo = config.repo;
    match call {
        GitView::FetchBranch { remote, branch: name } => remote == repo.fork_remote@ && name
            == branch.name@,
        GitView::RemoteHead { remote, branch: name } => remote == repo.fork_remote@ && name
            == branch.name@,
        GitView::CheckoutAt { branch: name, start } => name == branch.name@ && start == fork_name(
            repo,
            branch,
        ) && branch.push != PushStrategy::Skip,
        GitView::Checkout { branch: name } => name == branch.name@,
        GitView::Head => true,
        GitView::ShortRef { name } => name == upstream_name(repo),
        GitView::MergeBase { left, right } => left == "HEAD"@ && right == upstream_name(repo),
        GitView::Log { range, limit } => limit == 12 && is_range(repo, branch, replies, range),
        GitView::ChangedFiles { range, limit } => limit == 30 && is_file_range(
            repo,
            branch,
            replies,
            range,
        ),
        GitView::Rebase { base } => branch.sync == SyncStrategy::Rebase && base == upstream_name(
            repo,
        ),
        GitView::Merge { base } => branch.sync == SyncStrategy::Merge && base == upstream_name(
            repo,
        ),
        GitView::Continue { strategy } => strategy == branch.sync,
        GitView::Abort => true,
        GitView::Snapshot { limit } => limit == 80 * 1024,
        GitView::ConflictFiles { files, limit } => branch.auto_resolve.enabled && limit
            == branch.auto_resolve.max_file_bytes && files.len()
            <= branch.auto_resolve.max_conflict_files && exists|k: int|
            0 <= k < replies.len() && ((#[trigger] replies[k]) matches Reply::Snapshot(snapshot)
                && files == texts(snapshot.files@)),
        GitView::PatchContext { limit } => limit == 24 * 1024,
        GitView::WriteFile { .. } => branch.auto_resolve.enabled,
        GitView::AddFile { .. } => branch.auto_resolve.enabled,
        GitView::Test { command, sandboxed } => sandboxed == config.protection.enabled && exists|
            i: int,
        |
            0 <= i < branch.tests@.len() && (#[trigger] branch.tests@[i])@ == command,
        GitView::Push { remote, branch: name } => remote == repo.fork_remote@ && name
            == branch.name@ && branch.push != PushStrategy::Skip,
        GitView::PushWithLease { remote, branch: name, expected } => remote == repo.fork_remote@
            && name == branch.name@ && branch.push == PushStrategy::ForceWithLease && was_given(
            replies,
            expected,
        ),
        GitView::Run { args } => args == seq!["diff"@, "--cached"@, "--quiet"@],
        _ => false,
    }
}

/// Whether a request is one that bringing a branch in step makes.
pub open spec fn is_step(
    config: Config,
    branch: BranchConfig,
    replies: Seq<Reply>,
    request: RequestView,
) -> bool {
    match request {
        RequestView::Git(tree, call) => tree == Tree::Main && is_git_step(
            config,
            branch,
            replies,
            call,
        ),
        RequestView::Model(_) => config.llm is Some,
        RequestView::Conflict(ConflictView::Blocks { files }) => exists|k: int|
            0 <= k < replies.len() && #[trigger] replies[k] == Reply::Files(files),
        RequestView::Conflict(ConflictView::Resolve { files, resolutions }) => (exists|k: int|
            0 <= k < replies.len() && #[trigger] replies[k] == Reply::Files(files)) && (exists|
            k: int,
        |
            0 <= k < replies.len() && ((#[trigger] replies[k]) matches Reply::AutoResolve(decision)
                && decision.resolutions == resolutions)),
        RequestView::Protection(tree, call) => tree == Tree::Main && match call {
            ProtectionView::Gate => true,
            ProtectionView::Reviews { from, to } => was_given(replies, from) && to == "HEAD"@,
            ProtectionView::CanProceed { batch } => exists|k: int|
                0 <= k < replies.len() && #[trigger] replies[k] == Reply::Reviews(Some(batch)),
            ProtectionView::VerifyContracts { batch, tests, .. } => tests == texts(branch.tests@)
                && exists|k: int|
                0 <= k < replies.len() && #[trigger] replies[k] == Reply::Reviews(Some(batch)),
            ProtectionView::ReleaseTag { remote, branch: name } => remote
                == config.repo.fork_remote@ && name == branch.name@ && branch.push
                != PushStrategy::Skip,
            _ => false,
        },
        RequestView::Notify(NotifyView::SyncStart { branch: name, base, strategy }) => {
            &&& config.notify.sync_start
            &&& name == branch.name@
            &&& base == upstream_name(config.repo)
            &&& strategy == branch.sync
        },
        _ => false,
    }
}

proof fn lemma_start_steps(config: Config, branch: BranchConfig, replies: Seq<Reply>, at: nat)
    ensures
        match started(config, branch, replies, at) {
            Run::Ask(request) => is_step(config, branch, replies, request),
            Run::On(start, _) => was_given(replies, start.before_head) && (
            start.remote_before matches Some(head) ==> was_given(replies, head)),
            Run::Fail(_, _) => true,
        },
{
    reveal(started);
    if at + 3 < replies.len() {
        if let Reply::Maybe(Some(head)) = replies[(at + 1) as int] {
            assert(was_given(replies, head@));
        }
        if let Reply::Text(head) = replies[(at + 3) as int] {
            assert(was_given(replies, head@));
        }
    }
    if at + 5 < replies.len() {
        if let Reply::Maybe(Some(start)) = replies[(at + 5) as int] {
            assert(was_given(replies, start@));
            assert(is_range(
                config.repo,
                branch,
                replies,
                start@ + ".."@ + upstream_name(config.repo),
            ));
        }
    }
}

proof fn lemma_continue_steps(
    config: Config,
    branch: BranchConfig,
    left: nat,
    last_head: Seq<char>,
    details: Seq<Seq<char>>,
    replies: Seq<Reply>,
    at: nat,
)
    ensures
        match continue_from(branch.sync, left, last_head, details, replies, at) {
            Run::Ask(request) => is_step(config, branch, replies, request),
            Run::On(ContinueView::Stopped(snapshot, _), _) => has_snapshot(replies, snapshot),
            _ => true,
        },
    decreases left,
{
    if at < replies.len() {
        if let Reply::Snapshot(snapshot) = replies[at as int] {
            assert(has_snapshot(replies, snapshot));
        }
    }
    if left > 0 && at < replies.len() {
        if let Reply::Output(output) = replies[at as int] {
            let lines = with_stderr(details, "continue stderr: "@, output.stderr@);
            if at + 1 < replies.len() {
                if let Reply::Snapshot(snapshot) = replies[(at + 1) as int] {
                    assert(has_snapshot(replies, snapshot));
                }
            }
            if let Run::On(head, after) = head_or_empty(replies, at + 2) {
                lemma_continue_steps(
                    config,
                    branch,
                    (left - 1) as nat,
                    head,
                    lines,
                    replies,
                    after + 1,
                );
            }
        }
    }
}

/// Whether a snapshot of conflicts stands among the replies.
pub open spec fn has_snapshot(replies: Seq<Reply>, snapshot: ConflictSnapshot) -> bool {
    exists|k: int| 0 <= k < replies.len() && #[trigger] replies[k] == Reply::Snapshot(snapshot)
}

proof fn lemma_written_steps(
    config: Config,
    branch: BranchConfig,
    files: Seq<ResolvedFile>,
    next: nat,
    replies: Seq<Reply>,
    at: nat,
)
    requires
        branch.auto_resolve.enabled,
    ensures
        written_from(Tree::Main, files, next, replies, at) matches Run::Ask(request) ==> is_step(
            config,
            branch,
            replies,
            request,
        ),
    decreases files.len() - next,
{
    if next < files.len() {
        lemma_written_steps(config, branch, files, next + 1, replies, at + 2);
    }
}

proof fn lemma_solve_steps(
    config: Config,
    branch: BranchConfig,
    base: Seq<char>,
    round: nat,
    snapshot: ConflictSnapshot,
    details: Seq<Seq<char>>,
    replies: Seq<Reply>,
    at: nat,
)
    requires
        branch.auto_resolve.enabled,
        has_snapshot(replies, snapshot),
        snapshot.files@.len() <= branch.auto_resolve.max_conflict_files,
        at <= replies.len(),
    ensures
        solved(config.llm, branch, base, round, snapshot, details, replies, at) matches Run::Ask(
            request,
        ) ==> is_step(config, branch, replies, request),
{
    let k = choose|k: int| 0 <= k < replies.len() && #[trigger] replies[k] == Reply::Snapshot(
        snapshot,
    );
    assert(replies[k] == Reply::Snapshot(snapshot));
    if let Run::On(files, a) = asked::<Vec<ConflictFileContent>>(
        replies,
        at,
        git(
            Tree::Main,
            GitView::ConflictFiles {
                files: texts(snapshot.files@),
                limit: branch.auto_resolve.max_file_bytes,
            },
        ),
    ) {
        assert(replies[at as int] == Reply::Files(files));
        if let Run::On(patch, b) = asked::<SyncPatchContext>(
            replies,
            a + 1,
            git(Tree::Main, GitView::PatchContext { limit: PATCH_CONTEXT_BYTES }),
        ) {
            let facts = branch_facts(branch, base, patch@, snapshot);
            lemma_resolution_asks_the_model(config.llm, facts, files, replies, b);
            crate::llm::laws::lemma_resolution_is_a_reply(config.llm, facts, files, replies, b);
            if let Run::On(Some(decision), end) = crate::llm::auto_resolution(
                config.llm,
                facts,
                files,
                replies,
                b,
            ) {
                assert(replies[end - 1] == Reply::AutoResolve(decision));
            }
        }
    }
}

proof fn lemma_round_steps(
    config: Config,
    branch: BranchConfig,
    base: Seq<char>,
    round: nat,
    snapshot: ConflictSnapshot,
    details: Seq<Seq<char>>,
    replies: Seq<Reply>,
    at: nat,
)
    requires
        branch.auto_resolve.enabled,
        has_snapshot(replies, snapshot),
        at <= replies.len(),
    ensures
        match round_on(config.llm, branch, base, round, snapshot, details, replies, at) {
            Run::Ask(request) => is_step(config, branch, replies, request),
            Run::On(RoundView::Going(next, _), _) => has_snapshot(replies, next),
            Run::On(RoundView::Over(attempt), _) => has_snapshot(replies, attempt.snapshot),
            Run::Fail(_, _) => true,
        },
{
    let lines = details.push(
        round_line(round, ": conflict files "@ + joined(texts(snapshot.files@), ", "@)),
    );
    if snapshot.files@.len() <= branch.auto_resolve.max_conflict_files {
        lemma_solve_steps(config, branch, base, round, snapshot, lines, replies, at);
    }
    if let Run::On(solution, next) = solved(
        config.llm,
        branch,
        base,
        round,
        snapshot,
        lines,
        replies,
        at,
    ) {
        if let Some(files) = solution.files {
            lemma_written_steps(config, branch, files@, 0, replies, next);
            if let Run::On(_, after) = written_from(Tree::Main, files@, 0, replies, next) {
                if after + 1 < replies.len() {
                    if let Reply::Snapshot(found) = replies[(after + 1) as int] {
                        assert(has_snapshot(replies, found));
                    }
                }
            }
        }
    }
}

proof fn lemma_whole_round_steps(
    config: Config,
    branch: BranchConfig,
    base: Seq<char>,
    round: nat,
    snapshot: ConflictSnapshot,
    details: Seq<Seq<char>>,
    replies: Seq<Reply>,
    at: nat,
)
    requires
        branch.auto_resolve.enabled,
        has_snapshot(replies, snapshot),
        at <= replies.len(),
    ensures
        match round_run(config.llm, branch, base, round, snapshot, details, replies, at) {
            Run::Ask(request) => is_step(config, branch, replies, request),
            Run::On(RoundView::Going(next, _), _) => has_snapshot(replies, next),
            Run::On(RoundView::Over(attempt), _) => has_snapshot(replies, attempt.snapshot),
            Run::Fail(_, _) => true,
        },
{
    reveal(round_run);
    if snapshot.files@.len() > 0 {
        lemma_round_steps(config, branch, base, round, snapshot, details, replies, at);
    } else {
        if at + 1 < replies.len() {
            if let Reply::Snapshot(found) = replies[(at + 1) as int] {
                assert(has_snapshot(replies, found));
            }
        }
        if let Run::On(RoundView::Going(next, lines), after) = advance(
            branch.sync,
            round,
            (round - 1) as nat,
            snapshot,
            details,
            replies,
            at,
        ) {
            lemma_round_steps(config, branch, base, round, next, lines, replies, after);
        }
    }
}

proof fn lemma_rounds_steps(
    config: Config,
    branch: BranchConfig,
    base: Seq<char>,
    round: nat,
    snapshot: ConflictSnapshot,
    details: Seq<Seq<char>>,
    replies: Seq<Reply>,
    at: nat,
)
    requires
        branch.auto_resolve.enabled,
        has_snapshot(replies, snapshot),
        at <= replies.len(),
    ensures
        match rounds_from(config.llm, branch, base, round, snapshot, details, replies, at) {
            Run::Ask(request) => is_step(config, branch, replies, request),
            Run::On(attempt, _) => has_snapshot(replies, attempt.snapshot),
            Run::Fail(_, _) => true,
        },
    decreases rounds_of(branch.auto_resolve) + 1 - round,
{
    if round <= rounds_of(branch.auto_resolve) {
        lemma_whole_round_steps(config, branch, base, round, snapshot, details, replies, at);
        if let Run::On(RoundView::Going(next, lines), after) = round_run(
            config.llm,
            branch,
            base,
            round,
            snapshot,
            details,
            replies,
            at,
        ) {
            crate::replay::lemma_nothing_more(replies);
            crate::replay::sync::lemma_round_run_is_steady(
                config.llm,
                branch,
                base,
                round,
                snapshot,
                details,
                replies,
                Seq::empty(),
                at,
            );
            lemma_rounds_steps(config, branch, base, round + 1, next, lines, replies, after);
        }
    }
}

proof fn lemma_abandon_steps(
    config: Config,
    branch: BranchConfig,
    start: StartView,
    status: i32,
    snapshot: ConflictSnapshot,
    details: Seq<Seq<char>>,
    replies: Seq<Reply>,
    at: nat,
)
    ensures
        abandoned(config, branch, start, status, snapshot, details, replies, at) matches Run::Ask(
            request,
        ) ==> is_step(config, branch, replies, request),
{
    if let Run::On(_, a) = aborted(replies, at) {
        if let Run::On(patch, b) = patch_or_unknown(Tree::Main, replies, a) {
            lemma_analysis_asks_the_model(
                config.llm,
                branch_facts(branch, base_ref(config.repo), patch, snapshot),
                replies,
                b,
            );
        }
    }
}

proof fn lemma_resolve_steps(
    config: Config,
    branch: BranchConfig,
    start: StartView,
    status: i32,
    snapshot: ConflictSnapshot,
    details: Seq<Seq<char>>,
    replies: Seq<Reply>,
    at: nat,
)
    requires
        has_snapshot(replies, snapshot),
        at <= replies.len(),
    ensures
        resolved_from(config, branch, start, status, snapshot, details, replies, at) matches Run::Ask(
            request,
        ) ==> is_step(config, branch, replies, request),
{
    let base = base_ref(config.repo);
    lemma_abandon_steps(config, branch, start, status, snapshot, details, replies, at);
    if branch.auto_resolve.enabled {
        lemma_rounds_steps(
            config,
            branch,
            base,
            1,
            snapshot,
            seq!["auto resolve: enabled"@],
            replies,
            at,
        );
    }
    match attempt(config.llm, branch, base, snapshot, replies, at) {
        Run::On(None, a) => lemma_abandon_steps(
            config,
            branch,
            start,
            status,
            snapshot,
            details,
            replies,
            a,
        ),
        Run::On(Some(outcome), a) => lemma_abandon_steps(
            config,
            branch,
            start,
            status,
            outcome.snapshot,
            details + outcome.details,
            replies,
            a,
        ),
        _ => {},
    }
}

proof fn lemma_settle_steps(
    config: Config,
    branch: BranchConfig,
    start: StartView,
    output: CommandOutput,
    replies: Seq<Reply>,
    at: nat,
)
    requires
        at <= replies.len(),
    ensures
        settled(config, branch, start, output, replies, at) matches Run::Ask(request) ==> is_step(
            config,
            branch,
            replies,
            request,
        ),
{
    reveal(settled);
    let none = Seq::<Seq<char>>::empty();
    if let Run::On(snapshot, a) = asked::<ConflictSnapshot>(
        replies,
        at,
        git(Tree::Main, GitView::Snapshot { limit: SNAPSHOT_BYTES }),
    ) {
        assert(has_snapshot(replies, snapshot)) by {
            assert(replies[at as int] == Reply::Snapshot(snapshot));
        }
        lemma_resolve_steps(
            config,
            branch,
            start,
            output.status,
            snapshot,
            none,
            replies,
            a,
        );
        if let Run::On(true, b) = staged(replies, a) {
            if let Run::On(head, c) = head_or_empty(replies, b) {
                lemma_continue_steps(
                    config,
                    branch,
                    MAX_CONTINUES as nat,
                    head,
                    seq![
                        "rerere/autostaged resolution detected: continuing sync"@,
                        "initial continue stderr: "@ + on_one_line(output.stderr@),
                    ],
                    replies,
                    c,
                );
            }
        }
        crate::replay::lemma_nothing_more(replies);
        crate::replay::sync::lemma_continuation_is_steady(
            branch.sync,
            output.stderr@,
            replies,
            Seq::empty(),
            a,
        );
        match continuation(branch.sync, output.stderr@, replies, a) {
            Run::On(None, b) => lemma_abandon_steps(
                config,
                branch,
                start,
                output.status,
                snapshot,
                none,
                replies,
                b,
            ),
            Run::On(Some(ContinueView::Stopped(next, details)), b) => lemma_resolve_steps(
                config,
                branch,
                start,
                output.status,
                next,
                details,
                replies,
                b,
            ),
            _ => {},
        }
    }
}

proof fn lemma_test_steps(
    config: Config,
    branch: BranchConfig,
    details: Seq<Seq<char>>,
    next: nat,
    printed: Seq<char>,
    replies: Seq<Reply>,
    at: nat,
)
    ensures
        tests_from(config.protection.enabled, branch, details, next, printed, replies, at)
            matches Run::Ask(request) ==> is_step(config, branch, replies, request),
    decreases branch.tests@.len() - next,
{
    if next < branch.tests@.len() && at < replies.len() {
        if let Reply::Output(output) = replies[at as int] {
            lemma_test_steps(
                config,
                branch,
                details,
                next + 1,
                printed + test_record(branch.tests@[next as int]@, output),
                replies,
                at + 1,
            );
        }
    }
}

proof fn lemma_check_steps(
    config: Config,
    branch: BranchConfig,
    before_head: Seq<char>,
    details: Seq<Seq<char>>,
    replies: Seq<Reply>,
    gate: nat,
)
    requires
        was_given(replies, before_head),
    ensures
        ({
            let screening = screened(branch, before_head, details, replies, gate);
            &&& screening matches Run::Ask(request) ==> is_step(config, branch, replies, request)
            &&& screening matches Run::On(StageView::Go(batch), tests) ==> (tested(
                config,
                branch,
                batch,
                details,
                replies,
                tests,
            ) matches Run::Ask(request) ==> is_step(config, branch, replies, request))
        }),
{
    reveal(screened);
    reveal(tested);
    if gate + 1 < replies.len() {
        if let Reply::Reviews(Some(batch)) = replies[(gate + 1) as int] {
            assert(replies[(gate + 1) as int] == Reply::Reviews(Some(batch)));
        }
    }
    if let Run::On(StageView::Go(batch), tests) = screened(
        branch,
        before_head,
        details,
        replies,
        gate,
    ) {
        lemma_test_steps(config, branch, details, 0, Seq::empty(), replies, tests);
    }
}

proof fn lemma_publish_steps(
    config: Config,
    branch: BranchConfig,
    start: StartView,
    replies: Seq<Reply>,
    at: nat,
)
    requires
        start.remote_before matches Some(head) ==> was_given(replies, head),
    ensures
        ({
            let surveying = surveyed(
                config.repo,
                branch,
                start.remote_before is Some,
                replies,
                at,
            );
            let publishing = pushed(
                config.repo,
                branch,
                start.remote_before,
                replies,
                surveying->On_1,
            );
            let tagging = tagged(
                config.repo,
                branch,
                surveying->On_0.after_head,
                replies,
                publishing->On_1,
            );
            &&& surveying matches Run::Ask(request) ==> is_step(config, branch, replies, request)
            &&& publishing matches Run::Ask(request) ==> is_step(config, branch, replies, request)
            &&& tagging matches Run::Ask(request) ==> is_step(config, branch, replies, request)
        }),
{
    reveal(surveyed);
    reveal(pushed);
    reveal(tagged);
    if at < replies.len() {
        if let Reply::Text(head) = replies[at as int] {
            assert(was_given(replies, head@));
            assert(is_file_range(config.repo, branch, replies, head@ + "^.."@ + head@));
        }
    }
}

/// Whatever bringing a branch in step asks for is about this branch: it is fetched from and pushed
/// to its place in the fork, taken on top of the base in the upstream by a rebase or a merge as the
/// settings say, tested by its own commands, in the sandbox where the protection rules are on, and
/// what is shown to the model, or for a review of commits, is what was found before.
pub proof fn lemma_branch_asks_about_itself(
    config: Config,
    branch: BranchConfig,
    replies: Seq<Reply>,
    at: nat,
)
    requires
        at <= replies.len(),
    ensures
        branch_once(config, branch, replies, at) matches Run::Ask(request) ==> is_step(
            config,
            branch,
            replies,
            request,
        ),
{
    lemma_start_steps(config, branch, replies, at);
    if let Run::On(start, a) = started(config, branch, replies, at) {
        crate::replay::lemma_nothing_more(replies);
        crate::replay::sync::lemma_started_is_steady(config, branch, replies, Seq::empty(), at);
        if let Run::On(output, b) = asked::<CommandOutput>(
            replies,
            a,
            sync_request(config.repo, branch),
        ) {
            lemma_settle_steps(config, branch, start, output, replies, b);
            if let Run::On(StageView::Go(details), c) = settled(
                config,
                branch,
                start,
                output,
                replies,
                b,
            ) {
                lemma_check_steps(config, branch, start.before_head, details, replies, c);
                if let Run::On(StageView::Go(batch), d) = screened(
                    branch,
                    start.before_head,
                    details,
                    replies,
                    c,
                ) {
                    if let Run::On(StageView::Go(_), e) = tested(
                        config,
                        branch,
                        batch,
                        details,
                        replies,
                        d,
                    ) {
                        lemma_publish_steps(config, branch, start, replies, e);
                    }
                }
            }
        }
    }
}

} // verus!
