//! The first half of the work on a branch: up to a tree that is in step with its base.

use vstd::prelude::*;

use crate::calls::git::{GitCall, GitView};
use crate::calls::notify::{NotifyCall, NotifyView};
use crate::calls::{Request, RequestView, Tree};
use crate::command::git;
use crate::config::{BranchConfig, Config, PushStrategy, RepoConfig, SyncStrategy};
use crate::fault::fault_text;
use crate::journal::{asked, caught, follows, passed, Halt, Journal, Reply, Run};
use crate::llm::types::ConflictAnalysisRequest;
use crate::llm::{analysis, LlmService};
use crate::report::{active_report, BranchReport, BranchStatus, ReportView};
use crate::repo::{CommandOutput, ConflictSnapshot};
use crate::sync::auto_resolve::{
    attempt, branch_facts, continuation, patch_or_default, patch_or_unknown,
    try_auto_resolve_conflict, try_continue_autoresolved_sync, AutoContinueOutcome, ContinueView,
    SNAPSHOT_BYTES,
};
use crate::sync::report::{
    branch_note_detail, listed, note_line, on_one_line, one_line, push_commit_details,
};
use crate::sync::stage::{ended, Stage, StageView, SyncBranchOutcome};
use crate::text::number::{signed_decimal, signed_text};
use crate::text::pattern::{replace, replaced};
use crate::text::{
    append_texts, blank, concat2, concat3, concat4, copy_texts, is_blank, join, joined,
    text_option, texts, Lines,
};

verus! {

/// The largest number of commits in a report.
pub const MAX_REPORTED_COMMITS: usize = 12;

/// The reference that branches are brought in step with.
pub open spec fn base_ref(repo: RepoConfig) -> Seq<char> {
    repo.upstream_remote@ + "/"@ + repo.base_branch@
}

/// The reference that branches are brought in step with.
pub fn base_of(repo: &RepoConfig) -> (r: String)
    ensures
        r@ == base_ref(*repo),
{
    concat3(repo.upstream_remote.as_str(), "/", repo.base_branch.as_str())
}

/// The remote branch to which a branch is pushed.
pub open spec fn remote_ref(repo: RepoConfig, branch: BranchConfig) -> Seq<char> {
    repo.fork_remote@ + "/"@ + branch.name@
}

/// The remote branch to which a branch is pushed.
pub fn remote_of(repo: &RepoConfig, branch: &BranchConfig) -> (r: String)
    ensures
        r@ == remote_ref(*repo, *branch),
{
    concat3(repo.fork_remote.as_str(), "/", branch.name.as_str())
}

/// The request to fetch the remote branch.
pub open spec fn fetch_request(repo: RepoConfig, branch: BranchConfig) -> RequestView {
    git(
        Tree::Main,
        GitView::FetchBranch { remote: repo.fork_remote@, branch: branch.name@ },
    )
}

/// The request for the commit of the remote branch.
pub open spec fn remote_head_request(repo: RepoConfig, branch: BranchConfig) -> RequestView {
    git(
        Tree::Main,
        GitView::RemoteHead { remote: repo.fork_remote@, branch: branch.name@ },
    )
}

/// The checkout of a branch: at its remote branch where it is pushed and there is one.
pub open spec fn checkout_request(
    repo: RepoConfig,
    branch: BranchConfig,
    remote_before: Option<String>,
) -> RequestView {
    if remote_before is Some && branch.push != PushStrategy::Skip {
        git(
            Tree::Main,
            GitView::CheckoutAt { branch: branch.name@, start: remote_ref(repo, branch) },
        )
    } else {
        git(Tree::Main, GitView::Checkout { branch: branch.name@ })
    }
}

/// Checks a branch out, and gives where its remote branch is.
pub open spec fn checked_out(
    repo: RepoConfig,
    branch: BranchConfig,
    replies: Seq<Reply>,
    at: nat,
) -> Run<Option<String>> {
    match asked::<()>(replies, at, fetch_request(repo, branch)) {
        Run::Ask(request) => Run::Ask(request),
        Run::Fail(chain, at) => Run::Fail(chain, at),
        Run::On(_, at) => match asked::<Option<String>>(
            replies,
            at,
            remote_head_request(repo, branch),
        ) {
            Run::Ask(request) => Run::Ask(request),
            Run::Fail(chain, at) => Run::Fail(chain, at),
            Run::On(remote_before, at) => match asked::<()>(
                replies,
                at,
                checkout_request(repo, branch, remote_before),
            ) {
                Run::Ask(request) => Run::Ask(request),
                Run::Fail(chain, at) => Run::Fail(chain, at),
                Run::On(_, at) => Run::On(remote_before, at),
            },
        },
    }
}

/// Checks a branch out, and gives where its remote branch is.
pub fn prepare_branch_for_sync<'a>(
    repo: &'a RepoConfig,
    branch: &'a BranchConfig,
    journal: &mut Journal<'a>,
) -> (r: Result<&'a Option<String>, Halt<'a>>)
    ensures
        crate::journal::took(
            *old(journal),
            *final(journal),
            r,
            checked_out(*repo, *branch, old(journal).all(), old(journal).at()),
        ),
{
    let remote = repo.fork_remote.as_str();
    let name = branch.name.as_str();
    let _: &'a () = journal.ask(
        Request::Git(Tree::Main, GitCall::FetchBranch { remote, branch: name }),
    )?;
    let remote_before: &'a Option<String> = journal.ask(
        Request::Git(Tree::Main, GitCall::RemoteHead { remote, branch: name }),
    )?;
    let request = if remote_before.is_some() && branch.push != PushStrategy::Skip {
        Request::Git(
            Tree::Main,
            GitCall::CheckoutAt { branch: name, start: remote_of(repo, branch) },
        )
    } else {
        Request::Git(Tree::Main, GitCall::Checkout { branch: name })
    };
    let _: &'a () = journal.ask(request)?;
    Ok(remote_before)
}

/// The commits of the base that a branch does not have yet.
pub open spec fn upstream_commits(base: Seq<char>, replies: Seq<Reply>, at: nat) -> Run<
    Seq<Seq<char>>,
> {
    match asked::<Option<String>>(
        replies,
        at,
        git(Tree::Main, GitView::MergeBase { left: "HEAD"@, right: base }),
    ) {
        Run::Ask(request) => Run::Ask(request),
        Run::Fail(chain, at) => Run::Fail(chain, at),
        Run::On(None, at) => Run::On(Seq::empty(), at),
        Run::On(Some(merge_base), at) => match asked::<Vec<String>>(
            replies,
            at,
            git(
                Tree::Main,
                GitView::Log {
                    range: merge_base@ + ".."@ + base,
                    limit: MAX_REPORTED_COMMITS,
                },
            ),
        ) {
            Run::Ask(request) => Run::Ask(request),
            Run::Fail(chain, at) => Run::Fail(chain, at),
            Run::On(commits, at) => Run::On(texts(commits@), at),
        },
    }
}

/// The commits of the base that a branch does not have yet.
pub fn upstream_commits_since_branch_base<'a>(base: &str, journal: &mut Journal<'a>) -> (r: Result<
    Lines,
    Halt<'a>,
>)
    ensures
        follows(
            *old(journal),
            *final(journal),
            r,
            upstream_commits(base@, old(journal).all(), old(journal).at()),
        ),
{
    let found: &'a Option<String> = journal.ask(
        Request::Git(
            Tree::Main,
            GitCall::MergeBase { left: "HEAD".to_owned(), right: base.to_owned() },
        ),
    )?;
    match found {
        None => {
            let lines = Lines { list: Vec::new() };
            assert(lines@ =~= Seq::<Seq<char>>::empty());
            Ok(lines)
        },
        Some(merge_base) => {
            let commits: &'a Vec<String> = journal.ask(
                Request::Git(
                    Tree::Main,
                    GitCall::Log {
                        range: concat3(merge_base.as_str(), "..", base),
                        limit: MAX_REPORTED_COMMITS,
                    },
                ),
            )?;
            Ok(Lines { list: copy_texts(commits) })
        },
    }
}

/// Says that a sync starts, where the settings ask for it. Whether that worked does not matter.
pub open spec fn start_notified(
    config: Config,
    branch: BranchConfig,
    replies: Seq<Reply>,
    at: nat,
) -> Run<()> {
    if config.notify.sync_start {
        passed(
            caught(
                asked::<bool>(
                    replies,
                    at,
                    RequestView::Notify(
                        NotifyView::SyncStart {
                            branch: branch.name@,
                            base: base_ref(config.repo),
                            strategy: branch.sync,
                        },
                    ),
                ),
            ),
        )
    } else {
        Run::On((), at)
    }
}

/// Says that a sync starts, where the settings ask for it.
pub fn notify_sync_start<'a>(
    config: &'a Config,
    branch: &'a BranchConfig,
    journal: &mut Journal<'a>,
) -> (r: Result<(), Halt<'a>>)
    ensures
        follows(
            *old(journal),
            *final(journal),
            r,
            start_notified(*config, *branch, old(journal).all(), old(journal).at()),
        ),
{
    if !config.notify.sync_start {
        return Ok(());
    }
    let request = Request::Notify(
        NotifyCall::SyncStart {
            branch: branch.name.as_str(),
            base: base_of(&config.repo),
            strategy: branch.sync,
        },
    );
    match journal.ask::<bool>(request) {
        Ok(_) => Ok(()),
        Err(Halt::Fail(_)) => Ok(()),
        Err(halt) => Err(halt),
    }
}

/// Where a branch stands before it is synced.
pub struct StartView {
    pub remote_before: Option<Seq<char>>,
    pub before_head: Seq<char>,
    pub base_head: Seq<char>,
    pub upstream: Seq<Seq<char>>,
}

/// Where a branch stands before it is synced.
pub struct Start<'a> {
    pub remote_before: &'a Option<String>,
    pub before_head: &'a String,
    pub base_head: &'a String,
    pub upstream: Lines,
}

impl<'a> View for Start<'a> {
    type V = StartView;

    open spec fn view(&self) -> StartView {
        StartView {
            remote_before: text_option(*self.remote_before),
            before_head: self.before_head@,
            base_head: self.base_head@,
            upstream: self.upstream@,
        }
    }
}

/// Everything before the sync itself.
#[verifier::opaque]
pub open spec fn started(
    config: Config,
    branch: BranchConfig,
    replies: Seq<Reply>,
    at: nat,
) -> Run<StartView> {
    match checked_out(config.repo, branch, replies, at) {
        Run::Ask(request) => Run::Ask(request),
        Run::Fail(chain, at) => Run::Fail(chain, at),
        Run::On(remote_before, at) => match asked::<String>(
            replies,
            at,
            git(Tree::Main, GitView::Head),
        ) {
            Run::Ask(request) => Run::Ask(request),
            Run::Fail(chain, at) => Run::Fail(chain, at),
            Run::On(before_head, at) => match asked::<String>(
                replies,
                at,
                git(Tree::Main, GitView::ShortRef { name: base_ref(config.repo) }),
            ) {
                Run::Ask(request) => Run::Ask(request),
                Run::Fail(chain, at) => Run::Fail(chain, at),
                Run::On(base_head, at) => match upstream_commits(
                    base_ref(config.repo),
                    replies,
                    at,
                ) {
                    Run::Ask(request) => Run::Ask(request),
                    Run::Fail(chain, at) => Run::Fail(chain, at),
                    Run::On(upstream, at) => match start_notified(config, branch, replies, at) {
                        Run::Ask(request) => Run::Ask(request),
                        Run::Fail(chain, at) => Run::Fail(chain, at),
                        Run::On(_, at) => Run::On(
                            StartView {
                                remote_before: text_option(remote_before),
                                before_head: before_head@,
                                base_head: base_head@,
                                upstream,
                            },
                            at,
                        ),
                    },
                },
            },
        },
    }
}

/// Does everything before the sync itself.
pub fn start_sync<'a>(
    config: &'a Config,
    branch: &'a BranchConfig,
    journal: &mut Journal<'a>,
) -> (r: Result<Start<'a>, Halt<'a>>)
    ensures
        follows(
            *old(journal),
            *final(journal),
            r,
            started(*config, *branch, old(journal).all(), old(journal).at()),
        ),
{
    reveal(started);
    let base = base_of(&config.repo);
    let remote_before = prepare_branch_for_sync(&config.repo, branch, journal)?;
    let before_head: &'a String = journal.ask(Request::Git(Tree::Main, GitCall::Head))?;
    let base_head: &'a String = journal.ask(
        Request::Git(Tree::Main, GitCall::ShortRef { name: base.clone() }),
    )?;
    let upstream = upstream_commits_since_branch_base(base.as_str(), journal)?;
    notify_sync_start(config, branch, journal)?;
    Ok(Start { remote_before, before_head, base_head, upstream })
}

/// The request that brings a branch in step.
pub open spec fn sync_request(repo: RepoConfig, branch: BranchConfig) -> RequestView {
    match branch.sync {
        SyncStrategy::Rebase => git(Tree::Main, GitView::Rebase { base: base_ref(repo) }),
        SyncStrategy::Merge => git(Tree::Main, GitView::Merge { base: base_ref(repo) }),
    }
}

/// Gives the sync up. Whether that worked does not matter.
pub open spec fn aborted(replies: Seq<Reply>, at: nat) -> Run<()> {
    passed(caught(asked::<()>(replies, at, git(Tree::Main, GitView::Abort))))
}

/// Gives the sync up.
pub fn abort_rebase_or_merge<'a>(journal: &mut Journal<'a>) -> (r: Result<(), Halt<'a>>)
    ensures
        follows(
            *old(journal),
            *final(journal),
            r,
            aborted(old(journal).all(), old(journal).at()),
        ),
{
    match journal.ask::<()>(Request::Git(Tree::Main, GitCall::Abort)) {
        Ok(_) => Ok(()),
        Err(Halt::Fail(_)) => Ok(()),
        Err(halt) => Err(halt),
    }
}

/// What a report says of the state of a tree in conflict.
pub open spec fn tree_lines(snapshot: ConflictSnapshot) -> Seq<Seq<char>> {
    (if is_blank(snapshot.status@) {
        Seq::<Seq<char>>::empty()
    } else {
        seq!["git status: "@ + replaced(snapshot.status@, "\n"@, "; "@)]
    }) + (if is_blank(snapshot.combined_diff@) {
        Seq::<Seq<char>>::empty()
    } else {
        seq!["combined diff captured for future LLM analysis"@]
    })
}

/// What a report says of a branch in conflict.
pub open spec fn conflict_lines(
    branch: BranchConfig,
    base: Seq<char>,
    start: StartView,
    status: i32,
    snapshot: ConflictSnapshot,
    details: Seq<Seq<char>>,
) -> Seq<Seq<char>> {
    seq![
        note_line(branch),
        "before sync: "@ + start.before_head,
        "target base: "@ + base + " @ "@ + start.base_head,
        "sync failed with code "@ + signed_decimal(status as int) + " against "@ + base,
        "conflict files: "@ + joined(texts(snapshot.files@), ", "@),
    ] + listed("upstream commits planned"@, start.upstream) + details + tree_lines(snapshot)
}

/// What a report says of the explanation of a conflict.
pub open spec fn analysis_line(answer: Result<Option<Seq<char>>, Seq<Seq<char>>>) -> Seq<char> {
    match answer {
        Ok(Some(text)) => "LLM analysis: "@ + on_one_line(text),
        Ok(None) => "LLM analysis skipped"@,
        Err(chain) => "LLM analysis failed: "@ + fault_text(chain),
    }
}

/// The report of a branch in conflict.
pub open spec fn conflict_reported(
    config: Config,
    branch: BranchConfig,
    start: StartView,
    status: i32,
    snapshot: ConflictSnapshot,
    details: Seq<Seq<char>>,
    replies: Seq<Reply>,
    at: nat,
) -> Run<ReportView> {
    let base = base_ref(config.repo);
    match patch_or_unknown(Tree::Main, replies, at) {
        Run::Ask(request) => Run::Ask(request),
        Run::Fail(chain, at) => Run::Fail(chain, at),
        Run::On(patch, at) => match caught(
            analysis(config.llm, branch_facts(branch, base, patch, snapshot), replies, at),
        ) {
            Run::Ask(request) => Run::Ask(request),
            Run::Fail(chain, at) => Run::Fail(chain, at),
            Run::On(answer, at) => Run::On(
                active_report(
                    branch.name@,
                    branch.kind@,
                    BranchStatus::Conflict,
                    conflict_lines(branch, base, start, status, snapshot, details).push(
                        analysis_line(answer),
                    ),
                ),
                at,
            ),
        },
    }
}

fn conflict_entry(
    branch: &BranchConfig,
    base: &str,
    start: &Start<'_>,
    status: i32,
    snapshot: &ConflictSnapshot,
    details: Vec<String>,
) -> (r: BranchReport)
    ensures
        r@ == active_report(
            branch.name@,
            branch.kind@,
            BranchStatus::Conflict,
            conflict_lines(*branch, base@, start@, status, *snapshot, texts(details@)),
        ),
{
    let code = signed_text(status);
    let files = join(&snapshot.files, ", ");
    let mut entry = BranchReport::new(
        branch.name.as_str(),
        branch.kind.as_str(),
        BranchStatus::Conflict,
    ).active().detail(branch_note_detail(branch)).detail(
        concat2("before sync: ", start.before_head.as_str()),
    ).detail(concat4("target base: ", base, " @ ", start.base_head.as_str())).detail(
        concat4("sync failed with code ", code.as_str(), " against ", base),
    ).detail(concat2("conflict files: ", files.as_str()));
    push_commit_details(&mut entry, "upstream commits planned", &start.upstream.list);
    entry.push_details(details);
    if !blank(snapshot.status.as_str()) {
        proof {
            reveal_strlit("\n");
        }
        let line = replace(snapshot.status.as_str(), "\n", "; ");
        entry.push_detail(concat2("git status: ", line.as_str()));
    }
    if !blank(snapshot.combined_diff.as_str()) {
        entry.push_detail("combined diff captured for future LLM analysis".to_owned());
    }
    assert(entry@.details =~= conflict_lines(
        *branch,
        base@,
        start@,
        status,
        *snapshot,
        texts(details@),
    ));
    entry
}

/// Reports a branch in conflict, with an explanation of the model.
pub fn conflict_report<'a>(
    config: &'a Config,
    branch: &'a BranchConfig,
    start: &Start<'a>,
    status: i32,
    snapshot: &'a ConflictSnapshot,
    details: Vec<String>,
    journal: &mut Journal<'a>,
) -> (r: Result<BranchReport, Halt<'a>>)
    ensures
        follows(
            *old(journal),
            *final(journal),
            r,
            conflict_reported(
                *config,
                *branch,
                start@,
                status,
                *snapshot,
                texts(details@),
                old(journal).all(),
                old(journal).at(),
            ),
        ),
{
    let base = base_of(&config.repo);
    let mut entry = conflict_entry(branch, base.as_str(), start, status, snapshot, details);
    let patch_context = patch_or_default(Tree::Main, journal)?;
    let request = ConflictAnalysisRequest {
        branch: branch.name.clone(),
        base,
        branch_note: branch.note.clone(),
        patch_context,
        snapshot,
    };
    assert(request@ == branch_facts(*branch, base_ref(config.repo), patch_context@, *snapshot));
    let llm = LlmService::new(&config.llm);
    match llm.analyze_conflict(&request, journal) {
        Ok(Some(analysis)) => {
            let line = one_line(analysis.as_str());
            entry.push_detail(concat2("LLM analysis: ", line.as_str()));
        },
        Ok(None) => {
            entry.push_detail("LLM analysis skipped".to_owned());
        },
        Err(Halt::Fail(fault)) => {
            let text = fault.text();
            entry.push_detail(concat2("LLM analysis failed: ", text.as_str()));
        },
        Err(halt) => {
            return Err(halt);
        },
    }
    Ok(entry)
}

/// A sync that is given up, with the report of its conflict.
pub open spec fn abandoned(
    config: Config,
    branch: BranchConfig,
    start: StartView,
    status: i32,
    snapshot: ConflictSnapshot,
    details: Seq<Seq<char>>,
    replies: Seq<Reply>,
    at: nat,
) -> Run<StageView<Seq<Seq<char>>>> {
    match aborted(replies, at) {
        Run::Ask(request) => Run::Ask(request),
        Run::Fail(chain, at) => Run::Fail(chain, at),
        Run::On(_, at) => match conflict_reported(
            config,
            branch,
            start,
            status,
            snapshot,
            details,
            replies,
            at,
        ) {
            Run::Ask(request) => Run::Ask(request),
            Run::Fail(chain, at) => Run::Fail(chain, at),
            Run::On(report, at) => Run::On(ended(report), at),
        },
    }
}

fn abandon<'a>(
    config: &'a Config,
    branch: &'a BranchConfig,
    start: &Start<'a>,
    status: i32,
    snapshot: &'a ConflictSnapshot,
    details: Vec<String>,
    journal: &mut Journal<'a>,
) -> (r: Result<Stage<Lines>, Halt<'a>>)
    ensures
        follows(
            *old(journal),
            *final(journal),
            r,
            abandoned(
                *config,
                *branch,
                start@,
                status,
                *snapshot,
                texts(details@),
                old(journal).all(),
                old(journal).at(),
            ),
        ),
{
    abort_rebase_or_merge(journal)?;
    let report = conflict_report(config, branch, start, status, snapshot, details, journal)?;
    Ok(Stage::End(SyncBranchOutcome::Report(report)))
}

/// Resolves the conflicts of a sync that stopped, from given conflicts on.
pub open spec fn resolved_from(
    config: Config,
    branch: BranchConfig,
    start: StartView,
    status: i32,
    snapshot: ConflictSnapshot,
    details: Seq<Seq<char>>,
    replies: Seq<Reply>,
    at: nat,
) -> Run<StageView<Seq<Seq<char>>>> {
    if snapshot.files@.len() == 0 {
        abandoned(config, branch, start, status, snapshot, details, replies, at)
    } else {
        match attempt(config.llm, branch, base_ref(config.repo), snapshot, replies, at) {
            Run::Ask(request) => Run::Ask(request),
            Run::Fail(chain, at) => Run::Fail(chain, at),
            Run::On(None, at) => abandoned(
                config,
                branch,
                start,
                status,
                snapshot,
                details,
                replies,
                at,
            ),
            Run::On(Some(outcome), at) => if outcome.applied {
                Run::On(StageView::Go(details + outcome.details), at)
            } else {
                abandoned(
                    config,
                    branch,
                    start,
                    status,
                    outcome.snapshot,
                    details + outcome.details,
                    replies,
                    at,
                )
            },
        }
    }
}

fn resolve_from<'a>(
    config: &'a Config,
    branch: &'a BranchConfig,
    start: &Start<'a>,
    status: i32,
    snapshot: &'a ConflictSnapshot,
    details: Vec<String>,
    journal: &mut Journal<'a>,
) -> (r: Result<Stage<Lines>, Halt<'a>>)
    ensures
        follows(
            *old(journal),
            *final(journal),
            r,
            resolved_from(
                *config,
                *branch,
                start@,
                status,
                *snapshot,
                texts(details@),
                old(journal).all(),
                old(journal).at(),
            ),
        ),
{
    if snapshot.files.len() == 0 {
        return abandon(config, branch, start, status, snapshot, details, journal);
    }
    let base = base_of(&config.repo);
    let llm = LlmService::new(&config.llm);
    match try_auto_resolve_conflict(&llm, branch, base.as_str(), snapshot, journal)? {
        None => abandon(config, branch, start, status, snapshot, details, journal),
        Some(outcome) => {
            let mut details = details;
            append_texts(&mut details, outcome.details);
            if outcome.applied {
                Ok(Stage::Go(Lines { list: details }))
            } else {
                abandon(config, branch, start, status, outcome.snapshot, details, journal)
            }
        },
    }
}

/// Resolves what stopped a sync, or gives it up with a report. What was done is reported.
#[verifier::opaque]
pub open spec fn settled(
    config: Config,
    branch: BranchConfig,
    start: StartView,
    output: CommandOutput,
    replies: Seq<Reply>,
    at: nat,
) -> Run<StageView<Seq<Seq<char>>>> {
    if output.succeeded() {
        Run::On(StageView::Go(Seq::empty()), at)
    } else {
        match asked::<ConflictSnapshot>(
            replies,
            at,
            git(Tree::Main, GitView::Snapshot { limit: SNAPSHOT_BYTES }),
        ) {
            Run::Ask(request) => Run::Ask(request),
            Run::Fail(chain, at) => Run::Fail(chain, at),
            Run::On(snapshot, at) => if snapshot.files@.len() > 0 {
                resolved_from(
                    config,
                    branch,
                    start,
                    output.status,
                    snapshot,
                    Seq::empty(),
                    replies,
                    at,
                )
            } else {
                match continuation(branch.sync, output.stderr@, replies, at) {
                    Run::Ask(request) => Run::Ask(request),
                    Run::Fail(chain, at) => Run::Fail(chain, at),
                    Run::On(None, at) => abandoned(
                        config,
                        branch,
                        start,
                        output.status,
                        snapshot,
                        Seq::empty(),
                        replies,
                        at,
                    ),
                    Run::On(Some(ContinueView::Applied(details)), at) => Run::On(
                        StageView::Go(details),
                        at,
                    ),
                    Run::On(Some(ContinueView::Stopped(snapshot, details)), at) => resolved_from(
                        config,
                        branch,
                        start,
                        output.status,
                        snapshot,
                        details,
                        replies,
                        at,
                    ),
                }
            },
        }
    }
}

/// Resolves what stopped a sync, or gives it up with a report.
pub fn settle_sync<'a>(
    config: &'a Config,
    branch: &'a BranchConfig,
    start: &Start<'a>,
    output: &'a CommandOutput,
    journal: &mut Journal<'a>,
) -> (r: Result<Stage<Lines>, Halt<'a>>)
    ensures
        follows(
            *old(journal),
            *final(journal),
            r,
            settled(
                *config,
                *branch,
                start@,
                *output,
                old(journal).all(),
                old(journal).at(),
            ),
        ),
{
    reveal(settled);
    let none: Vec<String> = Vec::new();
    assert(texts(none@) =~= Seq::<Seq<char>>::empty());
    if output.success() {
        return Ok(Stage::Go(Lines { list: none }));
    }
    let snapshot: &'a ConflictSnapshot = journal.ask(
        Request::Git(Tree::Main, GitCall::Snapshot { limit: SNAPSHOT_BYTES }),
    )?;
    let status: i32 = output.status;
    if snapshot.files.len() > 0 {
        return resolve_from(config, branch, start, status, snapshot, none, journal);
    }
    match try_continue_autoresolved_sync(branch.sync, output.stderr.as_str(), journal)? {
        None => abandon(config, branch, start, status, snapshot, none, journal),
        Some(AutoContinueOutcome::Applied(details)) => Ok(Stage::Go(Lines { list: details })),
        Some(AutoContinueOutcome::Stopped { snapshot, details }) => resolve_from(
            config,
            branch,
            start,
            status,
            snapshot,
            details,
            journal,
        ),
    }
}

} // verus!
