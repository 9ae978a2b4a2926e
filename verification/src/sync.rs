//! Bringing branches in step with their upstream.
//!
//! A branch is synced, checked, tested and pushed, in this order; what stops it on the way ends in a
//! report and not in a push.

use vstd::prelude::*;

use crate::calls::git::{GitCall, GitView};
use crate::calls::{Request, RequestView, Tree};
use crate::command::git;
use crate::config::{BranchConfig, Config, SyncStrategy};
use crate::journal::{asked, follows, Halt, Journal, Reply, Run};
use crate::protection::types::CommitSecurityReviewBatch;
use crate::repo::{AheadBehind, CommandOutput};
use crate::report::{blank_report, BranchReport, BranchStatus, ReportView, SyncReport};
use crate::sync::checks::{screen, screened, test_branch, tested};
use crate::sync::conflict::{
    abort_rebase_or_merge, aborted, base_of, base_ref, remote_of, remote_ref, settle_sync, settled,
    start_sync, started, sync_request,
};
use crate::sync::notify::{end_notified, notify_end};
use crate::sync::publish::{
    push_branch, pushed, success, success_report, survey, surveyed, tag_release, tagged,
};
use crate::sync::report::{remote_changed, remote_changed_report};
use crate::sync::stage::{BranchView, Stage, StageView, SyncBranchOutcome};
use crate::text::number::{count_text, decimal};
use crate::text::{concat2, concat5, same_text, text_option};

pub mod auto_resolve;
pub mod checks;
pub mod conflict;
pub mod laws;
pub mod notify;
pub mod outcomes;
pub mod publish;
pub mod report;
pub mod stage;
pub mod stages;
pub mod steps;

verus! {

/// How often a branch is synced again because its remote branch moved.
pub const MAX_REMOTE_CHANGED_RETRIES: usize = 1;

/// Brings a branch in step, checks it and pushes it, once.
pub open spec fn branch_once(
    config: Config,
    branch: BranchConfig,
    replies: Seq<Reply>,
    at: nat,
) -> Run<BranchView> {
    match started(config, branch, replies, at) {
        Run::Ask(request) => Run::Ask(request),
        Run::Fail(chain, at) => Run::Fail(chain, at),
        Run::On(start, at) => match asked::<CommandOutput>(
            replies,
            at,
            sync_request(config.repo, branch),
        ) {
            Run::Ask(request) => Run::Ask(request),
            Run::Fail(chain, at) => Run::Fail(chain, at),
            Run::On(output, at) => match settled(config, branch, start, output, replies, at) {
                Run::Ask(request) => Run::Ask(request),
                Run::Fail(chain, at) => Run::Fail(chain, at),
                Run::On(StageView::End(outcome), at) => Run::On(outcome, at),
                Run::On(StageView::Go(details), at) => match screened(
                    branch,
                    start.before_head,
                    details,
                    replies,
                    at,
                ) {
                    Run::Ask(request) => Run::Ask(request),
                    Run::Fail(chain, at) => Run::Fail(chain, at),
                    Run::On(StageView::End(outcome), at) => Run::On(outcome, at),
                    Run::On(StageView::Go(batch), at) => match tested(
                        config,
                        branch,
                        batch,
                        details,
                        replies,
                        at,
                    ) {
                        Run::Ask(request) => Run::Ask(request),
                        Run::Fail(chain, at) => Run::Fail(chain, at),
                        Run::On(StageView::End(outcome), at) => Run::On(outcome, at),
                        Run::On(StageView::Go(_), at) => match surveyed(
                            config.repo,
                            branch,
                            start.remote_before is Some,
                            replies,
                            at,
                        ) {
                            Run::Ask(request) => Run::Ask(request),
                            Run::Fail(chain, at) => Run::Fail(chain, at),
                            Run::On(survey, at) => match pushed(
                                config.repo,
                                branch,
                                start.remote_before,
                                replies,
                                at,
                            ) {
                                Run::Ask(request) => Run::Ask(request),
                                Run::Fail(chain, at) => Run::Fail(chain, at),
                                Run::On(StageView::End(outcome), at) => Run::On(outcome, at),
                                Run::On(StageView::Go(_), at) => match tagged(
                                    config.repo,
                                    branch,
                                    survey.after_head,
                                    replies,
                                    at,
                                ) {
                                    Run::Ask(request) => Run::Ask(request),
                                    Run::Fail(chain, at) => Run::Fail(chain, at),
                                    Run::On(StageView::End(outcome), at) => Run::On(outcome, at),
                                    Run::On(StageView::Go(tag), at) => Run::On(
                                        BranchView::Report(
                                            success(
                                                config.repo,
                                                branch,
                                                start,
                                                survey,
                                                text_option(tag),
                                                details,
                                            ),
                                        ),
                                        at,
                                    ),
                                },
                            },
                        },
                    },
                },
            },
        },
    }
}

/// Brings a branch in step, checks it and pushes it, once.
pub fn sync_branch_once<'a>(
    config: &'a Config,
    branch: &'a BranchConfig,
    journal: &mut Journal<'a>,
) -> (r: Result<SyncBranchOutcome, Halt<'a>>)
    ensures
        follows(
            *old(journal),
            *final(journal),
            r,
            branch_once(*config, *branch, old(journal).all(), old(journal).at()),
        ),
{
    let start = start_sync(config, branch, journal)?;
    let base = base_of(&config.repo);
    let call = match branch.sync {
        SyncStrategy::Rebase => GitCall::Rebase { base },
        SyncStrategy::Merge => GitCall::Merge { base },
    };
    let output: &'a CommandOutput = journal.ask(Request::Git(Tree::Main, call))?;
    let details = match settle_sync(config, branch, &start, output, journal)? {
        Stage::Go(details) => details,
        Stage::End(outcome) => {
            return Ok(outcome);
        },
    };
    let batch: Option<&'a CommitSecurityReviewBatch> = match screen(
        branch,
        start.before_head.as_str(),
        &details,
        journal,
    )? {
        Stage::Go(batch) => batch,
        Stage::End(outcome) => {
            return Ok(outcome);
        },
    };
    if let Stage::End(outcome) = test_branch(config, branch, batch, &details, journal)? {
        return Ok(outcome);
    }
    let has_remote: bool = start.remote_before.is_some();
    let found = survey(&config.repo, branch, has_remote, journal)?;
    if let Stage::End(outcome) = push_branch(&config.repo, branch, start.remote_before, journal)? {
        return Ok(outcome);
    }
    let tag = match tag_release(&config.repo, branch, found.after_head, journal)? {
        Stage::Go(tag) => tag,
        Stage::End(outcome) => {
            return Ok(outcome);
        },
    };
    let report = success_report(&config.repo, branch, &start, &found, &tag, details);
    Ok(SyncBranchOutcome::Report(report))
}

/// Works on a branch, and again where its remote branch moved, up to so many times.
pub open spec fn branch_with_retries(
    config: Config,
    branch: BranchConfig,
    retries: nat,
    replies: Seq<Reply>,
    at: nat,
) -> Run<ReportView>
    decreases retries,
{
    match branch_once(config, branch, replies, at) {
        Run::Ask(request) => Run::Ask(request),
        Run::Fail(chain, at) => Run::Fail(chain, at),
        Run::On(BranchView::Report(report), at) => Run::On(report, at),
        Run::On(BranchView::RemoteChanged { expected, current }, at) => if retries == 0 {
            Run::On(
                remote_changed(branch, remote_ref(config.repo, branch), expected, current),
                at,
            )
        } else {
            match aborted(replies, at) {
                Run::Ask(request) => Run::Ask(request),
                Run::Fail(chain, at) => Run::Fail(chain, at),
                Run::On(_, at) => branch_with_retries(
                    config,
                    branch,
                    (retries - 1) as nat,
                    replies,
                    at,
                ),
            }
        },
    }
}

/// Works on a branch, and once more where its remote branch moved.
pub fn sync_branch<'a>(
    config: &'a Config,
    branch: &'a BranchConfig,
    journal: &mut Journal<'a>,
) -> (r: Result<BranchReport, Halt<'a>>)
    ensures
        follows(
            *old(journal),
            *final(journal),
            r,
            branch_with_retries(
                *config,
                *branch,
                MAX_REMOTE_CHANGED_RETRIES as nat,
                old(journal).all(),
                old(journal).at(),
            ),
        ),
{
    let ghost expected_run = branch_with_retries(
        *config,
        *branch,
        MAX_REMOTE_CHANGED_RETRIES as nat,
        journal.all(),
        journal.at(),
    );
    let mut retries: usize = MAX_REMOTE_CHANGED_RETRIES;
    loop
        invariant
            journal.all() == old(journal).all(),
            expected_run == branch_with_retries(
                *config,
                *branch,
                MAX_REMOTE_CHANGED_RETRIES as nat,
                old(journal).all(),
                old(journal).at(),
            ),
            expected_run == branch_with_retries(
                *config,
                *branch,
                retries as nat,
                journal.all(),
                journal.at(),
            ),
        decreases retries,
    {
        match sync_branch_once(config, branch, journal)? {
            SyncBranchOutcome::Report(report) => {
                return Ok(report);
            },
            SyncBranchOutcome::RemoteChanged { expected, current } => {
                if retries == 0 {
                    let remote_branch = remote_of(&config.repo, branch);
                    return Ok(
                        remote_changed_report(
                            branch,
                            remote_branch.as_str(),
                            &expected,
                            &current,
                        ),
                    );
                }
                abort_rebase_or_merge(journal)?;
                retries = retries - 1;
            },
        }
    }
}

/// What a run is about.
#[derive(Debug, Clone)]
pub struct SyncOptions {
    pub branch: Option<String>,
    pub dry_run: bool,
    pub notify_on_noop: bool,
}

impl SyncOptions {
    /// A run that only looks.
    pub fn status_only() -> (r: SyncOptions)
        ensures
            r.branch is None,
            r.dry_run,
            !r.notify_on_noop,
    {
        SyncOptions { branch: None, dry_run: true, notify_on_noop: false }
    }
}

/// Whether a run is about a branch.
pub open spec fn is_selected(options: SyncOptions, branch: BranchConfig) -> bool {
    match options.branch {
        Some(name) => name@ == branch.name@,
        None => true,
    }
}

fn selects(options: &SyncOptions, branch: &BranchConfig) -> (r: bool)
    ensures
        r == is_selected(*options, *branch),
{
    match &options.branch {
        Some(name) => same_text(name.as_str(), branch.name.as_str()),
        None => true,
    }
}

/// Makes the repository ready.
pub open spec fn ready(replies: Seq<Reply>, at: nat) -> Run<()> {
    match asked::<()>(replies, at, git(Tree::Main, GitView::EnsureRepo)) {
        Run::Ask(request) => Run::Ask(request),
        Run::Fail(chain, at) => Run::Fail(chain, at),
        Run::On(_, at) => match asked::<()>(
            replies,
            at,
            git(Tree::Main, GitView::EnsureRemotes),
        ) {
            Run::Ask(request) => Run::Ask(request),
            Run::Fail(chain, at) => Run::Fail(chain, at),
            Run::On(_, at) => asked::<()>(replies, at, git(Tree::Main, GitView::FetchAll)),
        },
    }
}

/// Makes the repository ready.
pub fn make_ready<'a>(journal: &mut Journal<'a>) -> (r: Result<(), Halt<'a>>)
    ensures
        follows(*old(journal), *final(journal), r, ready(old(journal).all(), old(journal).at())),
{
    let _: &'a () = journal.ask(Request::Git(Tree::Main, GitCall::EnsureRepo))?;
    let _: &'a () = journal.ask(Request::Git(Tree::Main, GitCall::EnsureRemotes))?;
    let _: &'a () = journal.ask(Request::Git(Tree::Main, GitCall::FetchAll))?;
    Ok(())
}

/// What a report says of how far two references are apart.
pub open spec fn distance_line(other: Seq<char>, distance: AheadBehind) -> Seq<char> {
    "vs "@ + other + ": ahead "@ + decimal(distance.ahead as nat) + ", behind "@ + decimal(
        distance.behind as nat,
    )
}

fn distance_detail(other: &str, distance: &AheadBehind) -> (r: String)
    ensures
        r@ == distance_line(other@, *distance),
{
    let ahead = count_text(distance.ahead);
    let behind = count_text(distance.behind);
    let mut line = concat5("vs ", other, ": ahead ", ahead.as_str(), ", behind ");
    line.append(behind.as_str());
    line
}

/// What a report says of how far a branch is from a reference, or that there is no such reference.
pub open spec fn compared(
    exists: RequestView,
    branch: BranchConfig,
    other: Seq<char>,
    missing: Seq<char>,
    replies: Seq<Reply>,
    at: nat,
) -> Run<Seq<char>> {
    match asked::<bool>(replies, at, exists) {
        Run::Ask(request) => Run::Ask(request),
        Run::Fail(chain, at) => Run::Fail(chain, at),
        Run::On(false, at) => Run::On(missing + other, at),
        Run::On(true, at) => match asked::<AheadBehind>(
            replies,
            at,
            git(Tree::Main, GitView::AheadBehind { branch: branch.name@, other }),
        ) {
            Run::Ask(request) => Run::Ask(request),
            Run::Fail(chain, at) => Run::Fail(chain, at),
            Run::On(distance, at) => Run::On(distance_line(other, distance), at),
        },
    }
}

fn compare<'a>(
    exists: Request<'a>,
    branch: &'a BranchConfig,
    other: &str,
    missing: &str,
    journal: &mut Journal<'a>,
) -> (r: Result<String, Halt<'a>>)
    ensures
        follows(
            *old(journal),
            *final(journal),
            r,
            compared(
                exists@,
                *branch,
                other@,
                missing@,
                old(journal).all(),
                old(journal).at(),
            ),
        ),
{
    let found: &'a bool = journal.ask(exists)?;
    if !*found {
        return Ok(concat2(missing, other));
    }
    let distance: &'a AheadBehind = journal.ask(
        Request::Git(
            Tree::Main,
            GitCall::AheadBehind { branch: branch.name.as_str(), other: other.to_owned() },
        ),
    )?;
    Ok(distance_detail(other, distance))
}

/// The state of a branch.
pub open spec fn branch_state(
    config: Config,
    branch: BranchConfig,
    replies: Seq<Reply>,
    at: nat,
) -> Run<ReportView> {
    match asked::<bool>(
        replies,
        at,
        git(Tree::Main, GitView::LocalBranchExists { branch: branch.name@ }),
    ) {
        Run::Ask(request) => Run::Ask(request),
        Run::Fail(chain, at) => Run::Fail(chain, at),
        Run::On(false, at) => Run::On(
            ReportView {
                details: seq!["local branch not found"@],
                ..blank_report(branch.name@, branch.kind@, BranchStatus::Failed)
            },
            at,
        ),
        Run::On(true, at) => match asked::<String>(
            replies,
            at,
            git(Tree::Main, GitView::ShortRef { name: branch.name@ }),
        ) {
            Run::Ask(request) => Run::Ask(request),
            Run::Fail(chain, at) => Run::Fail(chain, at),
            Run::On(head, at) => match compared(
                git(Tree::Main, GitView::RefExists { name: base_ref(config.repo) }),
                branch,
                base_ref(config.repo),
                "base ref not found: "@,
                replies,
                at,
            ) {
                Run::Ask(request) => Run::Ask(request),
                Run::Fail(chain, at) => Run::Fail(chain, at),
                Run::On(base_line, at) => match compared(
                    git(
                        Tree::Main,
                        GitView::RemoteBranchExists {
                            remote: config.repo.fork_remote@,
                            branch: branch.name@,
                        },
                    ),
                    branch,
                    remote_ref(config.repo, branch),
                    "remote branch not found: "@,
                    replies,
                    at,
                ) {
                    Run::Ask(request) => Run::Ask(request),
                    Run::Fail(chain, at) => Run::Fail(chain, at),
                    Run::On(remote_line, at) => Run::On(
                        ReportView {
                            head: Some(head@),
                            details: seq![
                                "status only: fetch completed, sync/test/push skipped"@,
                                base_line,
                                remote_line,
                            ],
                            ..blank_report(branch.name@, branch.kind@, BranchStatus::Skipped)
                        },
                        at,
                    ),
                },
            },
        },
    }
}

/// Reports the state of a branch.
pub fn status_branch<'a>(
    config: &'a Config,
    branch: &'a BranchConfig,
    journal: &mut Journal<'a>,
) -> (r: Result<BranchReport, Halt<'a>>)
    ensures
        follows(
            *old(journal),
            *final(journal),
            r,
            branch_state(*config, *branch, old(journal).all(), old(journal).at()),
        ),
{
    let name = branch.name.as_str();
    let exists: &'a bool = journal.ask(
        Request::Git(Tree::Main, GitCall::LocalBranchExists { branch: name }),
    )?;
    if !*exists {
        let entry = BranchReport::new(name, branch.kind.as_str(), BranchStatus::Failed).detail(
            "local branch not found".to_owned(),
        );
        assert(entry@.details =~= seq!["local branch not found"@]);
        return Ok(entry);
    }
    let head: &'a String = journal.ask(
        Request::Git(Tree::Main, GitCall::ShortRef { name: branch.name.clone() }),
    )?;
    let base = base_of(&config.repo);
    let base_line = compare(
        Request::Git(Tree::Main, GitCall::RefExists { name: base.clone() }),
        branch,
        base.as_str(),
        "base ref not found: ",
        journal,
    )?;
    let remote_branch = remote_of(&config.repo, branch);
    let remote_line = compare(
        Request::Git(
            Tree::Main,
            GitCall::RemoteBranchExists {
                remote: config.repo.fork_remote.as_str(),
                branch: name,
            },
        ),
        branch,
        remote_branch.as_str(),
        "remote branch not found: ",
        journal,
    )?;
    let mut entry = BranchReport::new(name, branch.kind.as_str(), BranchStatus::Skipped).detail(
        "status only: fetch completed, sync/test/push skipped".to_owned(),
    ).detail(base_line).detail(remote_line);
    entry.head = Some(head.clone());
    assert(entry@.details =~= seq![
        "status only: fetch completed, sync/test/push skipped"@,
        base_line@,
        remote_line@,
    ]);
    Ok(entry)
}

/// What is done with a branch of a run.
#[derive(Debug, Clone, Copy, PartialEq, Eq, Structural)]
pub enum Task {
    Status,
    DryRun,
    Sync,
}

/// The report of a branch in a run that only fetches.
pub open spec fn dry_run_report(branch: BranchConfig) -> ReportView {
    ReportView {
        details: seq!["dry run: fetch completed, sync/test/push skipped"@],
        ..blank_report(branch.name@, branch.kind@, BranchStatus::Skipped)
    }
}

/// Does what is to be done with a branch.
#[verifier::opaque]
pub open spec fn branch_done(
    config: Config,
    task: Task,
    branch: BranchConfig,
    replies: Seq<Reply>,
    at: nat,
) -> Run<ReportView> {
    match task {
        Task::Status => branch_state(config, branch, replies, at),
        Task::DryRun => Run::On(dry_run_report(branch), at),
        Task::Sync => branch_with_retries(
            config,
            branch,
            MAX_REMOTE_CHANGED_RETRIES as nat,
            replies,
            at,
        ),
    }
}

fn do_branch<'a>(
    config: &'a Config,
    task: Task,
    branch: &'a BranchConfig,
    journal: &mut Journal<'a>,
) -> (r: Result<BranchReport, Halt<'a>>)
    ensures
        follows(
            *old(journal),
            *final(journal),
            r,
            branch_done(*config, task, *branch, old(journal).all(), old(journal).at()),
        ),
{
    reveal(branch_done);
    match task {
        Task::Status => status_branch(config, branch, journal),
        Task::DryRun => {
            let entry = BranchReport::new(
                branch.name.as_str(),
                branch.kind.as_str(),
                BranchStatus::Skipped,
            ).detail("dry run: fetch completed, sync/test/push skipped".to_owned());
            assert(entry@.details =~= dry_run_report(*branch).details);
            Ok(entry)
        },
        Task::Sync => sync_branch(config, branch, journal),
    }
}

/// Does what is to be done with the selected branches, from a given one on.
pub open spec fn branches_done(
    config: Config,
    options: SyncOptions,
    task: Task,
    next: nat,
    entries: Seq<ReportView>,
    replies: Seq<Reply>,
    at: nat,
) -> Run<Seq<ReportView>>
    decreases config.branches@.len() - next,
{
    if next >= config.branches@.len() {
        Run::On(entries, at)
    } else {
        let branch = config.branches@[next as int];
        if is_selected(options, branch) {
            match branch_done(config, task, branch, replies, at) {
                Run::Ask(request) => Run::Ask(request),
                Run::Fail(chain, at) => Run::Fail(chain, at),
                Run::On(entry, at) => branches_done(
                    config,
                    options,
                    task,
                    next + 1,
                    entries.push(entry),
                    replies,
                    at,
                ),
            }
        } else {
            branches_done(config, options, task, next + 1, entries, replies, at)
        }
    }
}

/// The reports of a run that only looks.
pub open spec fn status_run(
    config: Config,
    options: SyncOptions,
    replies: Seq<Reply>,
    at: nat,
) -> Run<Seq<ReportView>> {
    match ready(replies, at) {
        Run::Ask(request) => Run::Ask(request),
        Run::Fail(chain, at) => Run::Fail(chain, at),
        Run::On(_, at) => branches_done(
            config,
            options,
            Task::Status,
            0,
            Seq::empty(),
            replies,
            at,
        ),
    }
}

/// A whole run.
pub open spec fn sync_run(
    config: Config,
    options: SyncOptions,
    replies: Seq<Reply>,
    at: nat,
) -> Run<Seq<ReportView>> {
    match ready(replies, at) {
        Run::Ask(request) => Run::Ask(request),
        Run::Fail(chain, at) => Run::Fail(chain, at),
        Run::On(_, at) => if options.dry_run {
            branches_done(config, options, Task::DryRun, 0, Seq::empty(), replies, at)
        } else {
            match branches_done(config, options, Task::Sync, 0, Seq::empty(), replies, at) {
                Run::Ask(request) => Run::Ask(request),
                Run::Fail(chain, at) => Run::Fail(chain, at),
                Run::On(entries, at) => match end_notified(
                    config,
                    options.notify_on_noop,
                    entries,
                    replies,
                    at,
                ) {
                    Run::Ask(request) => Run::Ask(request),
                    Run::Fail(chain, at) => Run::Fail(chain, at),
                    Run::On(_, at) => Run::On(entries, at),
                },
            }
        },
    }
}

/// Runs over the branches of a project.
pub struct SyncRunner {
    config: Config,
    options: SyncOptions,
}

impl SyncRunner {
    /// The settings of the runs.
    pub closed spec fn settings(&self) -> Config {
        self.config
    }

    /// What the runs are about.
    pub closed spec fn choice(&self) -> SyncOptions {
        self.options
    }

    /// Runs with given settings.
    pub fn new(config: Config, options: SyncOptions) -> (r: SyncRunner)
        ensures
            r.settings() == config,
            r.choice() == options,
    {
        SyncRunner { config, options }
    }

    fn do_branches<'a>(&'a self, task: Task, journal: &mut Journal<'a>) -> (r: Result<
        SyncReport,
        Halt<'a>,
    >)
        ensures
            follows(
                *old(journal),
                *final(journal),
                r,
                branches_done(
                    self.settings(),
                    self.choice(),
                    task,
                    0,
                    Seq::empty(),
                    old(journal).all(),
                    old(journal).at(),
                ),
            ),
    {
        let mut report = SyncReport::default();
        let mut i: usize = 0;
        while i < self.config.branches.len()
            invariant
                i <= self.config.branches@.len(),
                journal.all() == old(journal).all(),
                branches_done(
                    self.config,
                    self.options,
                    task,
                    0,
                    Seq::empty(),
                    old(journal).all(),
                    old(journal).at(),
                ) == branches_done(
                    self.config,
                    self.options,
                    task,
                    i as nat,
                    report@,
                    journal.all(),
                    journal.at(),
                ),
            decreases self.config.branches@.len() - i,
        {
            let branch: &'a BranchConfig = &self.config.branches[i];
            if selects(&self.options, branch) {
                let entry = do_branch(&self.config, task, branch, journal)?;
                report.push(entry);
            }
            i = i + 1;
        }
        Ok(report)
    }

    /// Looks at the selected branches.
    pub fn status<'a>(&'a self, replies: &'a Vec<Reply>) -> (r: Result<SyncReport, Halt<'a>>)
        ensures
            result_of(r, status_run(self.settings(), self.choice(), replies@, 0)),
    {
        let mut journal = Journal::new(replies);
        make_ready(&mut journal)?;
        self.do_branches(Task::Status, &mut journal)
    }

    /// Brings the selected branches in step, and tells how that went.
    pub fn run<'a>(&'a self, replies: &'a Vec<Reply>) -> (r: Result<SyncReport, Halt<'a>>)
        ensures
            result_of(r, sync_run(self.settings(), self.choice(), replies@, 0)),
    {
        let mut journal = Journal::new(replies);
        make_ready(&mut journal)?;
        if self.options.dry_run {
            return self.do_branches(Task::DryRun, &mut journal);
        }
        let report = self.do_branches(Task::Sync, &mut journal)?;
        notify_end(&self.config, self.options.notify_on_noop, &report, &mut journal)?;
        Ok(report)
    }
}

/// Whether the result of a whole run is that of a run.
pub open spec fn result_of<'a>(
    r: Result<SyncReport, Halt<'a>>,
    run: Run<Seq<ReportView>>,
) -> bool {
    match run {
        Run::Ask(request) => r matches Err(Halt::Ask(found)) && found@ == request,
        Run::Fail(chain, _) => r matches Err(Halt::Fail(fault)) && fault@ == chain,
        Run::On(entries, _) => r matches Ok(report) && report@ == entries,
    }
}

} // verus!
