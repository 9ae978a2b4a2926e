//! Jobs: what is done step by step, and what is kept of it.

use vstd::prelude::*;

use crate::calls::conflict::{ConflictCall, ConflictView};
use crate::calls::git::{GitCall, GitView};
use crate::calls::job::{HeadsView, JobCall, JobCallView, SavedHeads};
use crate::calls::{Request, RequestView, Tree};
use crate::command::{add_worktree_args, git, resolve_ref, resolved_ref, worktree_args};
use crate::config::{BranchConfig, Config, SyncStrategy};
use crate::fault::{fault_text, Fault};
use crate::journal::{asked, caught, follows, passed, Halt, Journal, Reply, Run};
use crate::llm::types::{AutoResolveConflictRequest, ConflictOptionsDecision};
use crate::llm::{ways_out, LlmService};
use crate::path::{below, path_below};
use crate::repo::{AutoResolvedSync, CapturedConflict, CommandOutput};
use crate::service::jobs::finish::{finish_automatic_sync, finished, job};
use crate::service::jobs::low_risk::{capture_request, low_risk, try_low_risk_auto_resolve};
use crate::sync::auto_resolve::{branch_facts, patch_or_default, patch_or_unknown};
use crate::sync::conflict::{base_of, base_ref};
use crate::sync::{make_ready, ready};
use crate::text::pattern::{contains, holds};
use crate::text::{concat2, concat3, text_option, trim, trimmed};

pub mod finish;
pub mod laws;
pub mod low_risk;
pub mod outcomes;
pub mod report;
pub mod steps;

verus! {

/// A state of the job.
pub open spec fn state_request(state: Seq<char>, summary: Seq<char>) -> RequestView {
    job(JobCallView::SetState { state, summary })
}

fn state_call<'a>(state: &str, summary: &str) -> (r: Request<'a>)
    ensures
        r@ == state_request(state@, summary@),
{
    Request::Job(JobCall::SetState { state: state.to_owned(), summary: summary.to_owned() })
}

/// An event of the job.
pub open spec fn emit_request(kind: Seq<char>, message: Seq<char>) -> RequestView {
    job(JobCallView::Emit { kind, message })
}

fn emit_call<'a>(kind: &str, message: &str) -> (r: Request<'a>)
    ensures
        r@ == emit_request(kind@, message@),
{
    Request::Job(JobCall::Emit { kind: kind.to_owned(), message: message.to_owned() })
}

/// A step whose outcome does not matter.
pub open spec fn tried(request: RequestView, replies: Seq<Reply>, at: nat) -> Run<()> {
    passed(caught(asked::<()>(replies, at, request)))
}

fn try_step<'a>(request: Request<'a>, journal: &mut Journal<'a>) -> (r: Result<(), Halt<'a>>)
    ensures
        follows(
            *old(journal),
            *final(journal),
            r,
            tried(request@, old(journal).all(), old(journal).at()),
        ),
{
    match journal.ask::<()>(request) {
        Ok(_) => Ok(()),
        Err(Halt::Fail(_)) => Ok(()),
        Err(halt) => Err(halt),
    }
}

/// A run that took the lock of the repository: whatever it comes to, the lock is given back.
pub open spec fn released<T>(run: Run<T>, replies: Seq<Reply>) -> Run<T> {
    match run {
        Run::Ask(request) => Run::Ask(request),
        Run::Fail(chain, at) => match tried(job(JobCallView::Unlock), replies, at) {
            Run::Ask(request) => Run::Ask(request),
            Run::Fail(other, at) => Run::Fail(other, at),
            Run::On(_, at) => Run::Fail(chain, at),
        },
        Run::On(value, at) => match tried(job(JobCallView::Unlock), replies, at) {
            Run::Ask(request) => Run::Ask(request),
            Run::Fail(other, at) => Run::Fail(other, at),
            Run::On(_, at) => Run::On(value, at),
        },
    }
}

/// Gives the lock of the repository back, and hands on what was done under it.
fn release<'a>(done: Result<(), Halt<'a>>, journal: &mut Journal<'a>) -> (r: Result<(), Halt<'a>>)
    ensures
        final(journal).all() == old(journal).all(),
        match done {
            Err(Halt::Ask(request)) => r matches Err(Halt::Ask(found)) && found@ == request@,
            Err(Halt::Fail(fault)) => follows(
                *old(journal),
                *final(journal),
                r,
                released(Run::<()>::Fail(fault@, old(journal).at()), old(journal).all()),
            ),
            Ok(()) => follows(
                *old(journal),
                *final(journal),
                r,
                released(Run::On((), old(journal).at()), old(journal).all()),
            ),
        },
{
    if let Err(Halt::Ask(request)) = done {
        return Err(Halt::Ask(request));
    }
    try_step(Request::Job(JobCall::Unlock), journal)?;
    done
}

/// What a check does under the lock of the repository.
pub open spec fn check_steps(replies: Seq<Reply>, at: nat) -> Run<()> {
    match asked::<Config>(replies, at, job(JobCallView::Settings)) {
        Run::Ask(request) => Run::Ask(request),
        Run::Fail(chain, at) => Run::Fail(chain, at),
        Run::On(_, at) => match asked::<String>(replies, at, job(JobCallView::Doctor)) {
            Run::Ask(request) => Run::Ask(request),
            Run::Fail(chain, at) => Run::Fail(chain, at),
            Run::On(report, at) => match asked::<()>(
                replies,
                at,
                git(Tree::Main, GitView::FetchAll),
            ) {
                Run::Ask(request) => Run::Ask(request),
                Run::Fail(chain, at) => Run::Fail(chain, at),
                Run::On(_, at) => match asked::<()>(
                    replies,
                    at,
                    job(JobCallView::SaveTestOutput { output: report@ }),
                ) {
                    Run::Ask(request) => Run::Ask(request),
                    Run::Fail(chain, at) => Run::Fail(chain, at),
                    Run::On(_, at) => asked::<()>(
                        replies,
                        at,
                        state_request("completed"@, "仓库检查完成"@),
                    ),
                },
            },
        },
    }
}

fn check_under_lock<'a>(journal: &mut Journal<'a>) -> (r: Result<(), Halt<'a>>)
    ensures
        follows(
            *old(journal),
            *final(journal),
            r,
            check_steps(old(journal).all(), old(journal).at()),
        ),
{
    let _: &'a Config = journal.ask(Request::Job(JobCall::Settings))?;
    let report: &'a String = journal.ask(Request::Job(JobCall::Doctor))?;
    let _: &'a () = journal.ask(Request::Git(Tree::Main, GitCall::FetchAll))?;
    let _: &'a () = journal.ask(
        Request::Job(JobCall::SaveTestOutput { output: report.clone() }),
    )?;
    let _: &'a () = journal.ask(state_call("completed", "仓库检查完成"))?;
    Ok(())
}

/// A check of the repository.
pub open spec fn check_run(replies: Seq<Reply>, at: nat) -> Run<()> {
    match asked::<()>(replies, at, state_request("running"@, "正在检查仓库"@)) {
        Run::Ask(request) => Run::Ask(request),
        Run::Fail(chain, at) => Run::Fail(chain, at),
        Run::On(_, at) => match asked::<()>(replies, at, job(JobCallView::Lock)) {
            Run::Ask(request) => Run::Ask(request),
            Run::Fail(chain, at) => Run::Fail(chain, at),
            Run::On(_, at) => released(check_steps(replies, at), replies),
        },
    }
}

/// Checks the repository.
pub fn execute_check_inner<'a>(journal: &mut Journal<'a>) -> (r: Result<(), Halt<'a>>)
    ensures
        follows(
            *old(journal),
            *final(journal),
            r,
            check_run(old(journal).all(), old(journal).at()),
        ),
{
    let _: &'a () = journal.ask(state_call("running", "正在检查仓库"))?;
    let _: &'a () = journal.ask(Request::Job(JobCall::Lock))?;
    let done = check_under_lock(journal);
    release(done, journal)
}

/// A check job; where the check fails, that is kept.
pub open spec fn check_job(replies: Seq<Reply>, at: nat) -> Run<()> {
    match caught(check_run(replies, at)) {
        Run::Ask(request) => Run::Ask(request),
        Run::Fail(chain, at) => Run::Fail(chain, at),
        Run::On(Ok(_), at) => Run::On((), at),
        Run::On(Err(chain), at) => tried(
            state_request("failed"@, fault_text(chain)),
            replies,
            at,
        ),
    }
}

/// Where the worktree of a job is.
pub open spec fn worktree_of(data_dir: Seq<char>, job_id: Seq<char>) -> Seq<char> {
    below(below(data_dir, "worktrees"@), job_id)
}

/// Where the worktree of a job is.
pub fn worktree_path(data_dir: &str, job_id: &str) -> (r: String)
    ensures
        r@ == worktree_of(data_dir@, job_id@),
{
    let parent = path_below(data_dir, "worktrees");
    path_below(parent.as_str(), job_id)
}

/// What adding a worktree does under the lock of the repository.
pub open spec fn worktree_steps(
    config: Config,
    branch_name: Seq<char>,
    worktree: Seq<char>,
    replies: Seq<Reply>,
    at: nat,
) -> Run<()> {
    let remote_ref = config.repo.fork_remote@ + "/"@ + branch_name;
    match ready(replies, at) {
        Run::Ask(request) => Run::Ask(request),
        Run::Fail(chain, at) => Run::Fail(chain, at),
        Run::On(_, at) => match asked::<bool>(
            replies,
            at,
            job(JobCallView::WorktreeExists { path: worktree }),
        ) {
            Run::Ask(request) => Run::Ask(request),
            Run::Fail(chain, at) => Run::Fail(chain, at),
            Run::On(true, at) => Run::Fail(seq!["任务 worktree 已存在："@ + worktree], at),
            Run::On(false, at) => match asked::<Option<String>>(
                replies,
                at,
                job(JobCallView::OptionalRef { reference: remote_ref }),
            ) {
                Run::Ask(request) => Run::Ask(request),
                Run::Fail(chain, at) => Run::Fail(chain, at),
                Run::On(found, at) => match asked::<CommandOutput>(
                    replies,
                    at,
                    git(
                        Tree::Main,
                        GitView::Run {
                            args: worktree_args(
                                worktree,
                                if found is Some {
                                    remote_ref
                                } else {
                                    branch_name
                                },
                            ),
                        },
                    ),
                ) {
                    Run::Ask(request) => Run::Ask(request),
                    Run::Fail(chain, at) => Run::Fail(chain, at),
                    Run::On(output, at) => if output.succeeded() {
                        Run::On((), at)
                    } else {
                        Run::Fail(seq!["创建 worktree 失败："@ + trimmed(output.stderr@)], at)
                    },
                },
            },
        },
    }
}

/// Adds the worktree of a job, at the remote branch where there is one.
#[verifier::opaque]
pub open spec fn worktree_added(
    config: Config,
    branch_name: Seq<char>,
    worktree: Seq<char>,
    replies: Seq<Reply>,
    at: nat,
) -> Run<()> {
    match asked::<()>(replies, at, job(JobCallView::Lock)) {
        Run::Ask(request) => Run::Ask(request),
        Run::Fail(chain, at) => Run::Fail(chain, at),
        Run::On(_, at) => released(
            worktree_steps(config, branch_name, worktree, replies, at),
            replies,
        ),
    }
}

fn add_under_lock<'a>(
    config: &'a Config,
    branch_name: &str,
    worktree: &str,
    journal: &mut Journal<'a>,
) -> (r: Result<(), Halt<'a>>)
    ensures
        follows(
            *old(journal),
            *final(journal),
            r,
            worktree_steps(
                *config,
                branch_name@,
                worktree@,
                old(journal).all(),
                old(journal).at(),
            ),
        ),
{
    make_ready(journal)?;
    let exists: &'a bool = journal.ask(
        Request::Job(JobCall::WorktreeExists { path: worktree.to_owned() }),
    )?;
    if *exists {
        return Err(Halt::Fail(Fault::new(concat2("任务 worktree 已存在：", worktree))));
    }
    let remote_ref = concat3(config.repo.fork_remote.as_str(), "/", branch_name);
    let found: &'a Option<String> = journal.ask(
        Request::Job(JobCall::OptionalRef { reference: remote_ref.clone() }),
    )?;
    let args = if found.is_some() {
        add_worktree_args(worktree, remote_ref.as_str())
    } else {
        add_worktree_args(worktree, branch_name)
    };
    let output: &'a CommandOutput = journal.ask(Request::Git(Tree::Main, GitCall::Run { args }))?;
    if !output.success() {
        let stderr = trim(output.stderr.as_str());
        return Err(
            Halt::Fail(Fault::new(concat2("创建 worktree 失败：", stderr.as_str()))),
        );
    }
    Ok(())
}

fn add_worktree<'a>(
    config: &'a Config,
    branch_name: &str,
    worktree: &str,
    journal: &mut Journal<'a>,
) -> (r: Result<(), Halt<'a>>)
    ensures
        follows(
            *old(journal),
            *final(journal),
            r,
            worktree_added(
                *config,
                branch_name@,
                worktree@,
                old(journal).all(),
                old(journal).at(),
            ),
        ),
{
    reveal(worktree_added);
    let _: &'a () = journal.ask(Request::Job(JobCall::Lock))?;
    let done = add_under_lock(config, branch_name, worktree, journal);
    release(done, journal)
}

/// Keeps where a job starts.
#[verifier::opaque]
pub open spec fn heads_saved(
    config: Config,
    branch_name: Seq<char>,
    worktree: Seq<char>,
    replies: Seq<Reply>,
    at: nat,
) -> Run<()> {
    match resolved_ref(Tree::Work, "HEAD"@, replies, at) {
        Run::Ask(request) => Run::Ask(request),
        Run::Fail(chain, at) => Run::Fail(chain, at),
        Run::On(before_head, at) => match resolved_ref(Tree::Work, base_ref(config.repo), replies, at) {
            Run::Ask(request) => Run::Ask(request),
            Run::Fail(chain, at) => Run::Fail(chain, at),
            Run::On(base_head, at) => match asked::<Option<String>>(
                replies,
                at,
                git(
                    Tree::Main,
                    GitView::RemoteHead { remote: config.repo.fork_remote@, branch: branch_name },
                ),
            ) {
                Run::Ask(request) => Run::Ask(request),
                Run::Fail(chain, at) => Run::Fail(chain, at),
                Run::On(remote_head, at) => match asked::<()>(
                    replies,
                    at,
                    job(
                        JobCallView::SaveHeads {
                            heads: HeadsView {
                                worktree_path: worktree,
                                base_ref: base_ref(config.repo),
                                before_head,
                                base_head,
                                remote_head: match remote_head {
                                    Some(head) => head@,
                                    None => Seq::empty(),
                                },
                            },
                        },
                    ),
                ) {
                    Run::Ask(request) => Run::Ask(request),
                    Run::Fail(chain, at) => Run::Fail(chain, at),
                    Run::On(_, at) => asked::<()>(
                        replies,
                        at,
                        emit_request("git"@, "隔离 worktree 已创建，开始同步"@),
                    ),
                },
            },
        },
    }
}

fn save_heads<'a>(
    config: &'a Config,
    branch_name: &'a str,
    worktree: &str,
    journal: &mut Journal<'a>,
) -> (r: Result<(), Halt<'a>>)
    ensures
        follows(
            *old(journal),
            *final(journal),
            r,
            heads_saved(
                *config,
                branch_name@,
                worktree@,
                old(journal).all(),
                old(journal).at(),
            ),
        ),
{
    reveal(heads_saved);
    let base = base_of(&config.repo);
    let before_head = resolve_ref(Tree::Work, "HEAD", journal)?;
    let base_head = resolve_ref(Tree::Work, base.as_str(), journal)?;
    let found: &'a Option<String> = journal.ask(
        Request::Git(
            Tree::Main,
            GitCall::RemoteHead {
                remote: config.repo.fork_remote.as_str(),
                branch: branch_name,
            },
        ),
    )?;
    let remote_head: String = match found {
        Some(head) => head.clone(),
        None => String::new(),
    };
    assert(found is None ==> remote_head@ =~= Seq::<char>::empty());
    let heads = SavedHeads {
        worktree_path: worktree.to_owned(),
        base_ref: base,
        before_head,
        base_head,
        remote_head,
    };
    let _: &'a () = journal.ask(Request::Job(JobCall::SaveHeads { heads }))?;
    let _: &'a () = journal.ask(emit_call("git", "隔离 worktree 已创建，开始同步"))?;
    Ok(())
}

/// The request that brings the worktree in step.
pub open spec fn work_sync_request(config: Config, branch: BranchConfig) -> RequestView {
    match branch.sync {
        SyncStrategy::Rebase => git(Tree::Work, GitView::Rebase { base: base_ref(config.repo) }),
        SyncStrategy::Merge => git(Tree::Work, GitView::Merge { base: base_ref(config.repo) }),
    }
}

/// What becomes of conflicts that a person must decide: they are kept, with the ways out that the
/// model names.
#[verifier::opaque]
pub open spec fn handed_over(
    config: Config,
    branch: BranchConfig,
    captured: CapturedConflict,
    replies: Seq<Reply>,
    at: nat,
) -> Run<()> {
    match asked::<()>(
        replies,
        at,
        job(
            JobCallView::SaveConflict { snapshot: captured.snapshot, files: captured.files },
        ),
    ) {
        Run::Ask(request) => Run::Ask(request),
        Run::Fail(chain, at) => Run::Fail(chain, at),
        Run::On(_, at) => match patch_or_unknown(Tree::Work, replies, at) {
            Run::Ask(request) => Run::Ask(request),
            Run::Fail(chain, at) => Run::Fail(chain, at),
            Run::On(patch, at) => match caught(
                ways_out(
                    config.llm,
                    branch_facts(branch, base_ref(config.repo), patch, captured.snapshot),
                    captured.files,
                    "尚无人工补充要求"@,
                    replies,
                    at,
                ),
            ) {
                Run::Ask(request) => Run::Ask(request),
                Run::Fail(chain, at) => Run::Fail(chain, at),
                Run::On(named, at) => guidance_saved(
                    branch,
                    match named {
                        Ok(options) => options,
                        Err(_) => None,
                    },
                    replies,
                    at,
                ),
            },
        },
    }
}

/// Keeps that a person must decide, and tells so.
pub open spec fn guidance_saved(
    branch: BranchConfig,
    options: Option<ConflictOptionsDecision>,
    replies: Seq<Reply>,
    at: nat,
) -> Run<()> {
    match asked::<()>(
        replies,
        at,
        job(
            JobCallView::SaveGuidance {
                state: "waiting_guidance"@,
                risk: "functional"@,
                summary: match options {
                    Some(decision) => decision.summary@,
                    None => "功能性冲突已保留，DeepSeek 方案暂时不可用"@,
                },
                options,
            },
        ),
    ) {
        Run::Ask(request) => Run::Ask(request),
        Run::Fail(chain, at) => Run::Fail(chain, at),
        Run::On(_, at) => match asked::<()>(
            replies,
            at,
            emit_request("conflict"@, "功能性冲突正在等待人工指导"@),
        ) {
            Run::Ask(request) => Run::Ask(request),
            Run::Fail(chain, at) => Run::Fail(chain, at),
            Run::On(_, at) => asked::<()>(
                replies,
                at,
                job(
                    JobCallView::NotifyOnce {
                        event: "waiting_guidance"@,
                        subject: branch.name@ + " 同步需要处理"@,
                        body: "TermiteRS 检测到功能性冲突，请打开维护看板处理。"@,
                    },
                ),
            ),
        },
    }
}

fn save_guidance<'a>(
    branch: &'a BranchConfig,
    options: Option<&'a ConflictOptionsDecision>,
    journal: &mut Journal<'a>,
) -> (r: Result<(), Halt<'a>>)
    ensures
        follows(
            *old(journal),
            *final(journal),
            r,
            guidance_saved(
                *branch,
                match options {
                    Some(decision) => Some(*decision),
                    None => None,
                },
                old(journal).all(),
                old(journal).at(),
            ),
        ),
{
    let summary: String = match options {
        Some(decision) => decision.summary.clone(),
        None => "功能性冲突已保留，DeepSeek 方案暂时不可用".to_owned(),
    };
    let _: &'a () = journal.ask(
        Request::Job(
            JobCall::SaveGuidance {
                state: "waiting_guidance".to_owned(),
                risk: "functional".to_owned(),
                summary,
                options,
            },
        ),
    )?;
    let _: &'a () = journal.ask(emit_call("conflict", "功能性冲突正在等待人工指导"))?;
    let _: &'a () = journal.ask(
        Request::Job(
            JobCall::NotifyOnce {
                event: "waiting_guidance".to_owned(),
                subject: concat2(branch.name.as_str(), " 同步需要处理"),
                body: "TermiteRS 检测到功能性冲突，请打开维护看板处理。".to_owned(),
            },
        ),
    )?;
    Ok(())
}

fn hand_over<'a>(
    config: &'a Config,
    branch: &'a BranchConfig,
    captured: &'a CapturedConflict,
    journal: &mut Journal<'a>,
) -> (r: Result<(), Halt<'a>>)
    ensures
        follows(
            *old(journal),
            *final(journal),
            r,
            handed_over(*config, *branch, *captured, old(journal).all(), old(journal).at()),
        ),
{
    reveal(handed_over);
    let _: &'a () = journal.ask(
        Request::Job(
            JobCall::SaveConflict { snapshot: &captured.snapshot, files: &captured.files },
        ),
    )?;
    let patch_context = patch_or_default(Tree::Work, journal)?;
    let request = AutoResolveConflictRequest {
        branch: branch.name.clone(),
        base: base_of(&config.repo),
        branch_note: branch.note.clone(),
        patch_context,
        snapshot: &captured.snapshot,
        files: &captured.files,
    };
    assert(request@ == branch_facts(
        *branch,
        base_ref(config.repo),
        patch_context@,
        captured.snapshot,
    ));
    let llm = LlmService::new(&config.llm);
    let options: Option<&'a ConflictOptionsDecision> = match llm.conflict_options(
        &request,
        "尚无人工补充要求",
        journal,
    ) {
        Ok(options) => options,
        Err(Halt::Fail(_)) => None,
        Err(halt) => {
            return Err(halt);
        },
    };
    save_guidance(branch, options, journal)
}

/// Keeps that a job failed, and adds an event.
pub open spec fn failure_saved(
    summary: Seq<char>,
    printed: Option<Seq<char>>,
    message: Seq<char>,
    replies: Seq<Reply>,
    at: nat,
) -> Run<()> {
    match asked::<()>(
        replies,
        at,
        job(JobCallView::SaveFailure { state: "failed"@, summary, printed }),
    ) {
        Run::Ask(request) => Run::Ask(request),
        Run::Fail(chain, at) => Run::Fail(chain, at),
        Run::On(_, at) => asked::<()>(replies, at, emit_request("sync"@, message)),
    }
}

fn save_failure<'a>(
    summary: &str,
    printed: Option<String>,
    message: &str,
    journal: &mut Journal<'a>,
) -> (r: Result<(), Halt<'a>>)
    ensures
        follows(
            *old(journal),
            *final(journal),
            r,
            failure_saved(
                summary@,
                text_option(printed),
                message@,
                old(journal).all(),
                old(journal).at(),
            ),
        ),
{
    let _: &'a () = journal.ask(
        Request::Job(
            JobCall::SaveFailure {
                state: "failed".to_owned(),
                summary: summary.to_owned(),
                printed,
            },
        ),
    )?;
    let _: &'a () = journal.ask(emit_call("sync", message))?;
    Ok(())
}

/// Goes on with conflicts: they are resolved without a person where that is safe, and handed over
/// otherwise.
#[verifier::opaque]
pub open spec fn conflict_handled(
    config: Config,
    branch: BranchConfig,
    captured: CapturedConflict,
    notify_on_noop: bool,
    replies: Seq<Reply>,
    at: nat,
) -> Run<()> {
    match caught(low_risk(config, branch, captured, replies, at)) {
        Run::Ask(request) => Run::Ask(request),
        Run::Fail(chain, at) => Run::Fail(chain, at),
        Run::On(Ok(Some(true)), at) => finished(config, branch, notify_on_noop, replies, at),
        Run::On(Ok(Some(false)), at) => match asked::<CapturedConflict>(
            replies,
            at,
            capture_request(branch),
        ) {
            Run::Ask(request) => Run::Ask(request),
            Run::Fail(chain, at) => Run::Fail(chain, at),
            Run::On(rest, at) => if rest.snapshot.files@.len() == 0 {
                failure_saved(
                    "低风险自动修复后未检测到剩余冲突文件，但同步尚未完成"@,
                    None,
                    "低风险自动修复后没有剩余冲突文件，任务已停止等待人工检查"@,
                    replies,
                    at,
                )
            } else {
                handed_over(config, branch, rest, replies, at)
            },
        },
        Run::On(_, at) => handed_over(config, branch, captured, replies, at),
    }
}

fn handle_conflict<'a>(
    config: &'a Config,
    branch: &'a BranchConfig,
    captured: &'a CapturedConflict,
    notify_on_noop: bool,
    journal: &mut Journal<'a>,
) -> (r: Result<(), Halt<'a>>)
    ensures
        follows(
            *old(journal),
            *final(journal),
            r,
            conflict_handled(
                *config,
                *branch,
                *captured,
                notify_on_noop,
                old(journal).all(),
                old(journal).at(),
            ),
        ),
{
    reveal(conflict_handled);
    match try_low_risk_auto_resolve(config, branch, captured, journal) {
        Ok(Some(done)) => {
            if done {
                return finish_automatic_sync(config, branch, notify_on_noop, journal);
            }
            let rest: &'a CapturedConflict = journal.ask(
                Request::Conflict(ConflictCall::Capture { branch }),
            )?;
            if rest.snapshot.files.len() == 0 {
                return save_failure(
                    "低风险自动修复后未检测到剩余冲突文件，但同步尚未完成",
                    None,
                    "低风险自动修复后没有剩余冲突文件，任务已停止等待人工检查",
                    journal,
                );
            }
            hand_over(config, branch, rest, journal)
        },
        Ok(None) => hand_over(config, branch, captured, journal),
        Err(Halt::Fail(_)) => hand_over(config, branch, captured, journal),
        Err(halt) => Err(halt),
    }
}

/// Goes on with a sync that stopped.
#[verifier::opaque]
pub open spec fn stop_handled(
    config: Config,
    branch: BranchConfig,
    output: CommandOutput,
    notify_on_noop: bool,
    replies: Seq<Reply>,
    at: nat,
) -> Run<()> {
    match asked::<CapturedConflict>(replies, at, capture_request(branch)) {
        Run::Ask(request) => Run::Ask(request),
        Run::Fail(chain, at) => Run::Fail(chain, at),
        Run::On(captured, at) => if captured.snapshot.files@.len() > 0 {
            conflict_handled(config, branch, captured, notify_on_noop, replies, at)
        } else {
            match asked::<AutoResolvedSync>(
                replies,
                at,
                RequestView::Conflict(
                    ConflictView::ContinueStaged {
                        branch,
                        reason: "同步失败，但没有检测到 Git 未合并冲突文件"@,
                        first: output,
                    },
                ),
            ) {
                Run::Ask(request) => Run::Ask(request),
                Run::Fail(chain, at) => Run::Fail(chain, at),
                Run::On(AutoResolvedSync::Completed, at) => finished(
                    config,
                    branch,
                    notify_on_noop,
                    replies,
                    at,
                ),
                Run::On(AutoResolvedSync::Conflict(next), at) => conflict_handled(
                    config,
                    branch,
                    next,
                    notify_on_noop,
                    replies,
                    at,
                ),
                Run::On(AutoResolvedSync::Failed(details), at) => match tried(
                    git(Tree::Work, GitView::Abort),
                    replies,
                    at,
                ) {
                    Run::Ask(request) => Run::Ask(request),
                    Run::Fail(chain, at) => Run::Fail(chain, at),
                    Run::On(_, at) => match tried(
                        job(JobCallView::RemoveWorktree),
                        replies,
                        at,
                    ) {
                        Run::Ask(request) => Run::Ask(request),
                        Run::Fail(chain, at) => Run::Fail(chain, at),
                        Run::On(_, at) => failure_saved(
                            "同步失败，未检测到冲突文件"@,
                            Some(details@),
                            "同步失败，但没有检测到可分析的冲突文件"@,
                            replies,
                            at,
                        ),
                    },
                },
            }
        },
    }
}

fn handle_stop<'a>(
    config: &'a Config,
    branch: &'a BranchConfig,
    output: &'a CommandOutput,
    notify_on_noop: bool,
    journal: &mut Journal<'a>,
) -> (r: Result<(), Halt<'a>>)
    ensures
        follows(
            *old(journal),
            *final(journal),
            r,
            stop_handled(
                *config,
                *branch,
                *output,
                notify_on_noop,
                old(journal).all(),
                old(journal).at(),
            ),
        ),
{
    reveal(stop_handled);
    let captured: &'a CapturedConflict = journal.ask(
        Request::Conflict(ConflictCall::Capture { branch }),
    )?;
    if captured.snapshot.files.len() > 0 {
        return handle_conflict(config, branch, captured, notify_on_noop, journal);
    }
    let continued: &'a AutoResolvedSync = journal.ask(
        Request::Conflict(
            ConflictCall::ContinueStaged {
                branch,
                reason: "同步失败，但没有检测到 Git 未合并冲突文件".to_owned(),
                first: output,
            },
        ),
    )?;
    match continued {
        AutoResolvedSync::Completed => finish_automatic_sync(
            config,
            branch,
            notify_on_noop,
            journal,
        ),
        AutoResolvedSync::Conflict(next) => handle_conflict(
            config,
            branch,
            next,
            notify_on_noop,
            journal,
        ),
        AutoResolvedSync::Failed(details) => {
            try_step(Request::Git(Tree::Work, GitCall::Abort), journal)?;
            try_step(Request::Job(JobCall::RemoveWorktree), journal)?;
            save_failure(
                "同步失败，未检测到冲突文件",
                Some(details.clone()),
                "同步失败，但没有检测到可分析的冲突文件",
                journal,
            )
        },
    }
}

/// A sync of a branch in a worktree of its own.
pub open spec fn sync_job_run(
    data_dir: Seq<char>,
    job_id: Seq<char>,
    branch_name: Seq<char>,
    notify_on_noop: bool,
    replies: Seq<Reply>,
    at: nat,
) -> Run<()> {
    let worktree = worktree_of(data_dir, job_id);
    match asked::<()>(replies, at, state_request("running"@, "正在获取远端状态"@)) {
        Run::Ask(request) => Run::Ask(request),
        Run::Fail(chain, at) => Run::Fail(chain, at),
        Run::On(_, at) => match asked::<Config>(replies, at, job(JobCallView::Settings)) {
            Run::Ask(request) => Run::Ask(request),
            Run::Fail(chain, at) => Run::Fail(chain, at),
            Run::On(config, at) => match asked::<BranchConfig>(
                replies,
                at,
                job(JobCallView::Branch { name: branch_name }),
            ) {
                Run::Ask(request) => Run::Ask(request),
                Run::Fail(chain, at) => Run::Fail(chain, at),
                Run::On(branch, at) => match worktree_added(
                    config,
                    branch_name,
                    worktree,
                    replies,
                    at,
                ) {
                    Run::Ask(request) => Run::Ask(request),
                    Run::Fail(chain, at) => Run::Fail(chain, at),
                    Run::On(_, at) => match heads_saved(
                        config,
                        branch_name,
                        worktree,
                        replies,
                        at,
                    ) {
                        Run::Ask(request) => Run::Ask(request),
                        Run::Fail(chain, at) => Run::Fail(chain, at),
                        Run::On(_, at) => match asked::<CommandOutput>(
                            replies,
                            at,
                            work_sync_request(config, branch),
                        ) {
                            Run::Ask(request) => Run::Ask(request),
                            Run::Fail(chain, at) => Run::Fail(chain, at),
                            Run::On(output, at) => if output.succeeded() {
                                finished(config, branch, notify_on_noop, replies, at)
                            } else {
                                stop_handled(config, branch, output, notify_on_noop, replies, at)
                            },
                        },
                    },
                },
            },
        },
    }
}

/// Syncs a branch in a worktree of its own.
pub fn execute_sync_inner<'a>(
    data_dir: &str,
    job_id: &str,
    branch_name: &'a str,
    notify_on_noop: bool,
    journal: &mut Journal<'a>,
) -> (r: Result<(), Halt<'a>>)
    ensures
        follows(
            *old(journal),
            *final(journal),
            r,
            sync_job_run(
                data_dir@,
                job_id@,
                branch_name@,
                notify_on_noop,
                old(journal).all(),
                old(journal).at(),
            ),
        ),
{
    let worktree = worktree_path(data_dir, job_id);
    let _: &'a () = journal.ask(state_call("running", "正在获取远端状态"))?;
    let config: &'a Config = journal.ask(Request::Job(JobCall::Settings))?;
    let branch: &'a BranchConfig = journal.ask(
        Request::Job(JobCall::Branch { name: branch_name }),
    )?;
    add_worktree(config, branch_name, worktree.as_str(), journal)?;
    save_heads(config, branch_name, worktree.as_str(), journal)?;
    let base = base_of(&config.repo);
    let call = match branch.sync {
        SyncStrategy::Rebase => GitCall::Rebase { base },
        SyncStrategy::Merge => GitCall::Merge { base },
    };
    let output: &'a CommandOutput = journal.ask(Request::Git(Tree::Work, call))?;
    if output.success() {
        return finish_automatic_sync(config, branch, notify_on_noop, journal);
    }
    handle_stop(config, branch, output, notify_on_noop, journal)
}

/// What is done after a sync job failed: it is cleaned up and kept, and where the protection gate
/// stopped it, that is told.
pub open spec fn sync_failure_handled(
    branch_name: Seq<char>,
    details: Seq<char>,
    replies: Seq<Reply>,
    at: nat,
) -> Run<()> {
    match tried(job(JobCallView::CleanupWorktree), replies, at) {
        Run::Ask(request) => Run::Ask(request),
        Run::Fail(chain, at) => Run::Fail(chain, at),
        Run::On(_, at) => match tried(state_request("failed"@, details), replies, at) {
            Run::Ask(request) => Run::Ask(request),
            Run::Fail(chain, at) => Run::Fail(chain, at),
            Run::On(_, at) => if holds(details, "项目保护门禁"@) {
                tried(
                    job(
                        JobCallView::NotifyOnce {
                            event: "protection_blocked"@,
                            subject: branch_name + " 项目保护门禁告警"@,
                            body: details + "\n\n测试、构建和推送均未执行。"@,
                        },
                    ),
                    replies,
                    at,
                )
            } else {
                Run::On((), at)
            },
        },
    }
}

/// A sync job; where the sync fails, that is kept.
pub open spec fn sync_job(
    data_dir: Seq<char>,
    job_id: Seq<char>,
    branch_name: Seq<char>,
    notify_on_noop: bool,
    replies: Seq<Reply>,
    at: nat,
) -> Run<()> {
    match caught(sync_job_run(data_dir, job_id, branch_name, notify_on_noop, replies, at)) {
        Run::Ask(request) => Run::Ask(request),
        Run::Fail(chain, at) => Run::Fail(chain, at),
        Run::On(Ok(_), at) => Run::On((), at),
        Run::On(Err(chain), at) => sync_failure_handled(
            branch_name,
            fault_text(chain),
            replies,
            at,
        ),
    }
}

fn handle_sync_failure<'a>(branch_name: &str, details: &str, journal: &mut Journal<'a>) -> (r: Result<
    (),
    Halt<'a>,
>)
    ensures
        follows(
            *old(journal),
            *final(journal),
            r,
            sync_failure_handled(branch_name@, details@, old(journal).all(), old(journal).at()),
        ),
{
    try_step(Request::Job(JobCall::CleanupWorktree), journal)?;
    try_step(state_call("failed", details), journal)?;
    if contains(details, "项目保护门禁") {
        try_step(
            Request::Job(
                JobCall::NotifyOnce {
                    event: "protection_blocked".to_owned(),
                    subject: concat2(branch_name, " 项目保护门禁告警"),
                    body: concat2(details, "\n\n测试、构建和推送均未执行。"),
                },
            ),
            journal,
        )?;
    }
    Ok(())
}

/// Whether the result of a job is that of a run.
pub open spec fn job_result<'a>(r: Result<(), Halt<'a>>, run: Run<()>) -> bool {
    match run {
        Run::Ask(request) => r matches Err(Halt::Ask(found)) && found@ == request,
        Run::Fail(chain, _) => r matches Err(Halt::Fail(fault)) && fault@ == chain,
        Run::On(_, _) => r is Ok,
    }
}

/// The jobs of a service that keeps its data in a directory.
pub struct ServiceState {
    data_dir: String,
}

impl ServiceState {
    /// The directory in which data are kept.
    pub closed spec fn directory(&self) -> Seq<char> {
        self.data_dir@
    }

    /// The jobs of a service.
    pub fn new(data_dir: String) -> (r: ServiceState)
        ensures
            r.directory() == data_dir@,
    {
        ServiceState { data_dir }
    }

    /// Checks the repository. A check that fails is kept as failed.
    pub fn execute_check<'a>(&self, replies: &'a Vec<Reply>) -> (r: Result<(), Halt<'a>>)
        ensures
            job_result(r, check_job(replies@, 0)),
    {
        let mut journal = Journal::new(replies);
        match execute_check_inner(&mut journal) {
            Ok(()) => Ok(()),
            Err(Halt::Ask(request)) => Err(Halt::Ask(request)),
            Err(Halt::Fail(fault)) => {
                let details = fault.text();
                try_step(state_call("failed", details.as_str()), &mut journal)
            },
        }
    }

    /// Syncs a branch in a worktree of its own. A sync that fails is cleaned up and kept as failed.
    pub fn execute_sync<'a>(
        &self,
        job_id: &str,
        branch_name: &'a str,
        notify_on_noop: bool,
        replies: &'a Vec<Reply>,
    ) -> (r: Result<(), Halt<'a>>)
        ensures
            job_result(
                r,
                sync_job(self.directory(), job_id@, branch_name@, notify_on_noop, replies@, 0),
            ),
    {
        let mut journal = Journal::new(replies);
        match execute_sync_inner(
            self.data_dir.as_str(),
            job_id,
            branch_name,
            notify_on_noop,
            &mut journal,
        ) {
            Ok(()) => Ok(()),
            Err(Halt::Ask(request)) => Err(Halt::Ask(request)),
            Err(Halt::Fail(fault)) => {
                let details = fault.text();
                handle_sync_failure(branch_name, details.as_str(), &mut journal)
            },
        }
    }
}

} // verus!
