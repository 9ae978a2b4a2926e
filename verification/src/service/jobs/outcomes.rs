//! What a job comes to, and in which order it goes on.

use vstd::prelude::*;

use crate::calls::conflict::ConflictView;
use crate::calls::git::GitView;
use crate::calls::job::JobCallView;
use crate::calls::notify::NotifyView;
use crate::calls::{RequestView, Tree};
use crate::config::{BranchConfig, Config};
use crate::fault::fault_text;
use crate::journal::{asked, Reply, Run};
use crate::llm::laws::lemma_summary_asks_the_model;
use crate::llm::types::ConflictOptionsDecision;
use crate::repo::{
    AutoResolvedSync, CapturedConflict, CommandOutput, ConflictFileContent, ConflictSnapshot,
    PatchView,
};
use crate::report::{BranchStatus, ReportView};
use crate::service::jobs::finish::{
    closed, completion_notified, completion_summary, finished, had_activity,
};
use crate::service::jobs::low_risk::{low_risk, low_risk_round, may_resolve, RoundView};
use crate::service::jobs::report::{
    collected, completed, completed_run, counted, filled_count, CompletedView,
};
use crate::service::jobs::{
    check_job, check_run, conflict_handled, failure_saved, guidance_saved, handed_over,
    stop_handled, sync_failure_handled, sync_job, sync_job_run, worktree_steps,
};
use crate::service::types::JobView;
use crate::sync::auto_resolve::{branch_facts, is_allowed};
use crate::sync::outcomes::lemma_outside;
use crate::sync::report::short;
use crate::sync::steps::fork_name;
use crate::text::number::{count_value, decimal};
use crate::text::pattern::holds;
use crate::text::split::{pieces, Separator};
use crate::text::{text_option, texts, trimmed};

verus! {

/// A worktree is added where none is, at the branch in the fork where the fork has it, and else at
/// the branch as it is here.
pub proof fn lemma_worktree_starts_at_its_branch(
    config: Config,
    branch_name: Seq<char>,
    worktree: Seq<char>,
    replies: Seq<Reply>,
    at: nat,
)
    ensures
        ({
            let fork = config.repo.fork_remote@ + "/"@ + branch_name;
            match worktree_steps(config, branch_name, worktree, replies, at) {
                Run::Ask(request) => {
                    ||| replies.len() <= at && request == RequestView::Git(
                        Tree::Main,
                        GitView::EnsureRepo,
                    )
                    ||| replies.len() == at + 1 && request == RequestView::Git(
                        Tree::Main,
                        GitView::EnsureRemotes,
                    )
                    ||| replies.len() == at + 2 && request == RequestView::Git(
                        Tree::Main,
                        GitView::FetchAll,
                    )
                    ||| replies.len() == at + 3 && request == RequestView::Job(
                        JobCallView::WorktreeExists { path: worktree },
                    )
                    ||| replies.len() == at + 4 && replies[at as int + 3] == Reply::Flag(false)
                        && request == RequestView::Job(
                        JobCallView::OptionalRef { reference: fork },
                    )
                    ||| (replies.len() == at + 5 && (
                    replies[at as int + 4] matches Reply::Maybe(found) && request
                        == RequestView::Git(
                        Tree::Main,
                        GitView::Run {
                            args: seq![
                                "worktree"@,
                                "add"@,
                                "--detach"@,
                                worktree,
                                if found is Some {
                                    fork
                                } else {
                                    branch_name
                                },
                            ],
                        },
                    )))
                },
                Run::On(_, end) => end == at + 6 && (
                replies[at as int + 5] matches Reply::Output(output) && output.status == 0),
                Run::Fail(_, _) => replies.len() > at,
            }
        }),
{
}

/// The end of a job goes in this order: what is kept of it, where it is now, its tests, what they
/// printed, and the push.
pub proof fn lemma_finish_goes_in_order(
    config: Config,
    branch: BranchConfig,
    notify_on_noop: bool,
    replies: Seq<Reply>,
    at: nat,
)
    ensures
        finished(config, branch, notify_on_noop, replies, at) matches Run::Ask(request) ==> {
            &&& replies.len() <= at ==> request == RequestView::Job(JobCallView::Load)
            &&& replies.len() == at + 1 ==> request == RequestView::Git(
                Tree::Work,
                GitView::Run { args: seq!["rev-parse"@, "HEAD"@] },
            )
            &&& replies.len() == at + 2 ==> (replies[at as int] matches Reply::Job(kept) && request
                == RequestView::Job(
                JobCallView::RunTests { branch, before_head: kept.before_head@ },
            ))
            &&& replies.len() == at + 3 ==> (replies[at as int + 2] matches Reply::Text(output)
                && request == RequestView::Job(JobCallView::SaveTestOutput { output: output@ }))
            &&& replies.len() == at + 4 ==> request == RequestView::Job(
                JobCallView::PushJob { branch },
            )
        },
        finished(config, branch, notify_on_noop, replies, at) matches Run::On(_, end) ==> {
            &&& at + 5 <= replies.len()
            &&& replies[at as int] is Job
            &&& replies[at as int + 1] is Output
            &&& replies[at as int + 2] is Text
            &&& replies[at as int + 3] is Done
            &&& replies[at as int + 4] is Maybe
        },
        replies.len() >= at + 5 && replies[at as int + 3] is Done ==> (
        replies[at as int] matches Reply::Job(kept) ==> (
        replies[at as int + 1] matches Reply::Output(printed) ==> (
        replies[at as int + 2] is Text ==> (replies[at as int + 4] matches Reply::Maybe(tag)
            ==> finished(config, branch, notify_on_noop, replies, at) == closed(
            config,
            branch,
            kept,
            trimmed(printed.stdout@),
            text_option(tag),
            notify_on_noop,
            replies,
            at + 5,
        ))))),
{
    reveal(finished);
}

/// What the summary of a job says of how it ended.
pub open spec fn ended_as(tag: Option<Seq<char>>, active: bool) -> Seq<char> {
    if tag is Some {
        "同步、测试和推送完成，并发布标签 "@ + tag->0
    } else if active {
        "同步、测试和推送完成"@
    } else {
        "检查完成，未发现更新"@
    }
}

/// What was gathered for a report on a job.
proof fn lemma_gathering_reads_on(
    kept: JobView,
    after_head: Seq<char>,
    replies: Seq<Reply>,
    at: nat,
)
    ensures
        collected(kept, after_head, replies, at) matches Run::On(data, end) ==> is_gathered(
            replies,
            at as int,
            end as int,
            data,
        ),
{
    reveal(collected);
}

/// Whether data is what the replies between two positions say: how many commits the upstream has and
/// which, how many are pushed and which, and how many files and which.
pub open spec fn is_gathered(
    replies: Seq<Reply>,
    at: int,
    end: int,
    data: CompletedView,
) -> bool {
    &&& 0 <= at && end <= replies.len()
    &&& ({
        ||| {
            &&& replies[at] == Reply::Maybe(None)
            &&& end == at + 5
            &&& data.upstream_commit_count == 0
            &&& data.upstream_commits.len() == 0
        }
        ||| {
            &&& replies[at] matches Reply::Maybe(Some(_))
            &&& end == at + 7
            &&& replies[at + 1] matches Reply::Output(output) && count_value(
                trimmed(output.stdout@),
            ) == Some(data.upstream_commit_count)
            &&& replies[at + 2] matches Reply::List(list) && texts(list@) == data.upstream_commits
        }
    })
    &&& replies[end - 4] matches Reply::Output(output) && count_value(trimmed(output.stdout@))
        == Some(data.pushed_commit_count)
    &&& replies[end - 3] matches Reply::List(list) && texts(list@) == data.pushed_commits
    &&& replies[end - 2] matches Reply::Output(output) && filled_count(
        pieces(output.stdout@, Separator::Char('\n')),
    ) as usize == data.pushed_file_count
    &&& replies[end - 1] matches Reply::List(list) && texts(list@) == data.pushed_files
}

/// A report on a job is made of what was gathered for it.
pub proof fn lemma_report_is_made_of_what_was_gathered(
    config: Config,
    branch: BranchConfig,
    kept: JobView,
    after_head: Seq<char>,
    tag: Option<Seq<char>>,
    active: bool,
    replies: Seq<Reply>,
    at: nat,
)
    ensures
        match collected(kept, after_head, replies, at) {
            Run::On(data, end) => is_gathered(replies, at as int, end as int, data)
                && completed_run(config, branch, kept, after_head, tag, active, replies, at)
                == Run::On(
                seq![completed(config, branch, kept, after_head, tag, active, data)],
                end,
            ),
            _ => !(completed_run(config, branch, kept, after_head, tag, active, replies, at) is On),
        },
{
    lemma_gathering_reads_on(kept, after_head, replies, at);
}

/// After a report was gathered, the worktree goes, and then the job is completed, with a summary that
/// names the tag, or says whether there was anything to do. The end is told where there was, or where
/// the job is to tell in any case.
pub proof fn lemma_closing_goes_in_order(
    config: Config,
    branch: BranchConfig,
    kept: JobView,
    after_head: Seq<char>,
    tag: Option<Seq<char>>,
    notify_on_noop: bool,
    replies: Seq<Reply>,
    at: nat,
)
    ensures
        ({
            let active = !(kept.before_head@ == after_head && kept.remote_head@ == after_head && tag
                is None);
            let run = closed(
                config,
                branch,
                kept,
                after_head,
                tag,
                notify_on_noop,
                replies,
                at,
            );
            &&& completed_run(
                config,
                branch,
                kept,
                after_head,
                tag,
                active,
                replies,
                at,
            ) matches Run::On(entries, end) ==> {
                &&& replies.len() == end ==> run == Run::Ask::<()>(
                    RequestView::Job(JobCallView::RemoveWorktree),
                )
                &&& replies.len() == end + 1 && replies[end as int] is Done ==> run == Run::Ask::<
                    (),
                >(
                    RequestView::Job(
                        JobCallView::SetState {
                            state: "completed"@,
                            summary: ended_as(tag, active),
                        },
                    ),
                )
                &&& replies.len() >= end + 2 && replies[end as int] is Done
                    && replies[end as int + 1] is Done ==> (if active || notify_on_noop {
                    run == completion_notified(config, branch, entries, replies, end + 2)
                } else {
                    run matches Run::On(_, last) && last == end + 2
                })
            }
        }),
{
    assert(had_activity(kept, after_head, tag) == !(kept.before_head@ == after_head
        && kept.remote_head@ == after_head && tag is None));
}

/// The end of a job is told at most once, where messages on syncs are sent: the report as it was
/// rendered, under the name of the branch, and it is remembered where it was sent.
pub proof fn lemma_end_is_told_as_found(
    config: Config,
    branch: BranchConfig,
    entries: Seq<ReportView>,
    replies: Seq<Reply>,
    at: nat,
)
    ensures
        ({
            let run = completion_notified(config, branch, entries, replies, at);
            &&& replies.len() <= at ==> run == Run::Ask::<()>(
                RequestView::Job(JobCallView::WasNotified),
            )
            &&& replies.len() > at && (replies[at as int] == Reply::Flag(true) || replies[at as int]
                == Reply::Flag(false) && !config.notify.sync_summary) ==> (run matches Run::On(
                _,
                end,
            ) && end == at + 1)
            &&& replies.len() == at + 1 && replies[at as int] == Reply::Flag(false)
                && config.notify.sync_summary ==> run == Run::Ask::<()>(
                RequestView::Notify(NotifyView::Render { entries }),
            )
            &&& run matches Run::Ask(RequestView::Notify(NotifyView::NamedSummary {
                subject,
                report,
                ..
            })) ==> subject == branch.name@ + " 同步完成"@ && replies[at as int]
                == Reply::Flag(false) && (replies[at as int + 1] matches Reply::Text(text) && report
                == text@)
            &&& run matches Run::Ask(RequestView::Job(JobCallView::RecordNotified))
                ==> replies.last() == Reply::Flag(true)
        }),
{
    if let Run::On(text, after) = asked::<String>(
        replies,
        at + 1,
        RequestView::Notify(NotifyView::Render { entries }),
    ) {
        lemma_summary_asks_the_model(config.llm, text@, replies, after);
    }
}

/// A job had something to do just where its branch moved, the remote branch was elsewhere, or a tag
/// was pushed; and what its summary says follows from that.
pub proof fn lemma_activity_has_a_reason(
    kept: JobView,
    after_head: Seq<char>,
    tag: Option<Seq<char>>,
)
    ensures
        !had_activity(kept, after_head, tag) <==> kept.before_head@ == after_head
            && kept.remote_head@ == after_head && tag is None,
        completion_summary(tag, had_activity(kept, after_head, tag)) == ended_as(
            tag,
            had_activity(kept, after_head, tag),
        ),
{
}

/// What a report lists: how many there are, those that are shown, and how many more there are, where
/// not all are shown.
pub proof fn lemma_list_is_counted(title: Seq<char>, total: usize, items: Seq<Seq<char>>)
    ensures
        ({
            let lines = counted(title, total, items);
            if total == 0 {
                lines == seq![title + ": none"@]
            } else {
                &&& lines[0] == title + " ("@ + decimal(total as nat) + "):"@
                &&& lines.len() == 1 + items.len() + (if total > items.len() {
                    1int
                } else {
                    0int
                })
                &&& forall|i: int|
                    0 <= i < items.len() ==> lines[i + 1] == "  "@ + #[trigger] items[i]
                &&& total > items.len() ==> lines.last() == "  ... "@ + decimal(
                    (total - items.len()) as nat,
                ) + " more commit(s) omitted ..."@
            }
        }),
{
}

/// The files that are counted are the lines that are not blank.
pub proof fn lemma_filled_lines_are_counted(lines: Seq<Seq<char>>)
    ensures
        filled_count(lines) == lines.filter(|line: Seq<char>| trimmed(line).len() > 0).len(),
    decreases lines.len(),
{
    let condition = |line: Seq<char>| trimmed(line).len() > 0;
    reveal(Seq::filter);
    if lines.len() > 0 {
        lemma_filled_lines_are_counted(lines.drop_last());
    }
}

/// What is reported of a job that came through, line by line.
pub proof fn lemma_completion_is_reported(
    config: Config,
    branch: BranchConfig,
    kept: JobView,
    after_head: Seq<char>,
    tag: Option<Seq<char>>,
    active: bool,
    data: CompletedView,
)
    ensures
        ({
            let report = completed(config, branch, kept, after_head, tag, active, data);
            let lines = report.details;
            let first: int = if branch.note is Some {
                1
            } else {
                0
            };
            let fork = fork_name(config.repo, branch);
            let upstream = counted(
                "upstream commits included"@,
                data.upstream_commit_count,
                data.upstream_commits,
            );
            let commits = counted(
                "commits pushed to remote"@,
                data.pushed_commit_count,
                data.pushed_commits,
            );
            let files = counted(
                "files pushed to remote"@,
                data.pushed_file_count,
                data.pushed_files,
            );
            let a = first + 4;
            let b = a + upstream.len();
            let c = b + commits.len();
            let d = c + files.len();
            &&& report.branch == branch.name@
            &&& report.kind == branch.kind@
            &&& report.status == BranchStatus::Success
            &&& report.head == Some(short(after_head))
            &&& report.active == active
            &&& branch.note matches Some(note) ==> lines[0] == "note: "@ + note@
            &&& lines[first] == "before sync: "@ + short(kept.before_head@)
            &&& lines[first + 1] == "after sync: "@ + short(after_head)
            &&& lines[first + 2] == "target base: "@ + kept.base_ref@ + " @ "@ + short(
                kept.base_head@,
            )
            &&& lines[first + 3] == (if kept.remote_head@.len() == 0 {
                "remote before push: "@ + fork + " not found"@
            } else {
                "remote before push: "@ + fork + " @ "@ + short(kept.remote_head@)
            })
            &&& lines.subrange(a, b) == upstream
            &&& lines.subrange(b, c) == commits
            &&& lines.subrange(c, d) == files
            &&& lines[d] == (if branch.tests@.len() == 0 {
                "no tests configured"@
            } else {
                decimal(branch.tests@.len()) + " test command(s) passed"@
            })
            &&& lines[d + 1] == "pushed to "@ + fork
            &&& lines.len() == d + 2 + (if tag is Some {
                1int
            } else {
                0int
            })
            &&& tag matches Some(name) ==> lines[d + 2] == "release tag pushed: "@ + name
        }),
{
    let lines = completed(config, branch, kept, after_head, tag, active, data).details;
    let first: int = if branch.note is Some {
        1
    } else {
        0
    };
    let upstream = counted(
        "upstream commits included"@,
        data.upstream_commit_count,
        data.upstream_commits,
    );
    let commits = counted(
        "commits pushed to remote"@,
        data.pushed_commit_count,
        data.pushed_commits,
    );
    let files = counted("files pushed to remote"@, data.pushed_file_count, data.pushed_files);
    let a = first + 4;
    let b = a + upstream.len();
    let c = b + commits.len();
    let d = c + files.len();
    assert(lines.subrange(a, b) =~= upstream);
    assert(lines.subrange(b, c) =~= commits);
    assert(lines.subrange(c, d) =~= files);
}

/// A job that failed is cleaned up and kept as failed, with what went wrong; where the protection gate
/// stopped it, and only there, that is told.
pub proof fn lemma_failure_is_kept(
    branch_name: Seq<char>,
    details: Seq<char>,
    replies: Seq<Reply>,
    at: nat,
)
    ensures
        sync_failure_handled(branch_name, details, replies, at) matches Run::Ask(request) ==> {
            ||| replies.len() <= at && request == RequestView::Job(JobCallView::CleanupWorktree)
            ||| replies.len() == at + 1 && request == RequestView::Job(
                JobCallView::SetState { state: "failed"@, summary: details },
            )
            ||| replies.len() == at + 2 && holds(details, "项目保护门禁"@) && request
                == RequestView::Job(
                JobCallView::NotifyOnce {
                    event: "protection_blocked"@,
                    subject: branch_name + " 项目保护门禁告警"@,
                    body: details + "\n\n测试、构建和推送均未执行。"@,
                },
            )
        },
        sync_failure_handled(branch_name, details, replies, at) matches Run::On(_, end) ==> end
            == at + (if holds(details, "项目保护门禁"@) {
            3int
        } else {
            2int
        }),
{
}

/// A job whose sync failed goes on to keep just that failure; one whose sync came through is done.
pub proof fn lemma_job_ends_as_its_sync(
    data_dir: Seq<char>,
    job_id: Seq<char>,
    branch_name: Seq<char>,
    notify_on_noop: bool,
    replies: Seq<Reply>,
    at: nat,
)
    ensures
        ({
            let run = sync_job(data_dir, job_id, branch_name, notify_on_noop, replies, at);
            match sync_job_run(data_dir, job_id, branch_name, notify_on_noop, replies, at) {
                Run::Ask(request) => run == Run::Ask::<()>(request),
                Run::On(_, end) => run matches Run::On(_, last) && last == end,
                Run::Fail(chain, end) => {
                    &&& replies.len() <= end ==> run == Run::Ask::<()>(
                        RequestView::Job(JobCallView::CleanupWorktree),
                    )
                    &&& replies.len() == end + 1 ==> ({
                        ||| run == Run::Ask::<()>(
                            RequestView::Job(
                                JobCallView::SetState {
                                    state: "failed"@,
                                    summary: fault_text(chain),
                                },
                            ),
                        )
                        ||| run is Fail
                    })
                },
            }
        }),
{
}

/// A check of the repository goes in this order: it is marked as running, locked, the settings are
/// read, the repository is looked over and brought up to date, what was found is kept as it was
/// given, the check is marked as completed, and the lock is given back.
pub proof fn lemma_check_goes_in_order(replies: Seq<Reply>, at: nat)
    requires
        forall|i: int|
            at <= i < replies.len() ==> !(#[trigger] replies[i] is Failed),
    ensures
        check_run(replies, at) matches Run::Ask(request) ==> {
            ||| replies.len() <= at && request == RequestView::Job(
                JobCallView::SetState { state: "running"@, summary: "正在检查仓库"@ },
            )
            ||| replies.len() == at + 1 && request == RequestView::Job(JobCallView::Lock)
            ||| replies.len() == at + 2 && request == RequestView::Job(JobCallView::Settings)
            ||| replies.len() == at + 3 && request == RequestView::Job(JobCallView::Doctor)
            ||| replies.len() == at + 4 && request == RequestView::Git(
                Tree::Main,
                GitView::FetchAll,
            )
            ||| (replies.len() == at + 5 && (replies[at as int + 3] matches Reply::Text(report)
                && request == RequestView::Job(
                JobCallView::SaveTestOutput { output: report@ },
            )))
            ||| replies.len() == at + 6 && request == RequestView::Job(
                JobCallView::SetState { state: "completed"@, summary: "仓库检查完成"@ },
            )
            ||| replies.len() > at + 2 && request == RequestView::Job(JobCallView::Unlock)
        },
        check_run(replies, at) matches Run::On(_, end) ==> end == at + 8,
        check_run(replies, at) matches Run::Fail(chain, end) ==> (replies.len() <= end ==> check_job(
            replies,
            at,
        ) == Run::Ask::<()>(
            RequestView::Job(
                JobCallView::SetState { state: "failed"@, summary: fault_text(chain) },
            ),
        )),
{
}

/// Conflicts of a job may be resolved just where that is switched on, some paths are allowed, and the
/// conflicts are few and all in allowed paths.
pub proof fn lemma_resolving_is_allowed(branch: BranchConfig, files: Seq<Seq<char>>)
    ensures
        may_resolve(branch, files) <==> {
            &&& branch.auto_resolve.enabled
            &&& branch.auto_resolve.allowed_paths@.len() > 0
            &&& files.len() <= branch.auto_resolve.max_conflict_files
            &&& forall|i: int|
                0 <= i < files.len() ==> is_allowed(
                    #[trigger] files[i],
                    texts(branch.auto_resolve.allowed_paths@),
                )
        },
{
    lemma_outside(files, texts(branch.auto_resolve.allowed_paths@));
}

/// A round of a job stops at conflicts that are larger than the limit, before the model is asked.
pub proof fn lemma_large_conflicts_are_left(
    config: Config,
    branch: BranchConfig,
    snapshot: ConflictSnapshot,
    files: Vec<ConflictFileContent>,
    replies: Seq<Reply>,
    at: nat,
)
    requires
        at < replies.len(),
    ensures
        replies[at as int] matches Reply::Blocks(blocks) && blocks.payload_bytes
            > branch.auto_resolve.max_file_bytes ==> low_risk_round(
            config,
            branch,
            snapshot,
            files,
            replies,
            at,
        ) == Run::On(RoundView::Answer(Some(false)), at + 1),
        low_risk_round(config, branch, snapshot, files, replies, at) matches Run::Ask(
            RequestView::Model(_),
        ) ==> (replies[at as int] matches Reply::Blocks(blocks) && blocks.payload_bytes
            <= branch.auto_resolve.max_file_bytes),
{
    reveal(low_risk_round);
}

/// Conflicts that are handed over are kept whole: those that are there when resolving them has
/// stopped half way, and else those that were found first.
pub proof fn lemma_conflicts_are_kept_as_found(
    config: Config,
    branch: BranchConfig,
    captured: CapturedConflict,
    notify_on_noop: bool,
    replies: Seq<Reply>,
    at: nat,
)
    ensures
        ({
            let run = conflict_handled(config, branch, captured, notify_on_noop, replies, at);
            match low_risk(config, branch, captured, replies, at) {
                Run::On(Some(true), end) => run == finished(
                    config,
                    branch,
                    notify_on_noop,
                    replies,
                    end,
                ),
                Run::On(Some(false), end) => {
                    &&& replies.len() <= end ==> run == Run::Ask::<()>(
                        RequestView::Conflict(ConflictView::Capture { branch }),
                    )
                    &&& replies.len() == end + 1 ==> (
                    replies[end as int] matches Reply::Captured(rest) ==> (
                    if rest.snapshot.files@.len() > 0 {
                        run == Run::Ask::<()>(
                            RequestView::Job(
                                JobCallView::SaveConflict {
                                    snapshot: rest.snapshot,
                                    files: rest.files,
                                },
                            ),
                        )
                    } else {
                        run matches Run::Ask(RequestView::Job(JobCallView::SaveFailure {
                            state,
                            printed,
                            ..
                        })) && state == "failed"@ && printed is None
                    }))
                },
                Run::On(None, end) => replies.len() <= end ==> run == Run::Ask::<()>(
                    RequestView::Job(
                        JobCallView::SaveConflict {
                            snapshot: captured.snapshot,
                            files: captured.files,
                        },
                    ),
                ),
                _ => true,
            }
        }),
{
    reveal(conflict_handled);
    reveal(handed_over);
}

/// What is told of a conflict is what is known of the branch and of the conflict, in its own place.
pub proof fn lemma_facts_are_those_of_the_branch(
    branch: BranchConfig,
    base: Seq<char>,
    patch: PatchView,
    snapshot: ConflictSnapshot,
)
    ensures
        ({
            let facts = branch_facts(branch, base, patch, snapshot);
            &&& facts.branch == branch.name@
            &&& facts.base == base
            &&& facts.branch_note == (match branch.note {
                Some(note) => Some(note@),
                None => None,
            })
            &&& facts.mode == patch.mode
            &&& facts.current_patch == patch.current_patch
            &&& facts.snapshot == snapshot@
        }),
{
}

/// What is kept while a person must decide: the ways out that were named, under their summary; it is
/// said, and told once, under the name of the branch.
pub proof fn lemma_guidance_is_kept(
    branch: BranchConfig,
    options: Option<ConflictOptionsDecision>,
    replies: Seq<Reply>,
    at: nat,
)
    ensures
        guidance_saved(branch, options, replies, at) matches Run::Ask(request) ==> {
            ||| (replies.len() <= at && (request matches RequestView::Job(JobCallView::SaveGuidance {
                state,
                risk,
                summary,
                options: kept,
            }) && state == "waiting_guidance"@ && risk == "functional"@ && kept == options && (
            options matches Some(decision) ==> summary == decision.summary@)))
            ||| (replies.len() == at + 1 && (request matches RequestView::Job(JobCallView::Emit {
                kind,
                ..
            }) && kind == "conflict"@))
            ||| (replies.len() == at + 2 && (request matches RequestView::Job(
                JobCallView::NotifyOnce { event, subject, .. },
            ) && event == "waiting_guidance"@ && subject == branch.name@ + " 同步需要处理"@))
        },
{
}

/// A failure is kept with its summary and what was printed, and then said.
pub proof fn lemma_failure_is_kept_as_told(
    summary: Seq<char>,
    printed: Option<Seq<char>>,
    message: Seq<char>,
    replies: Seq<Reply>,
    at: nat,
)
    ensures
        failure_saved(summary, printed, message, replies, at) matches Run::Ask(request) ==> {
            ||| replies.len() <= at && request == RequestView::Job(
                JobCallView::SaveFailure { state: "failed"@, summary, printed },
            )
            ||| replies.len() == at + 1 && request == RequestView::Job(
                JobCallView::Emit { kind: "sync"@, message },
            )
        },
{
}

/// A sync of a job that stopped is looked at: conflicts are worked on as they were found; without any,
/// what is staged is continued, with what was printed, and where that fails, the job is abandoned, its
/// worktree goes, and what went wrong is kept.
pub proof fn lemma_stopped_sync_is_looked_at(
    config: Config,
    branch: BranchConfig,
    output: CommandOutput,
    notify_on_noop: bool,
    replies: Seq<Reply>,
    at: nat,
)
    ensures
        ({
            let run = stop_handled(config, branch, output, notify_on_noop, replies, at);
            &&& replies.len() <= at ==> run == Run::Ask::<()>(
                RequestView::Conflict(ConflictView::Capture { branch }),
            )
            &&& replies.len() > at ==> (replies[at as int] matches Reply::Captured(captured) ==> (
            if captured.snapshot.files@.len() > 0 {
                run == conflict_handled(config, branch, captured, notify_on_noop, replies, at + 1)
            } else {
                &&& replies.len() == at + 1 ==> (run matches Run::Ask(
                    RequestView::Conflict(ConflictView::ContinueStaged { branch: found, first, .. }),
                ) && found == branch && first == output)
                &&& replies.len() > at + 1 ==> (match replies[at as int + 1] {
                    Reply::Continued(AutoResolvedSync::Completed) => run == finished(
                        config,
                        branch,
                        notify_on_noop,
                        replies,
                        at + 2,
                    ),
                    Reply::Continued(AutoResolvedSync::Conflict(next)) => run == conflict_handled(
                        config,
                        branch,
                        next,
                        notify_on_noop,
                        replies,
                        at + 2,
                    ),
                    Reply::Continued(AutoResolvedSync::Failed(details)) => {
                        &&& replies.len() == at + 2 ==> run == Run::Ask::<()>(
                            RequestView::Git(Tree::Work, GitView::Abort),
                        )
                        &&& replies.len() == at + 3 && replies[at as int + 2] is Done ==> run
                            == Run::Ask::<()>(RequestView::Job(JobCallView::RemoveWorktree))
                        &&& replies.len() == at + 4 && replies[at as int + 2] is Done
                            && replies[at as int + 3] is Done ==> (run matches Run::Ask(
                            RequestView::Job(JobCallView::SaveFailure { state, printed, .. }),
                        ) && state == "failed"@ && printed == Some(details@))
                    },
                    _ => true,
                })
            }))
        }),
{
    reveal(stop_handled);
}

} // verus!
