//! The end of a job whose sync came through.

use vstd::prelude::*;

use crate::calls::job::{JobCall, JobCallView};
use crate::calls::notify::{NotifyCall, NotifyView};
use crate::calls::{Request, RequestView, Tree};
use crate::command::{resolve_ref, resolved_ref};
use crate::config::{BranchConfig, Config};
use crate::journal::{asked, caught, follows, Halt, Journal, Reply, Run};
use crate::report::{ReportView, SyncReport};
use crate::service::jobs::report::{
    build_completed_sync_report, completed_run, should_notify_completion,
};
use crate::service::types::JobView;
use crate::sync::notify::{sum_up, summed_up};
use crate::text::{concat2, same_text, text_option};

verus! {

/// A step of the job.
pub open spec fn job(call: JobCallView) -> RequestView {
    RequestView::Job(call)
}

/// Tells that a job came through, unless that was done or the settings do not ask for it. Only a
/// message that was sent is remembered.
pub open spec fn completion_notified(
    config: Config,
    branch: BranchConfig,
    entries: Seq<ReportView>,
    replies: Seq<Reply>,
    at: nat,
) -> Run<()> {
    match asked::<bool>(replies, at, job(JobCallView::WasNotified)) {
        Run::Ask(request) => Run::Ask(request),
        Run::Fail(chain, at) => Run::Fail(chain, at),
        Run::On(true, at) => Run::On((), at),
        Run::On(false, at) => if !config.notify.sync_summary {
            Run::On((), at)
        } else {
            match asked::<String>(
                replies,
                at,
                RequestView::Notify(NotifyView::Render { entries }),
            ) {
                Run::Ask(request) => Run::Ask(request),
                Run::Fail(chain, at) => Run::Fail(chain, at),
                Run::On(text, at) => match summed_up(config.llm, text@, replies, at) {
                    Run::Ask(request) => Run::Ask(request),
                    Run::Fail(chain, at) => Run::Fail(chain, at),
                    Run::On(summary, at) => match caught(
                        asked::<bool>(
                            replies,
                            at,
                            RequestView::Notify(
                                NotifyView::NamedSummary {
                                    subject: branch.name@ + " 同步完成"@,
                                    summary,
                                    report: text@,
                                },
                            ),
                        ),
                    ) {
                        Run::Ask(request) => Run::Ask(request),
                        Run::Fail(chain, at) => Run::Fail(chain, at),
                        Run::On(Ok(true), at) => asked::<()>(
                            replies,
                            at,
                            job(JobCallView::RecordNotified),
                        ),
                        Run::On(_, at) => Run::On((), at),
                    },
                },
            }
        },
    }
}

/// Tells that a job came through.
pub fn notify_completed_sync_once<'a>(
    config: &'a Config,
    branch: &'a BranchConfig,
    report: SyncReport,
    journal: &mut Journal<'a>,
) -> (r: Result<(), Halt<'a>>)
    ensures
        follows(
            *old(journal),
            *final(journal),
            r,
            completion_notified(
                *config,
                *branch,
                report@,
                old(journal).all(),
                old(journal).at(),
            ),
        ),
{
    let done: &'a bool = journal.ask(Request::Job(JobCall::WasNotified))?;
    if *done || !config.notify.sync_summary {
        return Ok(());
    }
    let text: &'a String = journal.ask(Request::Notify(NotifyCall::Render { entries: report }))?;
    let summary = sum_up(&config.llm, text.as_str(), journal)?;
    let request = Request::Notify(
        NotifyCall::NamedSummary {
            subject: concat2(branch.name.as_str(), " 同步完成"),
            summary,
            report: text.clone(),
        },
    );
    match journal.ask::<bool>(request) {
        Ok(sent) => {
            if *sent {
                let _: &'a () = journal.ask(Request::Job(JobCall::RecordNotified))?;
            }
            Ok(())
        },
        Err(Halt::Fail(_)) => Ok(()),
        Err(halt) => Err(halt),
    }
}

/// What is kept of a job that came through.
pub open spec fn completion_summary(tag: Option<Seq<char>>, had_activity: bool) -> Seq<char> {
    match tag {
        Some(name) => "同步、测试和推送完成，并发布标签 "@ + name,
        None => if had_activity {
            "同步、测试和推送完成"@
        } else {
            "检查完成，未发现更新"@
        },
    }
}

fn describe_completion(tag: &Option<String>, had_activity: bool) -> (r: String)
    ensures
        r@ == completion_summary(text_option(*tag), had_activity),
{
    match tag {
        Some(name) => concat2("同步、测试和推送完成，并发布标签 ", name.as_str()),
        None => if had_activity {
            "同步、测试和推送完成".to_owned()
        } else {
            "检查完成，未发现更新".to_owned()
        },
    }
}

/// Whether something happened in a job.
pub open spec fn had_activity(kept: JobView, after_head: Seq<char>, tag: Option<Seq<char>>) -> bool {
    kept.before_head@ != after_head || kept.remote_head@ != after_head || tag is Some
}

/// The end of a job after its branch was pushed.
pub open spec fn closed(
    config: Config,
    branch: BranchConfig,
    kept: JobView,
    after_head: Seq<char>,
    tag: Option<Seq<char>>,
    notify_on_noop: bool,
    replies: Seq<Reply>,
    at: nat,
) -> Run<()> {
    let active = had_activity(kept, after_head, tag);
    match completed_run(config, branch, kept, after_head, tag, active, replies, at) {
        Run::Ask(request) => Run::Ask(request),
        Run::Fail(chain, at) => Run::Fail(chain, at),
        Run::On(entries, at) => match asked::<()>(replies, at, job(JobCallView::RemoveWorktree)) {
            Run::Ask(request) => Run::Ask(request),
            Run::Fail(chain, at) => Run::Fail(chain, at),
            Run::On(_, at) => match asked::<()>(
                replies,
                at,
                job(
                    JobCallView::SetState {
                        state: "completed"@,
                        summary: completion_summary(tag, active),
                    },
                ),
            ) {
                Run::Ask(request) => Run::Ask(request),
                Run::Fail(chain, at) => Run::Fail(chain, at),
                Run::On(_, at) => if active || notify_on_noop {
                    completion_notified(config, branch, entries, replies, at)
                } else {
                    Run::On((), at)
                },
            },
        },
    }
}

fn close<'a>(
    config: &'a Config,
    branch: &'a BranchConfig,
    kept: &'a JobView,
    after_head: &str,
    tag: &Option<String>,
    notify_on_noop: bool,
    journal: &mut Journal<'a>,
) -> (r: Result<(), Halt<'a>>)
    ensures
        follows(
            *old(journal),
            *final(journal),
            r,
            closed(
                *config,
                *branch,
                *kept,
                after_head@,
                text_option(*tag),
                notify_on_noop,
                old(journal).all(),
                old(journal).at(),
            ),
        ),
{
    let active: bool = !same_text(kept.before_head.as_str(), after_head) || !same_text(
        kept.remote_head.as_str(),
        after_head,
    ) || tag.is_some();
    let report = build_completed_sync_report(
        config,
        branch,
        kept,
        after_head,
        tag,
        active,
        journal,
    )?;
    let _: &'a () = journal.ask(Request::Job(JobCall::RemoveWorktree))?;
    let _: &'a () = journal.ask(
        Request::Job(
            JobCall::SetState {
                state: "completed".to_owned(),
                summary: describe_completion(tag, active),
            },
        ),
    )?;
    if should_notify_completion(active, notify_on_noop) {
        notify_completed_sync_once(config, branch, report, journal)?;
    }
    Ok(())
}

/// Tests and pushes a branch whose sync came through, and ends its job.
#[verifier::opaque]
pub open spec fn finished(
    config: Config,
    branch: BranchConfig,
    notify_on_noop: bool,
    replies: Seq<Reply>,
    at: nat,
) -> Run<()> {
    match asked::<JobView>(replies, at, job(JobCallView::Load)) {
        Run::Ask(request) => Run::Ask(request),
        Run::Fail(chain, at) => Run::Fail(chain, at),
        Run::On(kept, at) => match resolved_ref(Tree::Work, "HEAD"@, replies, at) {
            Run::Ask(request) => Run::Ask(request),
            Run::Fail(chain, at) => Run::Fail(chain, at),
            Run::On(after_head, at) => match asked::<String>(
                replies,
                at,
                job(JobCallView::RunTests { branch, before_head: kept.before_head@ }),
            ) {
                Run::Ask(request) => Run::Ask(request),
                Run::Fail(chain, at) => Run::Fail(chain, at),
                Run::On(output, at) => match asked::<()>(
                    replies,
                    at,
                    job(JobCallView::SaveTestOutput { output: output@ }),
                ) {
                    Run::Ask(request) => Run::Ask(request),
                    Run::Fail(chain, at) => Run::Fail(chain, at),
                    Run::On(_, at) => match asked::<Option<String>>(
                        replies,
                        at,
                        job(JobCallView::PushJob { branch }),
                    ) {
                        Run::Ask(request) => Run::Ask(request),
                        Run::Fail(chain, at) => Run::Fail(chain, at),
                        Run::On(tag, at) => closed(
                            config,
                            branch,
                            kept,
                            after_head,
                            text_option(tag),
                            notify_on_noop,
                            replies,
                            at,
                        ),
                    },
                },
            },
        },
    }
}

/// Tests and pushes a branch whose sync came through, and ends its job.
pub fn finish_automatic_sync<'a>(
    config: &'a Config,
    branch: &'a BranchConfig,
    notify_on_noop: bool,
    journal: &mut Journal<'a>,
) -> (r: Result<(), Halt<'a>>)
    ensures
        follows(
            *old(journal),
            *final(journal),
            r,
            finished(*config, *branch, notify_on_noop, old(journal).all(), old(journal).at()),
        ),
{
    reveal(finished);
    let kept: &'a JobView = journal.ask(Request::Job(JobCall::Load))?;
    let after_head = resolve_ref(Tree::Work, "HEAD", journal)?;
    let output: &'a String = journal.ask(
        Request::Job(JobCall::RunTests { branch, before_head: kept.before_head.as_str() }),
    )?;
    let _: &'a () = journal.ask(
        Request::Job(JobCall::SaveTestOutput { output: output.clone() }),
    )?;
    let tag: &'a Option<String> = journal.ask(Request::Job(JobCall::PushJob { branch }))?;
    close(config, branch, kept, after_head.as_str(), tag, notify_on_noop, journal)
}

} // verus!
