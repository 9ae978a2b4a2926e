//! Telling how a run went. Whether a message could be sent never changes the result of a run.

use vstd::prelude::*;

use crate::calls::notify::{NotifyCall, NotifyView};
use crate::calls::{Request, RequestView};
use crate::config::{Config, LlmConfig};
use crate::journal::{asked, caught, follows, passed, Halt, Journal, Reply, Run};
use crate::llm::{summary, LlmService};
use crate::report::{
    any_active, status_name, status_text, BranchReport, BranchStatus, ReportView, SyncReport,
};
use crate::text::concat3;

verus! {

/// Whether a branch ended in a way that a person should know of.
pub open spec fn needs_notice(entry: ReportView) -> bool {
    entry.status != BranchStatus::Success && entry.status != BranchStatus::Skipped
}

/// Tells of a branch that failed or is in conflict.
pub open spec fn noticed(entry: ReportView, replies: Seq<Reply>, at: nat) -> Run<()> {
    if needs_notice(entry) {
        passed(
            caught(
                asked::<bool>(
                    replies,
                    at,
                    RequestView::Notify(
                        NotifyView::Failure {
                            subject: entry.branch + " "@ + status_name(entry.status),
                            entry,
                        },
                    ),
                ),
            ),
        )
    } else {
        Run::On((), at)
    }
}

/// Tells of a branch that failed or is in conflict.
pub fn notify_if_needed<'a>(entry: &BranchReport, journal: &mut Journal<'a>) -> (r: Result<
    (),
    Halt<'a>,
>)
    ensures
        follows(
            *old(journal),
            *final(journal),
            r,
            noticed(entry@, old(journal).all(), old(journal).at()),
        ),
{
    if entry.status == BranchStatus::Success || entry.status == BranchStatus::Skipped {
        return Ok(());
    }
    let subject = concat3(entry.branch.as_str(), " ", status_text(entry.status));
    let request = Request::Notify(NotifyCall::Failure { subject, entry: entry.copy() });
    match journal.ask::<bool>(request) {
        Ok(_) => Ok(()),
        Err(Halt::Fail(_)) => Ok(()),
        Err(halt) => Err(halt),
    }
}

/// Tells of the branches that failed or are in conflict, from a given one on.
pub open spec fn noticed_from(
    entries: Seq<ReportView>,
    next: nat,
    replies: Seq<Reply>,
    at: nat,
) -> Run<()>
    decreases entries.len() - next,
{
    if next >= entries.len() {
        Run::On((), at)
    } else {
        match noticed(entries[next as int], replies, at) {
            Run::Ask(request) => Run::Ask(request),
            Run::Fail(chain, at) => Run::Fail(chain, at),
            Run::On(_, at) => noticed_from(entries, next + 1, replies, at),
        }
    }
}

/// Tells of the branches that failed or are in conflict.
pub fn notify_failed_branches<'a>(report: &SyncReport, journal: &mut Journal<'a>) -> (r: Result<
    (),
    Halt<'a>,
>)
    ensures
        follows(
            *old(journal),
            *final(journal),
            r,
            noticed_from(report@, 0, old(journal).all(), old(journal).at()),
        ),
{
    let mut i: usize = 0;
    while i < report.entries.len()
        invariant
            i <= report.entries@.len(),
            journal.all() == old(journal).all(),
            noticed_from(report@, 0, old(journal).all(), old(journal).at()) == noticed_from(
                report@,
                i as nat,
                journal.all(),
                journal.at(),
            ),
        decreases report.entries@.len() - i,
    {
        assert(report@[i as int] == report.entries@[i as int]@);
        notify_if_needed(&report.entries[i], journal)?;
        i = i + 1;
    }
    Ok(())
}

/// The summary of a report: that of the model, or the report itself where there is none.
pub open spec fn summed_up(
    llm: Option<LlmConfig>,
    text: Seq<char>,
    replies: Seq<Reply>,
    at: nat,
) -> Run<Seq<char>> {
    match caught(summary(llm, text, replies, at)) {
        Run::Ask(request) => Run::Ask(request),
        Run::Fail(chain, at) => Run::Fail(chain, at),
        Run::On(Ok(Some(found)), at) => Run::On(found, at),
        Run::On(_, at) => Run::On(text, at),
    }
}

/// The summary of a report: that of the model, or the report itself where there is none.
pub fn sum_up<'a>(llm: &'a Option<LlmConfig>, text: &str, journal: &mut Journal<'a>) -> (r: Result<
    String,
    Halt<'a>,
>)
    ensures
        follows(
            *old(journal),
            *final(journal),
            r,
            summed_up(*llm, text@, old(journal).all(), old(journal).at()),
        ),
{
    let service = LlmService::new(llm);
    match service.summarize_sync_report(text, journal) {
        Ok(Some(found)) => Ok(found),
        Ok(None) => Ok(text.to_owned()),
        Err(Halt::Fail(_)) => Ok(text.to_owned()),
        Err(halt) => Err(halt),
    }
}

/// Tells how a run ended.
pub open spec fn summary_notified(
    llm: Option<LlmConfig>,
    entries: Seq<ReportView>,
    replies: Seq<Reply>,
    at: nat,
) -> Run<()> {
    match asked::<String>(replies, at, RequestView::Notify(NotifyView::Render { entries })) {
        Run::Ask(request) => Run::Ask(request),
        Run::Fail(chain, at) => Run::Fail(chain, at),
        Run::On(text, at) => match summed_up(llm, text@, replies, at) {
            Run::Ask(request) => Run::Ask(request),
            Run::Fail(chain, at) => Run::Fail(chain, at),
            Run::On(found, at) => passed(
                caught(
                    asked::<bool>(
                        replies,
                        at,
                        RequestView::Notify(
                            NotifyView::Summary { summary: found, report: text@ },
                        ),
                    ),
                ),
            ),
        },
    }
}

/// Tells how a run ended.
pub fn notify_sync_summary<'a>(
    llm: &'a Option<LlmConfig>,
    report: &SyncReport,
    journal: &mut Journal<'a>,
) -> (r: Result<(), Halt<'a>>)
    ensures
        follows(
            *old(journal),
            *final(journal),
            r,
            summary_notified(*llm, report@, old(journal).all(), old(journal).at()),
        ),
{
    let text: &'a String = journal.ask(
        Request::Notify(NotifyCall::Render { entries: report.copy() }),
    )?;
    let found = sum_up(llm, text.as_str(), journal)?;
    let request = Request::Notify(NotifyCall::Summary { summary: found, report: text.clone() });
    match journal.ask::<bool>(request) {
        Ok(_) => Ok(()),
        Err(Halt::Fail(_)) => Ok(()),
        Err(halt) => Err(halt),
    }
}

/// Tells what the settings ask for at the end of a run: a summary, unless nothing happened and that
/// is not to be told, or otherwise the failures alone.
pub open spec fn end_notified(
    config: Config,
    notify_on_noop: bool,
    entries: Seq<ReportView>,
    replies: Seq<Reply>,
    at: nat,
) -> Run<()> {
    if !config.notify.sync_summary {
        noticed_from(entries, 0, replies, at)
    } else if notify_on_noop || any_active(entries) {
        summary_notified(config.llm, entries, replies, at)
    } else {
        Run::On((), at)
    }
}

/// Tells what the settings ask for at the end of a run.
pub fn notify_end<'a>(
    config: &'a Config,
    notify_on_noop: bool,
    report: &SyncReport,
    journal: &mut Journal<'a>,
) -> (r: Result<(), Halt<'a>>)
    ensures
        follows(
            *old(journal),
            *final(journal),
            r,
            end_notified(
                *config,
                notify_on_noop,
                report@,
                old(journal).all(),
                old(journal).at(),
            ),
        ),
{
    if !config.notify.sync_summary {
        return notify_failed_branches(report, journal);
    }
    if notify_on_noop || report.has_activity() {
        return notify_sync_summary(&config.llm, report, journal);
    }
    Ok(())
}

} // verus!
