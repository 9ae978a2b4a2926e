//! Calls that notify.

use vstd::prelude::*;

use crate::config::SyncStrategy;
use crate::report::{BranchReport, ReportView, SyncReport};

verus! {

/// A message to a person, or the text of one.
pub enum NotifyCall<'a> {
    /// The text of a report.
    Render { entries: SyncReport },
    /// Says that a sync starts.
    SyncStart { branch: &'a str, base: String, strategy: SyncStrategy },
    /// Says that a branch failed.
    Failure { subject: String, entry: BranchReport },
    /// Says how a run ended.
    Summary { summary: String, report: String },
    /// Says how a run ended, under a subject of its own.
    NamedSummary { subject: String, summary: String, report: String },
    /// Says anything else.
    Alert { subject: String, body: String },
}

/// The model of `NotifyCall`.
pub enum NotifyView {
    Render { entries: Seq<ReportView> },
    SyncStart { branch: Seq<char>, base: Seq<char>, strategy: SyncStrategy },
    Failure { subject: Seq<char>, entry: ReportView },
    Summary { summary: Seq<char>, report: Seq<char> },
    NamedSummary { subject: Seq<char>, summary: Seq<char>, report: Seq<char> },
    Alert { subject: Seq<char>, body: Seq<char> },
}

impl<'a> View for NotifyCall<'a> {
    type V = NotifyView;

    open spec fn view(&self) -> NotifyView {
        match *self {
            NotifyCall::Render { entries } => NotifyView::Render {
                entries: entries@,
            },
            NotifyCall::SyncStart { branch, base, strategy } => NotifyView::SyncStart {
                branch: branch@,
                base: base@,
                strategy,
            },
            NotifyCall::Failure { subject, entry } => NotifyView::Failure {
                subject: subject@,
                entry: entry@,
            },
            NotifyCall::Summary { summary, report } => NotifyView::Summary {
                summary: summary@,
                report: report@,
            },
            NotifyCall::NamedSummary { subject, summary, report } => NotifyView::NamedSummary {
                subject: subject@,
                summary: summary@,
                report: report@,
            },
            NotifyCall::Alert { subject, body } => NotifyView::Alert {
                subject: subject@,
                body: body@,
            },
        }
    }
}

} // verus!
