//! How the work on a branch ends, and its stages.

use vstd::prelude::*;

use crate::report::{BranchReport, ReportView};
use crate::text::text_option;

verus! {

/// How the work on a branch ended: with a report, or with a remote branch that is not where it was.
pub enum BranchView {
    Report(ReportView),
    RemoteChanged { expected: Option<Seq<char>>, current: Option<Seq<char>> },
}

/// How the work on a branch ended.
#[derive(Debug)]
pub enum SyncBranchOutcome {
    Report(BranchReport),
    RemoteChanged { expected: Option<String>, current: Option<String> },
}

impl View for SyncBranchOutcome {
    type V = BranchView;

    open spec fn view(&self) -> BranchView {
        match *self {
            SyncBranchOutcome::Report(report) => BranchView::Report(report@),
            SyncBranchOutcome::RemoteChanged { expected, current } => BranchView::RemoteChanged {
                expected: text_option(expected),
                current: text_option(current),
            },
        }
    }
}

/// How a stage ended: the work goes on, or it is over.
pub enum StageView<T> {
    Go(T),
    End(BranchView),
}

/// How a stage ended.
#[derive(Debug)]
pub enum Stage<T> {
    Go(T),
    End(SyncBranchOutcome),
}

impl<T: View> View for Stage<T> {
    type V = StageView<T::V>;

    open spec fn view(&self) -> StageView<T::V> {
        match *self {
            Stage::Go(value) => StageView::Go(value@),
            Stage::End(outcome) => StageView::End(outcome@),
        }
    }
}

/// A stage that ended with a report.
pub open spec fn ended<T>(report: ReportView) -> StageView<T> {
    StageView::End(BranchView::Report(report))
}

} // verus!
