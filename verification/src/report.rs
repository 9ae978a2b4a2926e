//! Reports of a synchronisation.

use vstd::prelude::*;

use crate::text::{text_option, texts};

verus! {

/// How a branch ended.
#[derive(Debug, Clone, Copy, PartialEq, Eq, Structural)]
pub enum BranchStatus {
    Success,
    Failed,
    Conflict,
    Skipped,
}

/// The name of a status.
pub open spec fn status_name(status: BranchStatus) -> Seq<char> {
    match status {
        BranchStatus::Success => "Success"@,
        BranchStatus::Failed => "Failed"@,
        BranchStatus::Conflict => "Conflict"@,
        BranchStatus::Skipped => "Skipped"@,
    }
}

/// Names a status.
pub fn status_text(status: BranchStatus) -> (r: &'static str)
    ensures
        r@ == status_name(status),
{
    match status {
        BranchStatus::Success => "Success",
        BranchStatus::Failed => "Failed",
        BranchStatus::Conflict => "Conflict",
        BranchStatus::Skipped => "Skipped",
    }
}

/// What happened on one branch.
#[derive(Debug, Clone)]
pub struct BranchReport {
    pub branch: String,
    pub kind: String,
    pub status: BranchStatus,
    pub head: Option<String>,
    pub active: bool,
    pub details: Vec<String>,
}

/// The model of a branch report.
pub struct ReportView {
    pub branch: Seq<char>,
    pub kind: Seq<char>,
    pub status: BranchStatus,
    pub head: Option<Seq<char>>,
    pub active: bool,
    pub details: Seq<Seq<char>>,
}

impl View for BranchReport {
    type V = ReportView;

    open spec fn view(&self) -> ReportView {
        ReportView {
            branch: self.branch@,
            kind: self.kind@,
            status: self.status,
            head: text_option(self.head),
            active: self.active,
            details: texts(self.details@),
        }
    }
}

/// A report without details of a branch where nothing happened.
pub open spec fn blank_report(branch: Seq<char>, kind: Seq<char>, status: BranchStatus) -> ReportView {
    ReportView { branch, kind, status, head: None, active: false, details: Seq::empty() }
}

/// A report of a branch where something happened.
pub open spec fn active_report(
    branch: Seq<char>,
    kind: Seq<char>,
    status: BranchStatus,
    details: Seq<Seq<char>>,
) -> ReportView {
    ReportView { branch, kind, status, head: None, active: true, details }
}

impl BranchReport {
    /// Starts a report.
    pub fn new(branch: &str, kind: &str, status: BranchStatus) -> (r: BranchReport)
        ensures
            r@ == blank_report(branch@, kind@, status),
    {
        let r = BranchReport {
            branch: branch.to_owned(),
            kind: kind.to_owned(),
            status,
            head: None,
            active: false,
            details: Vec::new(),
        };
        assert(texts(r.details@) =~= Seq::<Seq<char>>::empty());
        r
    }

    /// A copy of the report.
    pub fn copy(&self) -> (r: BranchReport)
        ensures
            r@ == self@,
    {
        BranchReport {
            branch: self.branch.clone(),
            kind: self.kind.clone(),
            status: self.status,
            head: self.head.clone(),
            active: self.active,
            details: crate::text::copy_texts(&self.details),
        }
    }

    /// Marks that something happened.
    pub fn active(self) -> (r: BranchReport)
        ensures
            r@ == (ReportView { active: true, ..self@ }),
    {
        let mut r = self;
        r.active = true;
        r
    }

    /// Marks that something happened.
    pub fn mark_active(&mut self)
        ensures
            final(self)@ == (ReportView { active: true, ..old(self)@ }),
    {
        self.active = true;
    }

    /// Adds a detail.
    pub fn detail(self, text: String) -> (r: BranchReport)
        ensures
            r@ == (ReportView { details: self@.details.push(text@), ..self@ }),
    {
        broadcast use crate::text::lemma_texts_push;

        let mut r = self;
        r.details.push(text);
        r
    }

    /// Adds a detail.
    pub fn push_detail(&mut self, text: String)
        ensures
            final(self)@ == (ReportView { details: old(self)@.details.push(text@), ..old(self)@ }),
    {
        broadcast use crate::text::lemma_texts_push;

        self.details.push(text);
    }

    /// Adds details.
    pub fn push_details(&mut self, more: Vec<String>)
        ensures
            final(self)@ == (ReportView {
                details: old(self)@.details + texts(more@),
                ..old(self)@
            }),
    {
        crate::text::append_texts(&mut self.details, more);
    }
}

/// The reports of all branches of a run.
#[derive(Debug, Clone)]
pub struct SyncReport {
    pub entries: Vec<BranchReport>,
}

impl View for SyncReport {
    type V = Seq<ReportView>;

    open spec fn view(&self) -> Seq<ReportView> {
        self.entries@.map_values(|e: BranchReport| e@)
    }
}

/// Whether something happened on one of the branches.
pub open spec fn any_active(entries: Seq<ReportView>) -> bool {
    exists|i: int| 0 <= i < entries.len() && (#[trigger] entries[i]).active
}

impl Default for SyncReport {
    fn default() -> (r: SyncReport)
        ensures
            r@ == Seq::<ReportView>::empty(),
    {
        let r = SyncReport { entries: Vec::new() };
        assert(r@ =~= Seq::<ReportView>::empty());
        r
    }
}

impl SyncReport {
    /// Adds the report of a branch.
    pub fn push(&mut self, entry: BranchReport)
        ensures
            final(self)@ == old(self)@.push(entry@),
    {
        let ghost before = self@;
        self.entries.push(entry);
        assert(self@ =~= before.push(entry@));
    }

    /// A copy of the reports.
    pub fn copy(&self) -> (r: SyncReport)
        ensures
            r@ == self@,
    {
        let mut entries: Vec<BranchReport> = Vec::new();
        let mut i: usize = 0;
        while i < self.entries.len()
            invariant
                i <= self.entries@.len(),
                entries@.len() == i,
                forall|j: int| 0 <= j < i ==> (#[trigger] entries@[j])@ == self.entries@[j]@,
            decreases self.entries@.len() - i,
        {
            entries.push(self.entries[i].copy());
            i = i + 1;
        }
        let r = SyncReport { entries };
        assert(r@ =~= self@);
        r
    }

    /// Whether something happened on one of the branches.
    pub fn has_activity(&self) -> (r: bool)
        ensures
            r == any_active(self@),
    {
        let mut i: usize = 0;
        while i < self.entries.len()
            invariant
                i <= self.entries@.len(),
                forall|j: int| 0 <= j < i ==> !(#[trigger] self@[j]).active,
            decreases self.entries@.len() - i,
        {
            assert(self@[i as int] == self.entries@[i as int]@);
            if self.entries[i].active {
                return true;
            }
            i = i + 1;
        }
        false
    }
}

} // verus!
