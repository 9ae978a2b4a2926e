//! What a run asks of the world outside.

use vstd::prelude::*;

use crate::calls::archive::{ArchiveCall, ArchiveCallView};
use crate::calls::conflict::{ConflictCall, ConflictView};
use crate::calls::git::{GitCall, GitView};
use crate::calls::job::{JobCall, JobCallView};
use crate::calls::model::{ModelCall, ModelView};
use crate::calls::notify::{NotifyCall, NotifyView};
use crate::calls::protect::{ProtectionCall, ProtectionView};
use crate::calls::signal::{SignalCall, SignalCallView};

pub mod archive;
pub mod conflict;
pub mod git;
pub mod job;
pub mod model;
pub mod notify;
pub mod protect;
pub mod signal;

verus! {

/// A tree that git works on: the repository, or the worktree of the run.
#[derive(Debug, Clone, Copy, PartialEq, Eq, Structural)]
pub enum Tree {
    Main,
    Work,
}

/// Something that a run asks of the world outside.
pub enum Request<'a> {
    Git(Tree, GitCall<'a>),
    Model(ModelCall<'a>),
    Conflict(ConflictCall<'a>),
    Notify(NotifyCall<'a>),
    Protection(Tree, ProtectionCall<'a>),
    Job(JobCall<'a>),
    Signal(SignalCall<'a>),
    Archive(ArchiveCall<'a>),
}

/// The model of `Request`.
pub enum RequestView {
    Git(Tree, GitView),
    Model(ModelView),
    Conflict(ConflictView),
    Notify(NotifyView),
    Protection(Tree, ProtectionView),
    Job(JobCallView),
    Signal(SignalCallView),
    Archive(ArchiveCallView),
}

impl<'a> View for Request<'a> {
    type V = RequestView;

    open spec fn view(&self) -> RequestView {
        match *self {
            Request::Git(value, other) => RequestView::Git(value, other@),
            Request::Model(value) => RequestView::Model(value@),
            Request::Conflict(value) => RequestView::Conflict(value@),
            Request::Notify(value) => RequestView::Notify(value@),
            Request::Protection(value, other) => RequestView::Protection(value, other@),
            Request::Job(value) => RequestView::Job(value@),
            Request::Signal(value) => RequestView::Signal(value@),
            Request::Archive(value) => RequestView::Archive(value@),
        }
    }
}

/// Whether a request pushes something.
pub open spec fn pushes(request: RequestView) -> bool {
    match request {
        RequestView::Git(_, GitView::Push { .. }) => true,
        RequestView::Git(_, GitView::PushWithLease { .. }) => true,
        RequestView::Protection(_, ProtectionView::ReleaseTag { .. }) => true,
        RequestView::Job(JobCallView::PushJob { .. }) => true,
        _ => false,
    }
}

/// Whether a request writes or stages a file of a tree.
pub open spec fn writes(request: RequestView) -> bool {
    match request {
        RequestView::Git(_, GitView::WriteFile { .. }) => true,
        RequestView::Git(_, GitView::AddFile { .. }) => true,
        _ => false,
    }
}

} // verus!
