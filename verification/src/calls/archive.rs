//! Fetching and keeping the archives of packages.

use vstd::prelude::*;

verus! {

/// Something about the archive of a package.
pub enum ArchiveCall<'a> {
    /// Whether there is something at a path.
    Exists { path: String },
    /// What is at a path, links not followed.
    Inspect { path: String },
    /// The bytes of a file.
    Read { path: String },
    /// Sends the request for an address, without following it elsewhere, and gives the head of the
    /// answer.
    Fetch { url: String },
    /// The body of the answer, up to a number of bytes.
    Body { limit: u64 },
    /// A name that was never used.
    NewId,
    /// Creates a file that is not there yet, with all of its bytes.
    Write { path: String, bytes: &'a Vec<u8> },
    /// Gives a file another name.
    Rename { from: String, to: String },
    /// Removes a file.
    Remove { path: String },
}

/// The model of `ArchiveCall`.
pub enum ArchiveCallView {
    Exists { path: Seq<char> },
    Inspect { path: Seq<char> },
    Read { path: Seq<char> },
    Fetch { url: Seq<char> },
    Body { limit: u64 },
    NewId,
    Write { path: Seq<char>, bytes: Seq<u8> },
    Rename { from: Seq<char>, to: Seq<char> },
    Remove { path: Seq<char> },
}

impl<'a> View for ArchiveCall<'a> {
    type V = ArchiveCallView;

    open spec fn view(&self) -> ArchiveCallView {
        match *self {
            ArchiveCall::Exists { path } => ArchiveCallView::Exists { path: path@ },
            ArchiveCall::Inspect { path } => ArchiveCallView::Inspect { path: path@ },
            ArchiveCall::Read { path } => ArchiveCallView::Read { path: path@ },
            ArchiveCall::Fetch { url } => ArchiveCallView::Fetch { url: url@ },
            ArchiveCall::Body { limit } => ArchiveCallView::Body { limit },
            ArchiveCall::NewId => ArchiveCallView::NewId,
            ArchiveCall::Write { path, bytes } => ArchiveCallView::Write {
                path: path@,
                bytes: bytes@,
            },
            ArchiveCall::Rename { from, to } => ArchiveCallView::Rename { from: from@, to: to@ },
            ArchiveCall::Remove { path } => ArchiveCallView::Remove { path: path@ },
        }
    }
}

} // verus!
