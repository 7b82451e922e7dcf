//! What a merge asks of the filesystem, and what it is told in return.

use vstd::prelude::*;

use crate::entry::{listing_view, Child, ChildView};

verus! {

/// Why a merge stopped.
#[derive(Debug, PartialEq, Eq)]
pub enum MergeError {
    /// A directory was to be merged into a path that holds a plain file.
    AlreadyExists,
    /// A filesystem primitive failed; the text is the cause it reported.
    Io(String),
}

/// A merge error as a mathematical value.
pub enum ErrorView {
    AlreadyExists,
    Io(Seq<char>),
}

impl View for MergeError {
    type V = ErrorView;

    open spec fn view(&self) -> ErrorView {
        match self {
            MergeError::AlreadyExists => ErrorView::AlreadyExists,
            MergeError::Io(cause) => ErrorView::Io(cause@),
        }
    }
}

/// The next thing the caller has to do.
#[derive(Debug, PartialEq, Eq)]
pub enum Request {
    /// Tell whether anything stands at the path.
    Exists(String),
    /// Tell whether the path holds a plain file; may fail.
    IsFile(String),
    /// Rename the first path to the second.
    Rename(String, String),
    /// Copy the file at the first path to the second, replacing what is
    /// there.
    CopyFile(String, String),
    /// Delete the file.
    RemoveFile(String),
    /// Delete the directory and all below it.
    RemoveDirAll(String),
    /// Delete the directory if it is empty.
    RemoveDir(String),
    /// Create the directory.
    CreateDir(String),
    /// List the directory's immediate children.
    List(String),
    /// Nothing more: the merge ended, well or with the error.
    Finished(Result<(), MergeError>),
}

/// A request as a mathematical value.
pub enum RequestView {
    Exists(Seq<char>),
    IsFile(Seq<char>),
    Rename(Seq<char>, Seq<char>),
    CopyFile(Seq<char>, Seq<char>),
    RemoveFile(Seq<char>),
    RemoveDirAll(Seq<char>),
    RemoveDir(Seq<char>),
    CreateDir(Seq<char>),
    List(Seq<char>),
    Finished(Result<(), ErrorView>),
}

impl View for Request {
    type V = RequestView;

    open spec fn view(&self) -> RequestView {
        match self {
            Request::Exists(p) => RequestView::Exists(p@),
            Request::IsFile(p) => RequestView::IsFile(p@),
            Request::Rename(a, b) => RequestView::Rename(a@, b@),
            Request::CopyFile(a, b) => RequestView::CopyFile(a@, b@),
            Request::RemoveFile(p) => RequestView::RemoveFile(p@),
            Request::RemoveDirAll(p) => RequestView::RemoveDirAll(p@),
            Request::RemoveDir(p) => RequestView::RemoveDir(p@),
            Request::CreateDir(p) => RequestView::CreateDir(p@),
            Request::List(p) => RequestView::List(p@),
            Request::Finished(Ok(())) => RequestView::Finished(Ok(())),
            Request::Finished(Err(e)) => RequestView::Finished(Err(e@)),
        }
    }
}

/// What came of a request.
#[derive(Debug, PartialEq, Eq)]
pub enum Reply {
    /// The answer to a question.
    Flag(bool),
    /// The operation succeeded.
    Done,
    /// The operation failed, with the cause.
    Failed(String),
    /// The children of the listed directory.
    Listing(Vec<Child>),
}

/// A reply as a mathematical value.
pub enum ReplyView {
    Flag(bool),
    Done,
    Failed(Seq<char>),
    Listing(Seq<ChildView>),
}

impl View for Reply {
    type V = ReplyView;

    open spec fn view(&self) -> ReplyView {
        match self {
            Reply::Flag(b) => ReplyView::Flag(*b),
            Reply::Done => ReplyView::Done,
            Reply::Failed(cause) => ReplyView::Failed(cause@),
            Reply::Listing(children) => ReplyView::Listing(listing_view(children@)),
        }
    }
}

/// Whether `reply` is a possible outcome of `request`. An existence test
/// always answers; the file test and a listing answer or fail; every other
/// operation succeeds or fails. A finished merge takes any reply and ignores
/// it.
pub open spec fn answers(request: RequestView, reply: ReplyView) -> bool {
    match request {
        RequestView::Exists(_) => reply is Flag,
        RequestView::IsFile(_) => reply is Flag || reply is Failed,
        RequestView::List(_) => reply is Listing || reply is Failed,
        RequestView::Finished(_) => true,
        _ => reply is Done || reply is Failed,
    }
}

/// Tests whether `reply` is a possible outcome of `request`.
pub fn is_answer(request: &Request, reply: &Reply) -> (r: bool)
    ensures
        r == answers(request@, reply@),
{
    match request {
        Request::Exists(_) => matches!(reply, Reply::Flag(_)),
        Request::IsFile(_) => matches!(reply, Reply::Flag(_) | Reply::Failed(_)),
        Request::List(_) => matches!(reply, Reply::Listing(_) | Reply::Failed(_)),
        Request::Finished(_) => true,
        _ => matches!(reply, Reply::Done | Reply::Failed(_)),
    }
}

} // verus!
