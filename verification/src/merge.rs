//! The merge engine: a stack of pending work that turns replies into the next
//! request.

use vstd::prelude::*;

use crate::entry::{
    classify, entries_view, join, join_spec, listing_view, read_dir, Child, ChildView, Entry,
    EntryView, Type,
};
use crate::protocol::{answers, is_answer, ErrorView, MergeError, Reply, ReplyView, Request, RequestView};

verus! {

/// Where a piece of work stands. Each step waits for the outcome of exactly
/// one request (see [`request_of`]).
#[derive(Debug, Clone, Copy, PartialEq, Eq, Structural)]
pub enum Step {
    /// Moving a file: does the destination exist?
    MoveFileProbe,
    /// Moving a file: rename it.
    MoveFileRename,
    /// Moving a file, rename refused: copy it.
    MoveFileCopy,
    /// Moving a file, copied: delete the source.
    MoveFileRemove,
    /// Moving a directory: does the destination exist?
    MoveDirProbe,
    /// Moving a directory to a free path: rename it.
    MoveDirRename,
    /// Moving a directory onto something: is that a plain file?
    MoveDirKind,
    /// Merging a directory into another: list the source.
    MoveDirList,
    /// The children of a merged directory are done: remove it if it is
    /// empty, and do not mind if it is not.
    Cleanup,
    /// A directory was copied in place of a rename: delete the source tree.
    Purge,
    /// Copying a file: does the destination exist?
    CopyFileProbe,
    /// Copying a file: copy it.
    CopyFileCopy,
    /// Copying a directory: does the destination exist?
    CopyDirProbe,
    /// Copying a directory to a free path: create it.
    CopyDirCreate,
    /// Copying a directory: list the source.
    CopyDirList,
}

/// One piece of pending work: a step on a source and a destination path.
#[derive(Debug, PartialEq, Eq)]
pub struct Frame {
    pub step: Step,
    pub from: String,
    pub to: String,
}

/// A frame as a mathematical value.
pub struct FrameView {
    pub step: Step,
    pub from: Seq<char>,
    pub to: Seq<char>,
}

impl View for Frame {
    type V = FrameView;

    open spec fn view(&self) -> FrameView {
        FrameView { step: self.step, from: self.from@, to: self.to@ }
    }
}

impl FrameView {
    /// The same work, at another step.
    pub open spec fn at(self, step: Step) -> FrameView {
        FrameView { step, from: self.from, to: self.to }
    }
}

/// The mathematical value of a stack of frames.
pub open spec fn frames_view(frames: Seq<Frame>) -> Seq<FrameView> {
    frames.map_values(|f: Frame| f@)
}

/// The step at which work on an entry of the given kind begins.
pub open spec fn first_step(moving: bool, kind: Type) -> Step {
    match kind {
        Type::File => if moving {
            Step::MoveFileProbe
        } else {
            Step::CopyFileProbe
        },
        Type::Dir => if moving {
            Step::MoveDirProbe
        } else {
            Step::CopyDirProbe
        },
    }
}

/// The request whose outcome a frame waits for.
pub open spec fn request_of(frame: FrameView) -> RequestView {
    match frame.step {
        Step::MoveFileProbe | Step::MoveDirProbe | Step::CopyFileProbe | Step::CopyDirProbe => {
            RequestView::Exists(frame.to)
        },
        Step::MoveFileRename | Step::MoveDirRename => RequestView::Rename(frame.from, frame.to),
        Step::MoveFileCopy | Step::CopyFileCopy => RequestView::CopyFile(frame.from, frame.to),
        Step::MoveFileRemove => RequestView::RemoveFile(frame.from),
        Step::MoveDirKind => RequestView::IsFile(frame.to),
        Step::MoveDirList | Step::CopyDirList => RequestView::List(frame.from),
        Step::Cleanup => RequestView::RemoveDir(frame.from),
        Step::Purge => RequestView::RemoveDirAll(frame.from),
        Step::CopyDirCreate => RequestView::CreateDir(frame.to),
    }
}

/// The work on one listed child of the directory that `parent` works on: the
/// child keeps its name below the parent's destination.
pub open spec fn child_frame(parent: FrameView, child: ChildView, moving: bool) -> FrameView {
    FrameView {
        step: first_step(moving, classify(child.is_dir)),
        from: join_spec(parent.from, child.name),
        to: join_spec(parent.to, child.name),
    }
}

/// The work on all listed children, stacked so that the child listed first
/// lies on top and is done first.
pub open spec fn spawn_spec(parent: FrameView, listing: Seq<ChildView>, moving: bool) -> Seq<
    FrameView,
> {
    Seq::new(listing.len(), |i: int| child_frame(parent, listing[listing.len() - 1 - i], moving))
}

/// What a reply does to the frame that waited for it: the frames that take
/// its place on the stack (the last one on top), or the error that ends the
/// merge. A reply that cannot be the outcome of the frame's request leaves
/// the frame where it is, so that the request is made again.
pub open spec fn advance(top: FrameView, overwrite: bool, reply: ReplyView) -> Result<
    Seq<FrameView>,
    ErrorView,
> {
    if !answers(request_of(top), reply) {
        Ok(seq![top])
    } else {
        advance_answered(top, overwrite, reply)
    }
}

/// [`advance`] for a reply that answers the frame's request.
pub open spec fn advance_answered(top: FrameView, overwrite: bool, reply: ReplyView) -> Result<
    Seq<FrameView>,
    ErrorView,
> {
    match reply {
        ReplyView::Flag(yes) => match top.step {
            Step::MoveFileProbe => if yes && !overwrite {
                Ok(seq![])
            } else {
                Ok(seq![top.at(Step::MoveFileRename)])
            },
            Step::CopyFileProbe => if yes && !overwrite {
                Ok(seq![])
            } else {
                Ok(seq![top.at(Step::CopyFileCopy)])
            },
            Step::MoveDirProbe => if yes {
                Ok(seq![top.at(Step::MoveDirKind)])
            } else {
                Ok(seq![top.at(Step::MoveDirRename)])
            },
            Step::CopyDirProbe => if yes {
                Ok(seq![top.at(Step::CopyDirList)])
            } else {
                Ok(seq![top.at(Step::CopyDirCreate)])
            },
            Step::MoveDirKind => if yes {
                Err(ErrorView::AlreadyExists)
            } else {
                Ok(seq![top.at(Step::MoveDirList)])
            },
            _ => Ok(seq![top]),
        },
        ReplyView::Done => match top.step {
            Step::MoveFileCopy => Ok(seq![top.at(Step::MoveFileRemove)]),
            Step::CopyDirCreate => Ok(seq![top.at(Step::CopyDirList)]),
            _ => Ok(seq![]),
        },
        ReplyView::Failed(cause) => match top.step {
            Step::MoveFileRename => Ok(seq![top.at(Step::MoveFileCopy)]),
            Step::MoveDirRename => Ok(seq![top.at(Step::Purge), top.at(Step::CopyDirProbe)]),
            Step::Cleanup => Ok(seq![]),
            _ => Err(ErrorView::Io(cause)),
        },
        ReplyView::Listing(listing) => match top.step {
            Step::MoveDirList => Ok(seq![top.at(Step::Cleanup)] + spawn_spec(top, listing, true)),
            Step::CopyDirList => Ok(spawn_spec(top, listing, false)),
            _ => Ok(seq![top]),
        },
    }
}

/// A merge as a mathematical value: the overwrite policy, the stack of
/// pending work (its top is the last element) and the error that ended it,
/// if one did.
pub struct MergeView {
    pub overwrite: bool,
    pub stack: Seq<FrameView>,
    pub failure: Option<ErrorView>,
}

impl MergeView {
    /// A merge that has one thing to do: move or copy `entry` to `to`.
    pub open spec fn start(entry: EntryView, to: Seq<char>, overwrite: bool, moving: bool)
        -> MergeView {
        MergeView {
            overwrite,
            stack: seq![
                FrameView { step: first_step(moving, entry.kind), from: entry.path, to },
            ],
            failure: None,
        }
    }

    /// Whether the merge has ended.
    pub open spec fn finished(self) -> bool {
        self.failure is Some || self.stack.len() == 0
    }

    /// What the caller has to do next.
    pub open spec fn request(self) -> RequestView {
        match self.failure {
            Some(e) => RequestView::Finished(Err(e)),
            None => if self.stack.len() == 0 {
                RequestView::Finished(Ok(()))
            } else {
                request_of(self.stack.last())
            },
        }
    }

    /// The merge after `reply` to its request. An error empties the stack:
    /// nothing that was pending is done. A finished merge stays as it is.
    pub open spec fn react(self, reply: ReplyView) -> MergeView {
        if self.finished() {
            self
        } else {
            match advance(self.stack.last(), self.overwrite, reply) {
                Ok(frames) => MergeView {
                    overwrite: self.overwrite,
                    stack: self.stack.drop_last() + frames,
                    failure: None,
                },
                Err(e) => MergeView {
                    overwrite: self.overwrite,
                    stack: Seq::empty(),
                    failure: Some(e),
                },
            }
        }
    }
}

/// A merge in progress.
pub struct Merge {
    overwrite: bool,
    stack: Vec<Frame>,
    failure: Option<MergeError>,
}

impl View for Merge {
    type V = MergeView;

    closed spec fn view(&self) -> MergeView {
        MergeView {
            overwrite: self.overwrite,
            stack: frames_view(self.stack@),
            failure: match self.failure {
                Some(e) => Some(e@),
                None => None,
            },
        }
    }
}

fn begin(moving: bool, kind: Type) -> (r: Step)
    ensures
        r == first_step(moving, kind),
{
    match kind {
        Type::File => if moving {
            Step::MoveFileProbe
        } else {
            Step::CopyFileProbe
        },
        Type::Dir => if moving {
            Step::MoveDirProbe
        } else {
            Step::CopyDirProbe
        },
    }
}

fn at(frame: &Frame, step: Step) -> (r: Frame)
    ensures
        r@ == frame@.at(step),
{
    Frame { step, from: frame.from.clone(), to: frame.to.clone() }
}

/// Stacks the work on the listed children of `parent`'s source directory.
fn spawn(parent: &Frame, listing: &Vec<Child>, moving: bool) -> (r: Vec<Frame>)
    ensures
        frames_view(r@) == spawn_spec(parent@, listing_view(listing@), moving),
{
    let entries = read_dir(&parent.from, listing);
    let n = listing.len();
    let mut frames: Vec<Frame> = Vec::new();
    let mut i: usize = n;
    proof {
        assert(entries_view(entries@).len() == n);
        assert forall|k: int| 0 <= k < n implies (#[trigger] entries[k])@
            == crate::entry::child_entry(parent.from@, listing[k]@) by {
            assert(entries_view(entries@)[k] == entries[k]@);
            assert(listing_view(listing@)[k] == listing[k]@);
        }
    }
    while i > 0
        invariant
            i <= n,
            n == listing.len(),
            entries.len() == n,
            frames.len() == n - i,
            forall|k: int|
                0 <= k < n ==> (#[trigger] entries[k])@ == crate::entry::child_entry(
                    parent.from@,
                    listing[k]@,
                ),
            forall|k: int|
                0 <= k < n - i ==> (#[trigger] frames[k])@ == child_frame(
                    parent@,
                    listing[n - 1 - k]@,
                    moving,
                ),
        decreases i,
    {
        i -= 1;
        let entry = &entries[i];
        let frame = Frame {
            step: begin(moving, entry._type),
            from: entry.path.clone(),
            to: join(&parent.to, &listing[i].name),
        };
        frames.push(frame);
    }
    proof {
        assert(frames_view(frames@) =~= spawn_spec(parent@, listing_view(listing@), moving));
    }
    frames
}

impl Entry {
    /// Starts moving this entry to `to`. A file is renamed, or copied and
    /// deleted where the rename is refused; it is left alone where `to`
    /// exists and `overwrite` is off. A directory is renamed to a free path;
    /// onto an existing directory its children are moved one by one, and onto
    /// a plain file the merge fails with [`MergeError::AlreadyExists`].
    pub fn mov(&self, to: &String, overwrite: bool) -> (r: Merge)
        ensures
            r@ == MergeView::start(self@, to@, overwrite, true),
    {
        let frame = Frame { step: begin(true, self._type), from: self.path.clone(), to: to.clone() };
        let mut stack: Vec<Frame> = Vec::new();
        stack.push(frame);
        proof {
            assert(frames_view(stack@) =~= MergeView::start(self@, to@, overwrite, true).stack);
        }
        Merge { overwrite, stack, failure: None }
    }

    /// Starts copying this entry to `to`. A file is copied unless `to` exists
    /// and `overwrite` is off. A directory is created at `to` if nothing is
    /// there, and its children are copied one by one. The source is never
    /// touched.
    pub fn copy(&self, to: &String, overwrite: bool) -> (r: Merge)
        ensures
            r@ == MergeView::start(self@, to@, overwrite, false),
    {
        let frame = Frame {
            step: begin(false, self._type),
            from: self.path.clone(),
            to: to.clone(),
        };
        let mut stack: Vec<Frame> = Vec::new();
        stack.push(frame);
        proof {
            assert(frames_view(stack@) =~= MergeView::start(self@, to@, overwrite, false).stack);
        }
        Merge { overwrite, stack, failure: None }
    }
}

/// The request that `frame` waits for.
fn request_for(frame: &Frame) -> (r: Request)
    ensures
        r@ == request_of(frame@),
{
    match frame.step {
        Step::MoveFileProbe | Step::MoveDirProbe | Step::CopyFileProbe | Step::CopyDirProbe => {
            Request::Exists(frame.to.clone())
        },
        Step::MoveFileRename | Step::MoveDirRename => {
            Request::Rename(frame.from.clone(), frame.to.clone())
        },
        Step::MoveFileCopy | Step::CopyFileCopy => {
            Request::CopyFile(frame.from.clone(), frame.to.clone())
        },
        Step::MoveFileRemove => Request::RemoveFile(frame.from.clone()),
        Step::MoveDirKind => Request::IsFile(frame.to.clone()),
        Step::MoveDirList | Step::CopyDirList => Request::List(frame.from.clone()),
        Step::Cleanup => Request::RemoveDir(frame.from.clone()),
        Step::Purge => Request::RemoveDirAll(frame.from.clone()),
        Step::CopyDirCreate => Request::CreateDir(frame.to.clone()),
    }
}

impl Merge {
    /// Whether the merge has ended.
    pub fn is_finished(&self) -> (r: bool)
        ensures
            r == self@.finished(),
    {
        self.failure.is_some() || self.stack.len() == 0
    }

    /// What the caller has to do next. It does not change until
    /// [`Merge::reply`] is called.
    pub fn request(&self) -> (r: Request)
        ensures
            r@ == self@.request(),
    {
        match &self.failure {
            Some(MergeError::AlreadyExists) => Request::Finished(Err(MergeError::AlreadyExists)),
            Some(MergeError::Io(cause)) => Request::Finished(Err(MergeError::Io(cause.clone()))),
            None => {
                let n = self.stack.len();
                if n == 0 {
                    Request::Finished(Ok(()))
                } else {
                    request_for(&self.stack[n - 1])
                }
            },
        }
    }

    /// Takes the outcome of the current request and moves on to the next.
    pub fn reply(&mut self, reply: Reply)
        ensures
            final(self)@ == old(self)@.react(reply@),
    {
        if self.failure.is_some() || self.stack.len() == 0 {
            return ;
        }
        let ghost rest = frames_view(old(self).stack@).drop_last();
        let top = self.stack.pop().unwrap();
        assert(frames_view(self.stack@) =~= rest);
        assert(top@ == frames_view(old(self).stack@).last());
        let next = step(&top, self.overwrite, reply);
        match next {
            Ok(mut frames) => {
                let ghost added = frames_view(frames@);
                self.stack.append(&mut frames);
                assert(frames_view(self.stack@) =~= rest + added);
            },
            Err(e) => {
                self.stack = Vec::new();
                self.failure = Some(e);
                assert(frames_view(self.stack@) =~= Seq::<FrameView>::empty());
            },
        }
    }
}

/// What `top` leaves on the stack in its own place once `reply` has come, or
/// the error that ends the merge.
fn step(top: &Frame, overwrite: bool, reply: Reply) -> (r: Result<Vec<Frame>, MergeError>)
    ensures
        match (r, advance(top@, overwrite, reply@)) {
            (Ok(frames), Ok(stack)) => frames_view(frames@) == stack,
            (Err(e), Err(f)) => e@ == f,
            _ => false,
        },
{
    let mut frames: Vec<Frame> = Vec::new();
    if !is_answer(&request_for(top), &reply) {
        frames.push(at(top, top.step));
        assert(frames_view(frames@) =~= seq![top@]);
        return Ok(frames);
    }
    match reply {
        Reply::Flag(yes) => {
            let next = match top.step {
                Step::MoveFileProbe => if yes && !overwrite {
                    None
                } else {
                    Some(Step::MoveFileRename)
                },
                Step::CopyFileProbe => if yes && !overwrite {
                    None
                } else {
                    Some(Step::CopyFileCopy)
                },
                Step::MoveDirProbe => if yes {
                    Some(Step::MoveDirKind)
                } else {
                    Some(Step::MoveDirRename)
                },
                Step::CopyDirProbe => if yes {
                    Some(Step::CopyDirList)
                } else {
                    Some(Step::CopyDirCreate)
                },
                Step::MoveDirKind => if yes {
                    return Err(MergeError::AlreadyExists);
                } else {
                    Some(Step::MoveDirList)
                },
                _ => Some(top.step),
            };
            if let Some(s) = next {
                frames.push(at(top, s));
                assert(frames_view(frames@) =~= seq![top@.at(s)]);
            } else {
                assert(frames_view(frames@) =~= Seq::<FrameView>::empty());
            }
        },
        Reply::Done => {
            match top.step {
                Step::MoveFileCopy => {
                    frames.push(at(top, Step::MoveFileRemove));
                    assert(frames_view(frames@) =~= seq![top@.at(Step::MoveFileRemove)]);
                },
                Step::CopyDirCreate => {
                    frames.push(at(top, Step::CopyDirList));
                    assert(frames_view(frames@) =~= seq![top@.at(Step::CopyDirList)]);
                },
                _ => {
                    assert(frames_view(frames@) =~= Seq::<FrameView>::empty());
                },
            }
        },
        Reply::Failed(cause) => {
            match top.step {
                Step::MoveFileRename => {
                    frames.push(at(top, Step::MoveFileCopy));
                    assert(frames_view(frames@) =~= seq![top@.at(Step::MoveFileCopy)]);
                },
                Step::MoveDirRename => {
                    frames.push(at(top, Step::Purge));
                    frames.push(at(top, Step::CopyDirProbe));
                    assert(frames_view(frames@) =~= seq![top@.at(Step::Purge), top@.at(Step::CopyDirProbe)]);
                },
                Step::Cleanup => {
                    assert(frames_view(frames@) =~= Seq::<FrameView>::empty());
                },
                _ => {
                    return Err(MergeError::Io(cause));
                },
            }
        },
        Reply::Listing(listing) => {
            match top.step {
                Step::MoveDirList => {
                    frames.push(at(top, Step::Cleanup));
                    let mut children = spawn(top, &listing, true);
                    frames.append(&mut children);
                    assert(frames_view(frames@) =~= seq![top@.at(Step::Cleanup)] + spawn_spec(
                        top@,
                        listing_view(listing@),
                        true,
                    ));
                },
                Step::CopyDirList => {
                    let mut children = spawn(top, &listing, false);
                    frames.append(&mut children);
                    assert(frames_view(frames@) =~= spawn_spec(
                        top@,
                        listing_view(listing@),
                        false,
                    ));
                },
                _ => {
                    frames.push(at(top, top.step));
                    assert(frames_view(frames@) =~= seq![top@]);
                },
            }
        },
    }
    Ok(frames)
}

} // verus!
