//! What holds of a merge at every point of its run.

use vstd::prelude::*;

use crate::entry::EntryView;
use crate::merge::{FrameView, MergeView, Step};
use crate::protocol::{ErrorView, ReplyView, RequestView};

verus! {

/// Whether a step is part of copying.
pub open spec fn copies(step: Step) -> bool {
    step is CopyFileProbe || step is CopyFileCopy || step is CopyDirProbe || step is CopyDirCreate
        || step is CopyDirList
}

/// Whether all the pending work of a merge is copying.
pub open spec fn copying(merge: MergeView) -> bool {
    forall|i: int| 0 <= i < merge.stack.len() ==> copies(#[trigger] merge.stack[i].step)
}

/// Whether all the pending work of a merge lies at or below `from` on the
/// source side and at or below `to` on the destination side.
pub open spec fn within(merge: MergeView, from: Seq<char>, to: Seq<char>) -> bool {
    forall|i: int|
        0 <= i < merge.stack.len() ==> from.is_prefix_of((#[trigger] merge.stack[i]).from)
            && to.is_prefix_of(merge.stack[i].to)
}

/// The paths that a request names.
pub open spec fn paths(request: RequestView) -> Set<Seq<char>> {
    match request {
        RequestView::Exists(p) => set![p],
        RequestView::IsFile(p) => set![p],
        RequestView::Rename(a, b) => set![a, b],
        RequestView::CopyFile(a, b) => set![a, b],
        RequestView::RemoveFile(p) => set![p],
        RequestView::RemoveDirAll(p) => set![p],
        RequestView::RemoveDir(p) => set![p],
        RequestView::CreateDir(p) => set![p],
        RequestView::List(p) => set![p],
        RequestView::Finished(_) => set![],
    }
}

/// A copy never renames and never deletes: from its start and after every
/// reply, all its pending work is copying, and what it asks for is an
/// existence test, a file copy, a new directory, a listing, or nothing more.
pub proof fn copy_spares_the_source(
    entry: EntryView,
    to: Seq<char>,
    overwrite: bool,
    merge: MergeView,
    reply: ReplyView,
)
    requires
        copying(merge),
    ensures
        copying(MergeView::start(entry, to, overwrite, false)),
        copying(merge.react(reply)),
        merge.request() is Exists || merge.request() is CopyFile || merge.request() is CreateDir
            || merge.request() is List || merge.request() is Finished,
{
    let next = merge.react(reply);
    assert forall|i: int| 0 <= i < next.stack.len() implies copies(
        #[trigger] next.stack[i].step,
    ) by {
        if !merge.finished() {
            let top = merge.stack.last();
            let rest = merge.stack.drop_last();
            assert(copies(top.step));
            if i < rest.len() {
                assert(next.stack[i] == merge.stack[i]);
            }
        }
    }
    if !merge.finished() {
        assert(copies(merge.stack.last().step));
    }
}

/// A merge stays inside its two trees: it starts at its source and its
/// destination, every reply leaves its pending work at or below them, and
/// every path that it names in a request lies at or below one of them.
pub proof fn merge_stays_within(
    entry: EntryView,
    to: Seq<char>,
    overwrite: bool,
    moving: bool,
    merge: MergeView,
    reply: ReplyView,
)
    requires
        within(merge, entry.path, to),
    ensures
        within(MergeView::start(entry, to, overwrite, moving), entry.path, to),
        within(merge.react(reply), entry.path, to),
        forall|p: Seq<char>| #[trigger]
            paths(merge.request()).contains(p) ==> entry.path.is_prefix_of(p) || to.is_prefix_of(p),
{
    let from = entry.path;
    let next = merge.react(reply);
    assert forall|i: int| 0 <= i < next.stack.len() implies from.is_prefix_of(
        (#[trigger] next.stack[i]).from,
    ) && to.is_prefix_of(next.stack[i].to) by {
        if !merge.finished() {
            let top = merge.stack.last();
            let rest = merge.stack.drop_last();
            assert(from.is_prefix_of(top.from) && to.is_prefix_of(top.to));
            if i < rest.len() {
                assert(next.stack[i] == merge.stack[i]);
            } else {
                let frame = next.stack[i];
                below_parent(from, top.from, frame.from);
                below_parent(to, top.to, frame.to);
            }
        }
    }
    if !merge.finished() {
        let top = merge.stack.last();
        assert(from.is_prefix_of(top.from) && to.is_prefix_of(top.to));
    }
}

/// A path that begins with its parent's path begins with whatever the
/// parent's path begins with.
proof fn below_parent(root: Seq<char>, parent: Seq<char>, path: Seq<char>)
    requires
        root.is_prefix_of(parent),
        parent.is_prefix_of(path),
    ensures
        root.is_prefix_of(path),
{
    assert(root =~= path.subrange(0, root.len() as int));
}

/// A failure to remove the emptied source directory is never an error: the
/// merge goes on with what lay under that work as if the directory had been
/// removed.
pub proof fn cleanup_failure_is_ignored(merge: MergeView, cause: Seq<char>)
    requires
        !merge.finished(),
        merge.request() is RemoveDir,
    ensures
        merge.react(ReplyView::Failed(cause)) == merge.react(ReplyView::Done),
        merge.react(ReplyView::Failed(cause)).failure is None,
        merge.react(ReplyView::Failed(cause)).stack == merge.stack.drop_last(),
{
    assert(merge.stack.drop_last() + Seq::<FrameView>::empty() =~= merge.stack.drop_last());
}

/// A refused rename is never an error either: a file is then copied to the
/// same destination, and for a directory the copy of the tree begins.
pub proof fn refused_rename_is_recovered(merge: MergeView, cause: Seq<char>)
    requires
        !merge.finished(),
        merge.request() is Rename,
    ensures
        merge.react(ReplyView::Failed(cause)).failure is None,
        merge.stack.last().step is MoveFileRename ==> merge.react(
            ReplyView::Failed(cause),
        ).request() == RequestView::CopyFile(merge.stack.last().from, merge.stack.last().to),
        merge.stack.last().step is MoveDirRename ==> merge.react(
            ReplyView::Failed(cause),
        ).request() == RequestView::Exists(merge.stack.last().to),
{
}

/// Every other failure ends the merge at once, with its cause as the
/// error: nothing that was pending is done.
pub proof fn failure_ends_the_merge(merge: MergeView, cause: Seq<char>)
    requires
        !merge.finished(),
        !(merge.request() is Exists),
        !(merge.request() is Rename),
        !(merge.request() is RemoveDir),
    ensures
        merge.react(ReplyView::Failed(cause)).finished(),
        merge.react(ReplyView::Failed(cause)).request() == RequestView::Finished(
            Err(ErrorView::Io(cause)),
        ),
{
}

} // verus!
