//! A model of plain files on a disk, and what a merge of a file does to it.
//!
//! The model knows paths that hold a file with its bytes and paths that hold
//! a directory. It answers the requests that work on files, creates
//! directories and lists them; a request that renames or deletes a directory
//! is answered with a failure, which every real filesystem may do as well.

use vstd::prelude::*;

use crate::entry::{ChildView, EntryView, Type};
use crate::merge::MergeView;
use crate::protocol::{ErrorView, ReplyView, RequestView};

verus! {

/// What stands at a path.
pub enum Node {
    File(Seq<u8>),
    Dir,
}

/// The disk: every path at which something stands, with what stands there.
pub type Disk = Map<Seq<char>, Node>;

/// Whether a plain file stands at `path`.
pub open spec fn is_file(disk: Disk, path: Seq<char>) -> bool {
    disk.contains_key(path) && disk[path] is File
}

/// Whether a file can be written at `path`: the path is free or holds a
/// file.
pub open spec fn writable(disk: Disk, path: Seq<char>) -> bool {
    !disk.contains_key(path) || disk[path] is File
}

/// What the paths and their contents do not decide: whether the disk is
/// willing to rename at all (it is not across two volumes), and what a
/// listing of each directory gives, in which order. A listing is the same
/// whenever it is asked for: the model is for runs that do not add to the
/// directories they list, as a copy does not add to its source.
pub struct Host {
    pub rename_works: bool,
    pub listing: spec_fn(Seq<char>) -> Seq<ChildView>,
}

/// The disk after `request` and the reply to it.
pub open spec fn perform(disk: Disk, request: RequestView, host: Host) -> (Disk, ReplyView) {
    match request {
        RequestView::Exists(path) => (disk, ReplyView::Flag(disk.contains_key(path))),
        RequestView::IsFile(path) => if disk.contains_key(path) {
            (disk, ReplyView::Flag(disk[path] is File))
        } else {
            (disk, ReplyView::Failed(Seq::empty()))
        },
        RequestView::Rename(from, to) => if host.rename_works && is_file(disk, from) && writable(
            disk,
            to,
        ) {
            (disk.remove(from).insert(to, disk[from]), ReplyView::Done)
        } else {
            (disk, ReplyView::Failed(Seq::empty()))
        },
        RequestView::CopyFile(from, to) => if is_file(disk, from) && writable(disk, to) && from
            != to {
            (disk.insert(to, disk[from]), ReplyView::Done)
        } else {
            (disk, ReplyView::Failed(Seq::empty()))
        },
        RequestView::RemoveFile(path) => if is_file(disk, path) {
            (disk.remove(path), ReplyView::Done)
        } else {
            (disk, ReplyView::Failed(Seq::empty()))
        },
        RequestView::CreateDir(path) => if disk.contains_key(path) {
            (disk, ReplyView::Failed(Seq::empty()))
        } else {
            (disk.insert(path, Node::Dir), ReplyView::Done)
        },
        RequestView::List(path) => if disk.contains_key(path) && disk[path] is Dir {
            (disk, ReplyView::Listing((host.listing)(path)))
        } else {
            (disk, ReplyView::Failed(Seq::empty()))
        },
        _ => (disk, ReplyView::Failed(Seq::empty())),
    }
}

/// Runs `merge` against `disk` until it has finished, for at most `fuel`
/// requests. Gives the merge and the disk as they then are.
pub open spec fn run(merge: MergeView, disk: Disk, host: Host, fuel: nat) -> (
    MergeView,
    Disk,
)
    decreases fuel,
{
    if fuel == 0 || merge.finished() {
        (merge, disk)
    } else {
        let (next, reply) = perform(disk, merge.request(), host);
        run(merge.react(reply), next, host, (fuel - 1) as nat)
    }
}

/// The merge that moves (`moving`) or copies the file at `from` to `to`.
pub open spec fn file_merge(from: Seq<char>, to: Seq<char>, overwrite: bool, moving: bool)
    -> MergeView {
    MergeView::start(EntryView { path: from, kind: Type::File }, to, overwrite, moving)
}

/// A merge that ended without an error.
pub open spec fn succeeded(merge: MergeView) -> bool {
    merge.finished() && merge.failure is None
}

/// Moving a file to a path that is free, or that holds a file which may be
/// overwritten, succeeds; afterwards the destination holds the source's
/// bytes, the source is gone and nothing else has changed. This is so
/// whether the disk renames or the file has to be copied and deleted.
pub proof fn move_file_relocates(
    disk: Disk,
    from: Seq<char>,
    to: Seq<char>,
    overwrite: bool,
    host: Host,
    fuel: nat,
)
    requires
        is_file(disk, from),
        from != to,
        !disk.contains_key(to) || (overwrite && is_file(disk, to)),
        fuel >= 4,
    ensures
        succeeded(run(file_merge(from, to, overwrite, true), disk, host, fuel).0),
        run(file_merge(from, to, overwrite, true), disk, host, fuel).1 == disk.remove(
            from,
        ).insert(to, disk[from]),
        run(file_merge(from, to, overwrite, true), disk, host, fuel).1[to] == disk[from],
        !run(file_merge(from, to, overwrite, true), disk, host, fuel).1.contains_key(from),
{
    reveal_with_fuel(run, 5);
    let m0 = file_merge(from, to, overwrite, true);
    let m1 = m0.react(perform(disk, m0.request(), host).1);
    assert(m1.stack =~= seq![m0.stack[0].at(crate::merge::Step::MoveFileRename)]);
    let (d2, r2) = perform(disk, m1.request(), host);
    let m2 = m1.react(r2);
    if host.rename_works {
        assert(m2.stack =~= Seq::empty());
        assert(d2 =~= disk.remove(from).insert(to, disk[from]));
    } else {
        assert(m2.stack =~= seq![m0.stack[0].at(crate::merge::Step::MoveFileCopy)]);
        let (d3, r3) = perform(d2, m2.request(), host);
        let m3 = m2.react(r3);
        assert(m3.stack =~= seq![m0.stack[0].at(crate::merge::Step::MoveFileRemove)]);
        let (d4, r4) = perform(d3, m3.request(), host);
        let m4 = m3.react(r4);
        assert(m4.stack =~= Seq::empty());
        assert(d4 =~= disk.remove(from).insert(to, disk[from]));
    }
}

/// A refused rename changes nothing in where a moved file ends up: the
/// disk after the copy and delete is the disk after a rename.
pub proof fn fallback_matches_rename(
    disk: Disk,
    from: Seq<char>,
    to: Seq<char>,
    overwrite: bool,
    refusing: Host,
    renaming: Host,
    fuel: nat,
)
    requires
        is_file(disk, from),
        from != to,
        !disk.contains_key(to) || (overwrite && is_file(disk, to)),
        !refusing.rename_works,
        renaming.rename_works,
        fuel >= 4,
    ensures
        run(file_merge(from, to, overwrite, true), disk, refusing, fuel).1 == run(
            file_merge(from, to, overwrite, true),
            disk,
            renaming,
            fuel,
        ).1,
{
    move_file_relocates(disk, from, to, overwrite, refusing, fuel);
    move_file_relocates(disk, from, to, overwrite, renaming, fuel);
}

/// With overwriting off, moving or copying a file to a path where
/// something stands succeeds and changes nothing on the disk: the
/// destination keeps its content and the source stays.
pub proof fn existing_destination_is_kept(
    disk: Disk,
    from: Seq<char>,
    to: Seq<char>,
    moving: bool,
    host: Host,
    fuel: nat,
)
    requires
        disk.contains_key(to),
        fuel >= 1,
    ensures
        succeeded(run(file_merge(from, to, false, moving), disk, host, fuel).0),
        run(file_merge(from, to, false, moving), disk, host, fuel).1 == disk,
{
    reveal_with_fuel(run, 2);
    let m0 = file_merge(from, to, false, moving);
    let m1 = m0.react(perform(disk, m0.request(), host).1);
    assert(m1.stack =~= Seq::empty());
}

/// Copying a file to a path that is free, or that holds a file which may be
/// overwritten, succeeds; afterwards the destination holds the source's
/// bytes and nothing else has changed, the source included.
pub proof fn copy_file_writes_destination(
    disk: Disk,
    from: Seq<char>,
    to: Seq<char>,
    overwrite: bool,
    host: Host,
    fuel: nat,
)
    requires
        is_file(disk, from),
        from != to,
        !disk.contains_key(to) || (overwrite && is_file(disk, to)),
        fuel >= 2,
    ensures
        succeeded(run(file_merge(from, to, overwrite, false), disk, host, fuel).0),
        run(file_merge(from, to, overwrite, false), disk, host, fuel).1 == disk.insert(
            to,
            disk[from],
        ),
{
    reveal_with_fuel(run, 3);
    let m0 = file_merge(from, to, overwrite, false);
    let m1 = m0.react(perform(disk, m0.request(), host).1);
    assert(m1.stack =~= seq![m0.stack[0].at(crate::merge::Step::CopyFileCopy)]);
    let (d2, r2) = perform(disk, m1.request(), host);
    let m2 = m1.react(r2);
    assert(m2.stack =~= Seq::empty());
}

/// Copying a file with overwriting on, and then once more, leaves the disk
/// as the first copy left it. This holds of every disk, also of one on
/// which the copy fails.
pub proof fn copy_file_twice(
    disk: Disk,
    from: Seq<char>,
    to: Seq<char>,
    host: Host,
    fuel: nat,
)
    requires
        fuel >= 2,
    ensures
        ({
            let once = run(file_merge(from, to, true, false), disk, host, fuel).1;
            run(file_merge(from, to, true, false), once, host, fuel).1 == once
        }),
{
    reveal_with_fuel(run, 3);
    let m0 = file_merge(from, to, true, false);
    let once = run(m0, disk, host, fuel).1;
    let twice = run(m0, once, host, fuel).1;
    let m1 = m0.react(perform(disk, m0.request(), host).1);
    let n1 = m0.react(perform(once, m0.request(), host).1);
    assert(m1.stack =~= seq![m0.stack[0].at(crate::merge::Step::CopyFileCopy)]);
    assert(n1.stack =~= seq![m0.stack[0].at(crate::merge::Step::CopyFileCopy)]);
    let (d2, r2) = perform(disk, m1.request(), host);
    let m2 = m1.react(r2);
    let (e2, s2) = perform(once, n1.request(), host);
    let n2 = n1.react(s2);
    assert(m2.finished());
    assert(n2.finished());
    assert(once == d2);
    assert(twice == e2);
    assert(e2 =~= once);
}

/// Moving a directory onto a plain file fails with the type conflict,
/// whatever the overwrite policy, and leaves the disk as it was.
pub proof fn directory_onto_file_is_refused(
    disk: Disk,
    from: Seq<char>,
    to: Seq<char>,
    overwrite: bool,
    host: Host,
    fuel: nat,
)
    requires
        is_file(disk, to),
        fuel >= 2,
    ensures
        ({
            let merge = MergeView::start(
                EntryView { path: from, kind: Type::Dir },
                to,
                overwrite,
                true,
            );
            let end = run(merge, disk, host, fuel);
            &&& end.0.finished()
            &&& end.0.failure == Some(ErrorView::AlreadyExists)
            &&& end.1 == disk
        }),
{
    reveal_with_fuel(run, 3);
    let m0 = MergeView::start(EntryView { path: from, kind: Type::Dir }, to, overwrite, true);
    let m1 = m0.react(perform(disk, m0.request(), host).1);
    assert(m1.stack =~= seq![m0.stack[0].at(crate::merge::Step::MoveDirKind)]);
}

} // verus!
