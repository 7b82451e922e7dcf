//! Trees that mirror one another, and what copying does between them.

use vstd::prelude::*;

use crate::entry::{join_spec, ChildView, EntryView};
use crate::invariants::copies;
use crate::merge::{child_frame, FrameView, MergeView};
use crate::model::{is_file, perform, run, succeeded, Disk, Host};

verus! {

/// Whether `name` can be the name of a child: it holds no separator.
pub open spec fn plain(name: Seq<char>) -> bool {
    !name.contains('/')
}

/// Whether each of `names` can be the name of a child.
pub open spec fn all_plain(names: Seq<Seq<char>>) -> bool {
    forall|i: int| 0 <= i < names.len() ==> plain(#[trigger] names[i])
}

/// What a walk down through `names` adds to a path: a separator and a name
/// for each level.
pub open spec fn tail(names: Seq<Seq<char>>) -> Seq<char>
    decreases names.len(),
{
    if names.len() == 0 {
        Seq::empty()
    } else {
        seq!['/'] + names[0] + tail(names.drop_first())
    }
}

/// The path reached from `path` by going down through `names`, one
/// directory level for each.
pub open spec fn under(path: Seq<char>, names: Seq<Seq<char>>) -> Seq<char> {
    path + tail(names)
}

/// Going down through a first name and then through the rest is going down
/// from the child of that name.
proof fn under_child(path: Seq<char>, names: Seq<Seq<char>>)
    requires
        names.len() > 0,
    ensures
        under(path, names) == under(join_spec(path, names[0]), names.drop_first()),
{
    assert(path + (seq!['/'] + names[0] + tail(names.drop_first())) =~= (path + seq!['/']
        + names[0]) + tail(names.drop_first()));
}

/// Whether the tree at `to` holds all that the tree at `from` holds: where
/// something stands below `from`, by a walk through plain names, something
/// stands at the same place below `to`, and for a file it is a file with the
/// same bytes.
pub open spec fn mirrors(disk: Disk, from: Seq<char>, to: Seq<char>) -> bool {
    forall|names: Seq<Seq<char>>|
        all_plain(names) && disk.contains_key(#[trigger] under(from, names))
            ==> disk.contains_key(under(to, names))
            && (disk[under(from, names)] is File ==> disk[under(to, names)] == disk[under(
            from,
            names,
        )])
}

/// Whether every child that a listing names has a plain name and stands on
/// the disk.
pub open spec fn lists_what_is_there(disk: Disk, host: Host) -> bool {
    forall|dir: Seq<char>, i: int|
        0 <= i < (host.listing)(dir).len() ==> plain((#[trigger] (host.listing)(dir)[i]).name)
            && disk.contains_key(join_spec(dir, (host.listing)(dir)[i].name))
}

/// Pending work of a copy whose destination already mirrors its source.
pub open spec fn frame_settled(disk: Disk, frame: FrameView) -> bool {
    &&& copies(frame.step)
    &&& !(frame.step is CopyDirCreate)
    &&& mirrors(disk, frame.from, frame.to)
    &&& frame.step is CopyDirProbe ==> disk.contains_key(frame.to)
}

/// A copy all of whose pending work is settled.
pub open spec fn settled(disk: Disk, merge: MergeView) -> bool {
    forall|i: int| 0 <= i < merge.stack.len() ==> frame_settled(disk, #[trigger] merge.stack[i])
}

/// A mirror of a tree holds a mirror of each child's tree.
proof fn child_mirrors(disk: Disk, from: Seq<char>, to: Seq<char>, name: Seq<char>)
    requires
        mirrors(disk, from, to),
        plain(name),
    ensures
        mirrors(disk, join_spec(from, name), join_spec(to, name)),
        disk.contains_key(join_spec(from, name)) ==> disk.contains_key(join_spec(to, name)),
{
    assert forall|names: Seq<Seq<char>>|
        all_plain(names) && disk.contains_key(
            #[trigger] under(join_spec(from, name), names),
        ) implies disk.contains_key(
        under(join_spec(to, name), names),
    ) && (disk[under(join_spec(from, name), names)] is File ==> disk[under(
        join_spec(to, name),
        names,
    )] == disk[under(join_spec(from, name), names)]) by {
        let full = seq![name] + names;
        assert(full.drop_first() =~= names);
        assert(all_plain(full)) by {
            assert forall|i: int| 0 <= i < full.len() implies plain(#[trigger] full[i]) by {
                if i > 0 {
                    assert(full[i] == names[i - 1]);
                }
            }
        }
        under_child(from, full);
        under_child(to, full);
    }
    let single = seq![name];
    assert(single.drop_first() =~= Seq::<Seq<char>>::empty());
    assert(all_plain(single));
    under_child(from, single);
    under_child(to, single);
    assert(under(join_spec(from, name), Seq::empty()) =~= join_spec(from, name));
    assert(under(join_spec(to, name), Seq::empty()) =~= join_spec(to, name));
}

/// One request of a settled copy leaves the disk alone and the copy settled.
proof fn settled_step(disk: Disk, host: Host, merge: MergeView)
    requires
        settled(disk, merge),
        lists_what_is_there(disk, host),
        !merge.finished(),
    ensures
        perform(disk, merge.request(), host).0 == disk,
        settled(disk, merge.react(perform(disk, merge.request(), host).1)),
{
    let top = merge.stack.last();
    let rest = merge.stack.drop_last();
    let (after, reply) = perform(disk, merge.request(), host);
    let next = merge.react(reply);
    assert(frame_settled(disk, top));
    assert(under(top.from, Seq::empty()) =~= top.from);
    assert(under(top.to, Seq::empty()) =~= top.to);
    assert(after =~= disk);
    assert forall|i: int| 0 <= i < next.stack.len() implies frame_settled(
        disk,
        #[trigger] next.stack[i],
    ) by {
        if i < rest.len() {
            assert(next.stack[i] == merge.stack[i]);
        } else if top.step is CopyDirList && reply is Listing {
            let listing = (host.listing)(top.from);
            let child = listing[listing.len() - 1 - (i - rest.len())];
            assert(next.stack[i] == child_frame(top, child, false));
            child_mirrors(disk, top.from, top.to, child.name);
        } else {
            assert(next.stack[i].from == top.from && next.stack[i].to == top.to);
        }
    }
}

/// A settled copy leaves the disk alone however long it runs.
proof fn settled_run(disk: Disk, host: Host, merge: MergeView, fuel: nat)
    requires
        settled(disk, merge),
        lists_what_is_there(disk, host),
    ensures
        run(merge, disk, host, fuel).1 == disk,
    decreases fuel,
{
    if fuel != 0 && !merge.finished() {
        settled_step(disk, host, merge);
        settled_run(
            disk,
            host,
            merge.react(perform(disk, merge.request(), host).1),
            (fuel - 1) as nat,
        );
    }
}

/// Copying onto a tree that already mirrors the source changes nothing on
/// the disk, however long it runs and whatever the overwrite policy. This
/// is the state in which a copy with overwriting on has left the
/// destination, so that a second such copy is no more than the first.
pub proof fn copy_onto_mirror_changes_nothing(
    disk: Disk,
    host: Host,
    entry: EntryView,
    to: Seq<char>,
    overwrite: bool,
    fuel: nat,
)
    requires
        mirrors(disk, entry.path, to),
        disk.contains_key(to),
        lists_what_is_there(disk, host),
    ensures
        run(MergeView::start(entry, to, overwrite, false), disk, host, fuel).1 == disk,
{
    settled_run(disk, host, MergeView::start(entry, to, overwrite, false), fuel);
}

/// Whether neither of two paths begins with the other, so that no path lies
/// below both.
pub open spec fn apart(from: Seq<char>, to: Seq<char>) -> bool {
    !from.is_prefix_of(to) && !to.is_prefix_of(from)
}

/// Whether nothing stands below a file of the tree at `from`.
pub open spec fn files_are_leaves(disk: Disk, from: Seq<char>) -> bool {
    forall|path: Seq<char>, names: Seq<Seq<char>>|
        from.is_prefix_of(path) && is_file(disk, path) && names.len() > 0 ==> !disk.contains_key(
            #[trigger] under(path, names),
        )
}

/// Whether the listing of each directory of the tree at `from` names every
/// child through which something on the disk is reached by plain names.
pub open spec fn lists_all(disk: Disk, host: Host, from: Seq<char>) -> bool {
    forall|dir: Seq<char>, names: Seq<Seq<char>>|
        from.is_prefix_of(dir) && disk.contains_key(dir) && disk[dir] is Dir && names.len() > 0
            && all_plain(names) && disk.contains_key(#[trigger] under(dir, names)) ==> exists|j: int|
            0 <= j < (host.listing)(dir).len() && (#[trigger] (host.listing)(dir)[j]).name
                == names[0]
}

/// Whether what stands at `from + rest` has its copy at `to + rest`.
pub open spec fn copied(disk: Disk, from: Seq<char>, to: Seq<char>, rest: Seq<char>) -> bool {
    disk.contains_key(to + rest) && (disk[from + rest] is File ==> disk[to + rest] == disk[from
        + rest])
}

/// Pending work of a copy from `from` to `to`: it lies at the same place
/// below both.
pub open spec fn frame_paired(disk: Disk, from: Seq<char>, to: Seq<char>, frame: FrameView)
    -> bool {
    &&& copies(frame.step)
    &&& from.is_prefix_of(frame.from)
    &&& to.is_prefix_of(frame.to)
    &&& frame.from.skip(from.len() as int) == frame.to.skip(to.len() as int)
    &&& frame.step is CopyDirList ==> disk.contains_key(frame.to)
}

/// Whether the place `names` below the two trees lies at `rest`, a walk
/// through plain names, below the frame's two paths.
pub open spec fn covers(
    frame: FrameView,
    from: Seq<char>,
    to: Seq<char>,
    names: Seq<Seq<char>>,
    rest: Seq<Seq<char>>,
) -> bool {
    all_plain(rest) && under(from, names) == under(frame.from, rest) && under(to, names) == under(
        frame.to,
        rest,
    )
}

/// Whether some pending work will still reach the place `names`.
pub open spec fn covered(merge: MergeView, from: Seq<char>, to: Seq<char>, names: Seq<Seq<char>>)
    -> bool {
    exists|i: int, rest: Seq<Seq<char>>|
        0 <= i < merge.stack.len() && #[trigger] covers(merge.stack[i], from, to, names, rest)
}

/// Whether `disk` is `before` with additions at or below `to` only.
pub open spec fn grown(before: Disk, disk: Disk, to: Seq<char>) -> bool {
    &&& forall|p: Seq<char>| before.contains_key(p) ==> #[trigger] disk.contains_key(p)
    &&& forall|p: Seq<char>|
        !to.is_prefix_of(p) ==> (#[trigger] disk.contains_key(p) ==> before.contains_key(p)
            && disk[p] == before[p])
}

/// What holds while a copy from `from` to `to` runs on a disk that was
/// `before`: the source is as it was, and each place of the source has its
/// copy or is still to be reached.
pub open spec fn progressing(
    before: Disk,
    disk: Disk,
    merge: MergeView,
    from: Seq<char>,
    to: Seq<char>,
) -> bool {
    &&& grown(before, disk, to)
    &&& forall|i: int|
        0 <= i < merge.stack.len() ==> frame_paired(disk, from, to, #[trigger] merge.stack[i])
    &&& merge.failure is None ==> forall|names: Seq<Seq<char>>|
        all_plain(names) && before.contains_key(#[trigger] under(from, names)) ==> copied(
            disk,
            from,
            to,
            tail(names),
        ) || covered(merge, from, to, names)
}

/// A path below one of two trees that lie apart is not below the other.
proof fn not_below_both(from: Seq<char>, to: Seq<char>, path: Seq<char>)
    requires
        apart(from, to),
        from.is_prefix_of(path),
    ensures
        !to.is_prefix_of(path),
{
    if to.is_prefix_of(path) {
        if from.len() <= to.len() {
            assert(from =~= to.subrange(0, from.len() as int));
        } else {
            assert(to =~= from.subrange(0, to.len() as int));
        }
    }
}

/// A path is its prefix followed by the rest.
proof fn split_at_prefix(prefix: Seq<char>, path: Seq<char>)
    requires
        prefix.is_prefix_of(path),
    ensures
        path == prefix + path.skip(prefix.len() as int),
{
    assert(path =~= prefix + path.skip(prefix.len() as int));
}

/// What follows the same prefix in equal paths is equal.
proof fn same_rest(prefix: Seq<char>, a: Seq<char>, b: Seq<char>)
    requires
        prefix + a == prefix + b,
    ensures
        a == b,
{
    assert(a =~= (prefix + a).skip(prefix.len() as int));
    assert(b =~= (prefix + b).skip(prefix.len() as int));
}

/// The place that has its copy at the frame's destination is the frame's
/// source.
proof fn paired_place(
    disk: Disk,
    from: Seq<char>,
    to: Seq<char>,
    frame: FrameView,
    rest: Seq<char>,
)
    requires
        frame_paired(disk, from, to, frame),
        to + rest == frame.to,
    ensures
        from + rest == frame.from,
{
    split_at_prefix(to, frame.to);
    split_at_prefix(from, frame.from);
    same_rest(to, rest, frame.to.skip(to.len() as int));
}

/// The work on a child of paired work is paired.
proof fn child_paired(
    disk: Disk,
    from: Seq<char>,
    to: Seq<char>,
    parent: FrameView,
    child: ChildView,
)
    requires
        frame_paired(disk, from, to, parent),
    ensures
        frame_paired(disk, from, to, child_frame(parent, child, false)),
{
    let frame = child_frame(parent, child, false);
    split_at_prefix(from, parent.from);
    split_at_prefix(to, parent.to);
    let mid = parent.from.skip(from.len() as int);
    let end = seq!['/'] + child.name;
    assert(frame.from =~= from + (mid + end));
    assert(frame.to =~= to + (mid + end));
    assert(frame.from.skip(from.len() as int) =~= mid + end);
    assert(frame.to.skip(to.len() as int) =~= mid + end);
    assert(from =~= frame.from.subrange(0, from.len() as int));
    assert(to =~= frame.to.subrange(0, to.len() as int));
}

/// One request of a copy with overwriting on keeps it progressing.
proof fn progress_step(
    before: Disk,
    disk: Disk,
    host: Host,
    merge: MergeView,
    from: Seq<char>,
    to: Seq<char>,
)
    requires
        progressing(before, disk, merge, from, to),
        !merge.finished(),
        merge.overwrite,
        apart(from, to),
        files_are_leaves(before, from),
        lists_all(before, host, from),
    ensures
        progressing(
            before,
            perform(disk, merge.request(), host).0,
            merge.react(perform(disk, merge.request(), host).1),
            from,
            to,
        ),
        merge.react(perform(disk, merge.request(), host).1).overwrite,
{
    let top = merge.stack.last();
    let rest = merge.stack.drop_last();
    let (after, reply) = perform(disk, merge.request(), host);
    let next = merge.react(reply);
    assert(frame_paired(disk, from, to, top));
    not_below_both(from, to, top.from);
    assert forall|p: Seq<char>| before.contains_key(p) implies #[trigger] after.contains_key(
        p,
    ) by {
        assert(disk.contains_key(p));
    }
    assert forall|p: Seq<char>| !to.is_prefix_of(p) && #[trigger] after.contains_key(
        p,
    ) implies before.contains_key(p) && after[p] == before[p] by {
        assert(p != top.to);
        assert(disk.contains_key(p));
    }
    assert forall|i: int| 0 <= i < next.stack.len() implies frame_paired(
        after,
        from,
        to,
        #[trigger] next.stack[i],
    ) by {
        if i < rest.len() {
            assert(next.stack[i] == merge.stack[i]);
            assert(frame_paired(disk, from, to, merge.stack[i]));
        } else if top.step is CopyDirList && reply is Listing {
            let listing = (host.listing)(top.from);
            let child = listing[listing.len() - 1 - (i - rest.len())];
            assert(next.stack[i] == child_frame(top, child, false));
            child_paired(disk, from, to, top, child);
        } else {
            assert(next.stack[i].from == top.from && next.stack[i].to == top.to);
        }
    }
    if next.failure is None {
        assert forall|names: Seq<Seq<char>>|
            all_plain(names) && before.contains_key(#[trigger] under(from, names)) implies copied(
            after,
            from,
            to,
            tail(names),
        ) || covered(next, from, to, names) by {
            let pf = from + tail(names);
            let pt = to + tail(names);
            assert(from =~= pf.subrange(0, from.len() as int));
            assert(to =~= pt.subrange(0, to.len() as int));
            not_below_both(from, to, pf);
            assert(pf != top.to);
            if copied(disk, from, to, tail(names)) {
                if pt == top.to {
                    paired_place(disk, from, to, top, tail(names));
                }
                assert(copied(after, from, to, tail(names)));
            } else {
                assert(covered(merge, from, to, names));
                let (i, b) = choose|i: int, b: Seq<Seq<char>>|
                    0 <= i < merge.stack.len() && #[trigger] covers(
                        merge.stack[i],
                        from,
                        to,
                        names,
                        b,
                    );
                if i < rest.len() {
                    assert(next.stack[i] == merge.stack[i]);
                    assert(covers(next.stack[i], from, to, names, b));
                } else {
                    assert(merge.stack[i] == top);
                    if b.len() == 0 {
                        assert(tail(b) =~= Seq::<char>::empty());
                        assert(pf =~= top.from);
                        assert(pt =~= top.to);
                    }
                    if top.step is CopyFileCopy {
                        assert(is_file(before, top.from));
                        if b.len() > 0 {
                            assert(!before.contains_key(under(top.from, b)));
                        }
                        assert(copied(after, from, to, tail(names)));
                    } else if top.step is CopyDirList {
                        assert(before.contains_key(top.from) && before[top.from] is Dir);
                        if b.len() > 0 {
                            let listing = (host.listing)(top.from);
                            assert(before.contains_key(under(top.from, b)));
                            let j = choose|j: int|
                                0 <= j < listing.len() && (#[trigger] listing[j]).name == b[0];
                            let k = rest.len() + (listing.len() - 1 - j);
                            assert(next.stack[k] == child_frame(top, listing[j], false));
                            under_child(top.from, b);
                            under_child(top.to, b);
                            assert(all_plain(b.drop_first())) by {
                                assert forall|i: int|
                                    0 <= i < b.drop_first().len() implies plain(
                                    #[trigger] b.drop_first()[i],
                                ) by {
                                    assert(b.drop_first()[i] == b[i + 1]);
                                }
                            }
                            assert(covers(next.stack[k], from, to, names, b.drop_first()));
                        } else {
                            assert(copied(after, from, to, tail(names)));
                        }
                    } else {
                        let k = rest.len() as int;
                        assert(next.stack[k].from == top.from && next.stack[k].to == top.to);
                        assert(covers(next.stack[k], from, to, names, b));
                    }
                }
            }
        }
    }
}

/// A copy with overwriting on keeps progressing however long it runs.
proof fn progress_run(
    before: Disk,
    disk: Disk,
    host: Host,
    merge: MergeView,
    from: Seq<char>,
    to: Seq<char>,
    fuel: nat,
)
    requires
        progressing(before, disk, merge, from, to),
        merge.overwrite,
        apart(from, to),
        files_are_leaves(before, from),
        lists_all(before, host, from),
    ensures
        progressing(
            before,
            run(merge, disk, host, fuel).1,
            run(merge, disk, host, fuel).0,
            from,
            to,
        ),
    decreases fuel,
{
    if fuel != 0 && !merge.finished() {
        progress_step(before, disk, host, merge, from, to);
        let (after, reply) = perform(disk, merge.request(), host);
        progress_run(before, after, host, merge.react(reply), from, to, (fuel - 1) as nat);
    }
}

/// Copying a tree with overwriting on, and then once more, leaves the disk
/// as the first copy left it, provided the first copy succeeded. The law is
/// stated of a source that exists, of a source and a destination neither of
/// which lies below the other, and of a disk on which nothing stands below a
/// file and a listing names the children that are there, all of them.
pub proof fn copy_twice_is_copy_once(
    disk: Disk,
    host: Host,
    entry: EntryView,
    to: Seq<char>,
    fuel: nat,
    again: nat,
)
    requires
        disk.contains_key(entry.path),
        apart(entry.path, to),
        files_are_leaves(disk, entry.path),
        lists_all(disk, host, entry.path),
        lists_what_is_there(disk, host),
        succeeded(run(MergeView::start(entry, to, true, false), disk, host, fuel).0),
    ensures
        ({
            let once = run(MergeView::start(entry, to, true, false), disk, host, fuel).1;
            run(MergeView::start(entry, to, true, false), once, host, again).1 == once
        }),
{
    let from = entry.path;
    let start = MergeView::start(entry, to, true, false);
    assert(from.skip(from.len() as int) =~= to.skip(to.len() as int));
    assert forall|names: Seq<Seq<char>>|
        all_plain(names) && disk.contains_key(#[trigger] under(from, names)) implies covered(
        start,
        from,
        to,
        names,
    ) by {
        assert(covers(start.stack[0], from, to, names, names));
    }
    progress_run(disk, disk, host, start, from, to, fuel);
    let (end, once) = run(start, disk, host, fuel);
    assert forall|names: Seq<Seq<char>>|
        all_plain(names) && once.contains_key(
            #[trigger] under(from, names),
        ) implies once.contains_key(
        under(to, names),
    ) && (once[under(from, names)] is File ==> once[under(to, names)] == once[under(
        from,
        names,
    )]) by {
        let pf = from + tail(names);
        assert(from =~= pf.subrange(0, from.len() as int));
        not_below_both(from, to, pf);
        assert(disk.contains_key(under(from, names)));
        assert(!covered(end, from, to, names));
        assert(copied(once, from, to, tail(names)));
    }
    assert(under(from, Seq::empty()) =~= from);
    assert(under(to, Seq::empty()) =~= to);
    assert(once.contains_key(to));
    copy_onto_mirror_changes_nothing(once, host, entry, to, true, again);
}

} // verus!
