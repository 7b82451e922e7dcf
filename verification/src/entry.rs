//! Entries: a path together with what was found at it.

use vstd::prelude::*;
use vstd::string::*;

verus! {

/// What stands at a path: a plain file or a directory.
#[derive(Debug, Clone, Copy, PartialEq, Eq, Structural)]
pub enum Type {
    File,
    Dir,
}

/// A path and the kind of object that was found there when it was probed.
#[derive(Debug, PartialEq, Eq)]
pub struct Entry {
    pub path: String,
    pub _type: Type,
}

/// An entry as a mathematical value.
pub struct EntryView {
    pub path: Seq<char>,
    pub kind: Type,
}

impl View for Entry {
    type V = EntryView;

    open spec fn view(&self) -> EntryView {
        EntryView { path: self.path@, kind: self._type }
    }
}

/// One line of a directory listing: the child's name and whether it is a
/// directory.
#[derive(Debug, PartialEq, Eq)]
pub struct Child {
    pub name: String,
    pub is_dir: bool,
}

/// A listed child as a mathematical value.
pub struct ChildView {
    pub name: Seq<char>,
    pub is_dir: bool,
}

impl View for Child {
    type V = ChildView;

    open spec fn view(&self) -> ChildView {
        ChildView { name: self.name@, is_dir: self.is_dir }
    }
}

/// The kind an entry gets from the answer to "is this a directory?".
/// Anything that is not a directory, a missing path included, counts as a
/// file.
pub open spec fn classify(is_dir: bool) -> Type {
    if is_dir {
        Type::Dir
    } else {
        Type::File
    }
}

/// The path of `name` inside the directory `base`.
pub open spec fn join_spec(base: Seq<char>, name: Seq<char>) -> Seq<char> {
    base + seq!['/'] + name
}

/// The entry that listing `dir` yields for `child`.
pub open spec fn child_entry(dir: Seq<char>, child: ChildView) -> EntryView {
    EntryView { path: join_spec(dir, child.name), kind: classify(child.is_dir) }
}

/// The mathematical value of a listing.
pub open spec fn listing_view(listing: Seq<Child>) -> Seq<ChildView> {
    listing.map_values(|c: Child| c@)
}

/// The mathematical value of a list of entries.
pub open spec fn entries_view(entries: Seq<Entry>) -> Seq<EntryView> {
    entries.map_values(|e: Entry| e@)
}

/// The entries of a whole listing, in the listing's order.
pub open spec fn listing_entries(dir: Seq<char>, listing: Seq<ChildView>) -> Seq<EntryView> {
    Seq::new(listing.len(), |i: int| child_entry(dir, listing[i]))
}

/// Builds the path of `name` inside `base`.
pub fn join(base: &String, name: &String) -> (r: String)
    ensures
        r@ == join_spec(base@, name@),
{
    proof {
        reveal_strlit("/");
        assert("/"@ =~= seq!['/']);
    }
    base.clone().concat("/").concat(name.as_str())
}

impl Entry {
    /// Classifies `path` from the answer to "is this a directory?".
    pub fn new(path: String, is_dir: bool) -> (r: Entry)
        ensures
            r@ == (EntryView { path: path@, kind: classify(is_dir) }),
    {
        let _type = if is_dir {
            Type::Dir
        } else {
            Type::File
        };
        Entry { path, _type }
    }
}

/// Turns the listing of `dir` into entries, one per child and in the same
/// order, each with its full path.
pub fn read_dir(dir: &String, listing: &Vec<Child>) -> (r: Vec<Entry>)
    ensures
        entries_view(r@) == listing_entries(dir@, listing_view(listing@)),
{
    let mut entries: Vec<Entry> = Vec::new();
    let mut i: usize = 0;
    while i < listing.len()
        invariant
            i <= listing.len(),
            entries.len() == i,
            forall|k: int| 0 <= k < i ==> (#[trigger] entries[k])@ == child_entry(dir@, listing[k]@),
        decreases listing.len() - i,
    {
        let child = &listing[i];
        entries.push(Entry::new(join(dir, &child.name), child.is_dir));
        i += 1;
    }
    proof {
        assert(entries_view(entries@) =~= listing_entries(dir@, listing_view(listing@)));
    }
    entries
}

} // verus!
