use std::collections::BTreeMap;

use dirmerge::{
    is_answer, join, read_dir, Child, Entry, Merge, MergeError, Reply, Request, Type,
};

/// A disk in memory: a path holds a file's bytes, or `None` for a directory.
struct Disk {
    nodes: BTreeMap<String, Option<Vec<u8>>>,
    rename_works: bool,
    log: Vec<Request>,
}

fn failed(what: &str) -> Reply {
    Reply::Failed(what.to_string())
}

impl Disk {
    fn new(rename_works: bool) -> Disk {
        Disk { nodes: BTreeMap::new(), rename_works, log: Vec::new() }
    }

    fn dir(mut self, path: &str) -> Disk {
        self.nodes.insert(path.to_string(), None);
        self
    }

    fn file(mut self, path: &str, bytes: &[u8]) -> Disk {
        self.nodes.insert(path.to_string(), Some(bytes.to_vec()));
        self
    }

    fn has(&self, path: &str) -> bool {
        self.nodes.contains_key(path)
    }

    fn is_dir(&self, path: &str) -> bool {
        matches!(self.nodes.get(path), Some(None))
    }

    fn bytes(&self, path: &str) -> Option<Vec<u8>> {
        self.nodes.get(path).cloned().flatten()
    }

    fn below(&self, path: &str) -> Vec<String> {
        let prefix = format!("{}/", path);
        self.nodes.keys().filter(|k| k.starts_with(&prefix)).cloned().collect()
    }

    fn entry(&self, path: &str) -> Entry {
        Entry::new(path.to_string(), self.is_dir(path))
    }

    fn perform(&mut self, request: &Request) -> Reply {
        match request {
            Request::Exists(p) => Reply::Flag(self.has(p)),
            Request::IsFile(p) => match self.nodes.get(p) {
                Some(node) => Reply::Flag(node.is_some()),
                None => failed("not found"),
            },
            Request::Rename(a, b) => {
                if !self.rename_works || !self.has(a) {
                    return failed("rename refused");
                }
                if self.is_dir(a) {
                    if self.has(b) {
                        return failed("destination occupied");
                    }
                    for old in self.below(a) {
                        let node = self.nodes.remove(&old).unwrap();
                        self.nodes.insert(format!("{}{}", b, &old[a.len()..]), node);
                    }
                } else if self.is_dir(b) {
                    return failed("destination is a directory");
                }
                let node = self.nodes.remove(a).unwrap();
                self.nodes.insert(b.clone(), node);
                Reply::Done
            }
            Request::CopyFile(a, b) => match self.bytes(a) {
                Some(bytes) if !self.is_dir(b) => {
                    self.nodes.insert(b.clone(), Some(bytes));
                    Reply::Done
                }
                _ => failed("copy refused"),
            },
            Request::RemoveFile(p) => {
                if self.bytes(p).is_some() {
                    self.nodes.remove(p);
                    Reply::Done
                } else {
                    failed("not a file")
                }
            }
            Request::RemoveDirAll(p) => {
                if !self.is_dir(p) {
                    return failed("not a directory");
                }
                for old in self.below(p) {
                    self.nodes.remove(&old);
                }
                self.nodes.remove(p);
                Reply::Done
            }
            Request::RemoveDir(p) => {
                if self.is_dir(p) && self.below(p).is_empty() {
                    self.nodes.remove(p);
                    Reply::Done
                } else {
                    failed("directory not empty")
                }
            }
            Request::CreateDir(p) => {
                if self.has(p) {
                    failed("already there")
                } else {
                    self.nodes.insert(p.clone(), None);
                    Reply::Done
                }
            }
            Request::List(p) => {
                if !self.is_dir(p) {
                    return failed("not a directory");
                }
                let mut children = Vec::new();
                for path in self.below(p) {
                    let name = &path[p.len() + 1..];
                    if !name.contains('/') {
                        children.push(Child { name: name.to_string(), is_dir: self.is_dir(&path) });
                    }
                }
                Reply::Listing(children)
            }
            Request::Finished(_) => Reply::Done,
        }
    }

    fn drive(&mut self, mut merge: Merge) -> Result<(), MergeError> {
        for _ in 0..10_000 {
            let request = merge.request();
            if let Request::Finished(outcome) = request {
                assert!(merge.is_finished());
                return outcome;
            }
            assert!(!merge.is_finished());
            let reply = self.perform(&request);
            assert!(is_answer(&request, &reply));
            self.log.push(request);
            merge.reply(reply);
        }
        panic!("the merge did not finish");
    }

    fn mov(&mut self, from: &str, to: &str, overwrite: bool) -> Result<(), MergeError> {
        let merge = self.entry(from).mov(&to.to_string(), overwrite);
        self.drive(merge)
    }

    fn copy(&mut self, from: &str, to: &str, overwrite: bool) -> Result<(), MergeError> {
        let merge = self.entry(from).copy(&to.to_string(), overwrite);
        self.drive(merge)
    }
}

fn s(text: &str) -> String {
    text.to_string()
}

fn file_entry(path: &str) -> Entry {
    Entry::new(s(path), false)
}

fn dir_entry(path: &str) -> Entry {
    Entry::new(s(path), true)
}

#[test]
fn new_classifies_by_the_probe() {
    assert_eq!(Entry::new(s("a"), true), Entry { path: s("a"), _type: Type::Dir });
    assert_eq!(Entry::new(s("a"), false), Entry { path: s("a"), _type: Type::File });
    assert_eq!(Entry::new(s(""), false)._type, Type::File);
}

#[test]
fn join_puts_a_separator_between() {
    assert_eq!(join(&s("a/b"), &s("c.txt")), "a/b/c.txt");
    assert_eq!(join(&s("."), &s("x")), "./x");
    assert_eq!(join(&s(""), &s("")), "/");
}

#[test]
fn read_dir_keeps_order_and_classifies() {
    let listing = vec![
        Child { name: s("z"), is_dir: true },
        Child { name: s("a.txt"), is_dir: false },
    ];
    let entries = read_dir(&s("top"), &listing);
    assert_eq!(
        entries,
        vec![
            Entry { path: s("top/z"), _type: Type::Dir },
            Entry { path: s("top/a.txt"), _type: Type::File },
        ]
    );
    assert_eq!(read_dir(&s("top"), &Vec::new()), Vec::new());
}

#[test]
fn is_answer_matches_request_and_reply() {
    let exists = Request::Exists(s("p"));
    assert!(is_answer(&exists, &Reply::Flag(false)));
    assert!(!is_answer(&exists, &Reply::Done));
    assert!(!is_answer(&exists, &failed("x")));
    let is_file = Request::IsFile(s("p"));
    assert!(is_answer(&is_file, &Reply::Flag(true)));
    assert!(is_answer(&is_file, &failed("x")));
    assert!(!is_answer(&is_file, &Reply::Listing(Vec::new())));
    let list = Request::List(s("p"));
    assert!(is_answer(&list, &Reply::Listing(Vec::new())));
    assert!(is_answer(&list, &failed("x")));
    assert!(!is_answer(&list, &Reply::Done));
    let rename = Request::Rename(s("a"), s("b"));
    assert!(is_answer(&rename, &Reply::Done));
    assert!(is_answer(&rename, &failed("x")));
    assert!(!is_answer(&rename, &Reply::Flag(true)));
    assert!(is_answer(&Request::Finished(Ok(())), &Reply::Flag(true)));
}

#[test]
fn move_file_asks_exists_then_rename() {
    let mut merge = file_entry("a.txt").mov(&s("b.txt"), false);
    assert!(!merge.is_finished());
    assert_eq!(merge.request(), Request::Exists(s("b.txt")));
    assert_eq!(merge.request(), Request::Exists(s("b.txt")));
    merge.reply(Reply::Flag(false));
    assert_eq!(merge.request(), Request::Rename(s("a.txt"), s("b.txt")));
    merge.reply(Reply::Done);
    assert_eq!(merge.request(), Request::Finished(Ok(())));
    assert!(merge.is_finished());
}

#[test]
fn move_file_falls_back_to_copy_and_delete() {
    let mut merge = file_entry("a.txt").mov(&s("b.txt"), true);
    merge.reply(Reply::Flag(true));
    assert_eq!(merge.request(), Request::Rename(s("a.txt"), s("b.txt")));
    merge.reply(failed("cross-device link"));
    assert_eq!(merge.request(), Request::CopyFile(s("a.txt"), s("b.txt")));
    merge.reply(Reply::Done);
    assert_eq!(merge.request(), Request::RemoveFile(s("a.txt")));
    merge.reply(Reply::Done);
    assert_eq!(merge.request(), Request::Finished(Ok(())));
}

#[test]
fn failed_fallback_reports_the_cause() {
    let mut merge = file_entry("a.txt").mov(&s("b.txt"), true);
    merge.reply(Reply::Flag(false));
    merge.reply(failed("cross-device link"));
    merge.reply(failed("disk full"));
    assert_eq!(merge.request(), Request::Finished(Err(MergeError::Io(s("disk full")))));
    assert!(merge.is_finished());
    merge.reply(Reply::Done);
    assert_eq!(merge.request(), Request::Finished(Err(MergeError::Io(s("disk full")))));

    let mut merge = file_entry("a.txt").mov(&s("b.txt"), true);
    merge.reply(Reply::Flag(false));
    merge.reply(failed("cross-device link"));
    merge.reply(Reply::Done);
    merge.reply(failed("read-only"));
    assert_eq!(merge.request(), Request::Finished(Err(MergeError::Io(s("read-only")))));
}

#[test]
fn file_is_left_alone_without_overwrite() {
    let mut merge = file_entry("a.txt").mov(&s("b.txt"), false);
    merge.reply(Reply::Flag(true));
    assert_eq!(merge.request(), Request::Finished(Ok(())));
    let mut merge = file_entry("a.txt").copy(&s("b.txt"), false);
    assert_eq!(merge.request(), Request::Exists(s("b.txt")));
    merge.reply(Reply::Flag(true));
    assert_eq!(merge.request(), Request::Finished(Ok(())));
}

#[test]
fn copy_file_never_renames_or_deletes() {
    let mut merge = file_entry("a.txt").copy(&s("b.txt"), true);
    merge.reply(Reply::Flag(true));
    assert_eq!(merge.request(), Request::CopyFile(s("a.txt"), s("b.txt")));
    merge.reply(Reply::Done);
    assert_eq!(merge.request(), Request::Finished(Ok(())));
    let mut merge = file_entry("a.txt").copy(&s("b.txt"), false);
    merge.reply(Reply::Flag(false));
    assert_eq!(merge.request(), Request::CopyFile(s("a.txt"), s("b.txt")));
    merge.reply(failed("no space"));
    assert_eq!(merge.request(), Request::Finished(Err(MergeError::Io(s("no space")))));
}

#[test]
fn reply_that_does_not_answer_is_ignored() {
    let mut merge = file_entry("a.txt").mov(&s("b.txt"), false);
    merge.reply(Reply::Done);
    assert_eq!(merge.request(), Request::Exists(s("b.txt")));
    merge.reply(failed("x"));
    assert_eq!(merge.request(), Request::Exists(s("b.txt")));
    merge.reply(Reply::Listing(Vec::new()));
    assert_eq!(merge.request(), Request::Exists(s("b.txt")));
    merge.reply(Reply::Flag(false));
    assert_eq!(merge.request(), Request::Rename(s("a.txt"), s("b.txt")));
    merge.reply(Reply::Flag(true));
    assert_eq!(merge.request(), Request::Rename(s("a.txt"), s("b.txt")));
}

#[test]
fn move_dir_to_free_path_renames_the_tree() {
    let mut merge = dir_entry("A").mov(&s("C"), false);
    assert_eq!(merge.request(), Request::Exists(s("C")));
    merge.reply(Reply::Flag(false));
    assert_eq!(merge.request(), Request::Rename(s("A"), s("C")));
    merge.reply(Reply::Done);
    assert_eq!(merge.request(), Request::Finished(Ok(())));
}

#[test]
fn move_dir_falls_back_to_copy_then_purge() {
    let mut merge = dir_entry("A").mov(&s("C"), false);
    merge.reply(Reply::Flag(false));
    merge.reply(failed("cross-device link"));
    assert_eq!(merge.request(), Request::Exists(s("C")));
    merge.reply(Reply::Flag(false));
    assert_eq!(merge.request(), Request::CreateDir(s("C")));
    merge.reply(Reply::Done);
    assert_eq!(merge.request(), Request::List(s("A")));
    merge.reply(Reply::Listing(vec![Child { name: s("f"), is_dir: false }]));
    assert_eq!(merge.request(), Request::Exists(s("C/f")));
    merge.reply(Reply::Flag(false));
    assert_eq!(merge.request(), Request::CopyFile(s("A/f"), s("C/f")));
    merge.reply(Reply::Done);
    assert_eq!(merge.request(), Request::RemoveDirAll(s("A")));
    merge.reply(failed("busy"));
    assert_eq!(merge.request(), Request::Finished(Err(MergeError::Io(s("busy")))));
}

#[test]
fn merge_handles_children_in_listing_order_then_cleans_up() {
    let mut merge = dir_entry("A").mov(&s("C"), true);
    merge.reply(Reply::Flag(true));
    assert_eq!(merge.request(), Request::IsFile(s("C")));
    merge.reply(Reply::Flag(false));
    assert_eq!(merge.request(), Request::List(s("A")));
    merge.reply(Reply::Listing(vec![
        Child { name: s("one"), is_dir: false },
        Child { name: s("two"), is_dir: true },
        Child { name: s("three"), is_dir: false },
    ]));
    assert_eq!(merge.request(), Request::Exists(s("C/one")));
    merge.reply(Reply::Flag(false));
    assert_eq!(merge.request(), Request::Rename(s("A/one"), s("C/one")));
    merge.reply(Reply::Done);
    assert_eq!(merge.request(), Request::Exists(s("C/two")));
    merge.reply(Reply::Flag(false));
    assert_eq!(merge.request(), Request::Rename(s("A/two"), s("C/two")));
    merge.reply(Reply::Done);
    assert_eq!(merge.request(), Request::Exists(s("C/three")));
    merge.reply(Reply::Flag(true));
    assert_eq!(merge.request(), Request::Rename(s("A/three"), s("C/three")));
    merge.reply(Reply::Done);
    assert_eq!(merge.request(), Request::RemoveDir(s("A")));
    merge.reply(failed("not empty"));
    assert_eq!(merge.request(), Request::Finished(Ok(())));
}

#[test]
fn failure_in_a_child_stops_the_siblings() {
    let mut merge = dir_entry("A").copy(&s("C"), true);
    merge.reply(Reply::Flag(true));
    assert_eq!(merge.request(), Request::List(s("A")));
    merge.reply(Reply::Listing(vec![
        Child { name: s("one"), is_dir: false },
        Child { name: s("two"), is_dir: false },
    ]));
    assert_eq!(merge.request(), Request::Exists(s("C/one")));
    merge.reply(Reply::Flag(false));
    merge.reply(failed("denied"));
    assert_eq!(merge.request(), Request::Finished(Err(MergeError::Io(s("denied")))));
    assert!(merge.is_finished());
}

#[test]
fn failures_of_file_test_listing_and_create_end_the_merge() {
    let mut merge = dir_entry("A").mov(&s("C"), false);
    merge.reply(Reply::Flag(true));
    merge.reply(failed("stat"));
    assert_eq!(merge.request(), Request::Finished(Err(MergeError::Io(s("stat")))));

    let mut merge = dir_entry("A").mov(&s("C"), false);
    merge.reply(Reply::Flag(true));
    merge.reply(Reply::Flag(false));
    merge.reply(failed("list"));
    assert_eq!(merge.request(), Request::Finished(Err(MergeError::Io(s("list")))));

    let mut merge = dir_entry("A").copy(&s("C"), false);
    merge.reply(Reply::Flag(false));
    assert_eq!(merge.request(), Request::CreateDir(s("C")));
    merge.reply(failed("create"));
    assert_eq!(merge.request(), Request::Finished(Err(MergeError::Io(s("create")))));
}

#[test]
fn copy_dir_does_not_test_the_destination_kind() {
    let mut merge = dir_entry("A").copy(&s("C"), false);
    merge.reply(Reply::Flag(true));
    assert_eq!(merge.request(), Request::List(s("A")));
    merge.reply(Reply::Listing(Vec::new()));
    assert_eq!(merge.request(), Request::Finished(Ok(())));
}

#[test]
fn move_file_to_absent_destination() {
    let mut disk = Disk::new(true).file("f", b"bytes");
    assert_eq!(disk.mov("f", "dst", false), Ok(()));
    assert_eq!(disk.bytes("dst"), Some(b"bytes".to_vec()));
    assert!(!disk.has("f"));
}

#[test]
fn missing_source_counts_as_file() {
    let mut disk = Disk::new(true);
    assert_eq!(disk.entry("ghost")._type, Type::File);
    assert_eq!(disk.mov("ghost", "dst", false), Err(MergeError::Io(s("copy refused"))));
    assert!(!disk.has("dst"));
}

#[test]
fn existing_destination_without_overwrite_is_a_no_op() {
    let mut disk = Disk::new(true).file("f", b"new").file("dst", b"old");
    assert_eq!(disk.mov("f", "dst", false), Ok(()));
    assert_eq!(disk.bytes("dst"), Some(b"old".to_vec()));
    assert_eq!(disk.bytes("f"), Some(b"new".to_vec()));
    assert_eq!(disk.copy("f", "dst", false), Ok(()));
    assert_eq!(disk.bytes("dst"), Some(b"old".to_vec()));
    assert_eq!(disk.bytes("f"), Some(b"new".to_vec()));
    assert_eq!(disk.log, vec![Request::Exists(s("dst")), Request::Exists(s("dst"))]);
}

#[test]
fn existing_destination_with_overwrite_is_replaced() {
    let mut disk = Disk::new(true).file("f", b"new").file("dst", b"old");
    assert_eq!(disk.copy("f", "dst", true), Ok(()));
    assert_eq!(disk.bytes("dst"), Some(b"new".to_vec()));
    assert_eq!(disk.bytes("f"), Some(b"new".to_vec()));
    let mut disk = Disk::new(true).file("f", b"new").file("dst", b"old");
    assert_eq!(disk.mov("f", "dst", true), Ok(()));
    assert_eq!(disk.bytes("dst"), Some(b"new".to_vec()));
    assert!(!disk.has("f"));
}

#[test]
fn copying_a_tree_twice_is_copying_it_once() {
    let mut disk = Disk::new(true)
        .dir("A")
        .file("A/x.txt", b"x")
        .dir("A/B")
        .file("A/B/y.txt", b"y")
        .dir("C")
        .file("C/x.txt", b"stale");
    assert_eq!(disk.copy("A", "C", true), Ok(()));
    let once = disk.nodes.clone();
    assert_eq!(disk.bytes("C/x.txt"), Some(b"x".to_vec()));
    assert_eq!(disk.bytes("C/B/y.txt"), Some(b"y".to_vec()));
    assert_eq!(disk.bytes("A/x.txt"), Some(b"x".to_vec()));
    assert_eq!(disk.copy("A", "C", true), Ok(()));
    assert_eq!(disk.nodes, once);
}

#[test]
fn directory_merge_keeps_what_the_destination_had() {
    let mut disk = Disk::new(true)
        .dir("A")
        .file("A/x.txt", b"x")
        .dir("A/B")
        .file("A/B/y.txt", b"y")
        .dir("C")
        .dir("C/B")
        .file("C/B/z.txt", b"z");
    assert_eq!(disk.mov("A", "C", false), Ok(()));
    assert_eq!(disk.bytes("C/x.txt"), Some(b"x".to_vec()));
    assert_eq!(disk.bytes("C/B/y.txt"), Some(b"y".to_vec()));
    assert_eq!(disk.bytes("C/B/z.txt"), Some(b"z".to_vec()));
    assert!(!disk.has("A"));
    assert!(disk.below("A").is_empty());
}

#[test]
fn directory_onto_file_is_a_type_conflict() {
    for overwrite in [false, true] {
        let mut disk = Disk::new(true).dir("A").file("A/x.txt", b"x").file("C", b"plain");
        let before = disk.nodes.clone();
        assert_eq!(disk.mov("A", "C", overwrite), Err(MergeError::AlreadyExists));
        assert_eq!(disk.nodes, before);
        assert_eq!(disk.log, vec![Request::Exists(s("C")), Request::IsFile(s("C"))]);
    }
}

#[test]
fn refused_rename_reaches_the_same_end() {
    let build = |rename_works: bool| {
        Disk::new(rename_works)
            .file("f", b"bytes")
            .dir("A")
            .file("A/x.txt", b"x")
            .dir("A/B")
            .file("A/B/y.txt", b"y")
            .dir("C")
            .file("C/x.txt", b"old")
    };
    let mut renamed = build(true);
    let mut copied = build(false);
    for disk in [&mut renamed, &mut copied] {
        assert_eq!(disk.mov("f", "g", false), Ok(()));
        assert_eq!(disk.mov("A", "C", true), Ok(()));
        assert_eq!(disk.mov("C", "D", false), Ok(()));
    }
    assert_eq!(renamed.nodes, copied.nodes);
    assert_eq!(copied.bytes("g"), Some(b"bytes".to_vec()));
    assert_eq!(copied.bytes("D/x.txt"), Some(b"x".to_vec()));
    assert_eq!(copied.bytes("D/B/y.txt"), Some(b"y".to_vec()));
    assert!(!copied.has("f") && !copied.has("A") && !copied.has("C"));
    assert!(copied.log.contains(&Request::RemoveDirAll(s("C"))));
    assert!(!renamed.log.contains(&Request::RemoveDirAll(s("C"))));
}

#[test]
fn source_directory_is_removed_only_when_emptied() {
    let mut disk = Disk::new(true).dir("A").file("A/x.txt", b"x").dir("C");
    assert_eq!(disk.mov("A", "C", false), Ok(()));
    assert!(!disk.has("A"));

    let mut disk =
        Disk::new(true).dir("A").file("A/x.txt", b"x").file("A/w.txt", b"w").dir("C").file(
            "C/x.txt",
            b"kept",
        );
    assert_eq!(disk.mov("A", "C", false), Ok(()));
    assert!(disk.has("A"));
    assert_eq!(disk.bytes("A/x.txt"), Some(b"x".to_vec()));
    assert_eq!(disk.bytes("C/x.txt"), Some(b"kept".to_vec()));
    assert_eq!(disk.bytes("C/w.txt"), Some(b"w".to_vec()));
    assert!(!disk.has("A/w.txt"));
}

#[test]
fn copy_asks_for_nothing_that_renames_or_deletes() {
    let mut disk = Disk::new(true)
        .dir("A")
        .file("A/x.txt", b"x")
        .dir("A/B")
        .file("A/B/y.txt", b"y")
        .dir("C")
        .file("C/x.txt", b"old");
    assert_eq!(disk.copy("A", "C", true), Ok(()));
    assert!(!disk.log.is_empty());
    for request in &disk.log {
        assert!(matches!(
            request,
            Request::Exists(_) | Request::CopyFile(_, _) | Request::CreateDir(_) | Request::List(_)
        ));
    }
    assert_eq!(disk.bytes("A/x.txt"), Some(b"x".to_vec()));
    assert_eq!(disk.bytes("A/B/y.txt"), Some(b"y".to_vec()));
}

#[test]
fn requests_stay_below_source_and_destination() {
    let mut disk = Disk::new(false)
        .dir("src")
        .file("src/x.txt", b"x")
        .dir("src/B")
        .file("src/B/y.txt", b"y")
        .dir("dst")
        .dir("dst/B")
        .file("other", b"o");
    assert_eq!(disk.mov("src", "dst", true), Ok(()));
    let inside = |p: &String| p.starts_with("src") || p.starts_with("dst");
    for request in &disk.log {
        let ok = match request {
            Request::Rename(a, b) | Request::CopyFile(a, b) => inside(a) && inside(b),
            Request::Exists(p)
            | Request::IsFile(p)
            | Request::RemoveFile(p)
            | Request::RemoveDirAll(p)
            | Request::RemoveDir(p)
            | Request::CreateDir(p)
            | Request::List(p) => inside(p),
            Request::Finished(_) => true,
        };
        assert!(ok);
    }
    assert_eq!(disk.bytes("other"), Some(b"o".to_vec()));
    assert_eq!(disk.bytes("dst/B/y.txt"), Some(b"y".to_vec()));
    assert!(!disk.has("src"));
}

#[test]
fn copying_a_file_twice_is_copying_it_once() {
    let mut disk = Disk::new(true).file("f", b"new").file("dst", b"old");
    assert_eq!(disk.copy("f", "dst", true), Ok(()));
    let once = disk.nodes.clone();
    assert_eq!(disk.copy("f", "dst", true), Ok(()));
    assert_eq!(disk.nodes, once);
}
