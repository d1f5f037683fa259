use vstd::prelude::*;
use crate::model::{Digest, Directory, DirectoryNode, DirectoryStore, DirectoryView, FileNode, RelativePath, TreeRecord, TreeView};

verus! {

/// The digest of the first child-directory entry named `name`.
pub open spec fn child_named(entries: Seq<DirectoryNode>, name: Seq<char>) -> Option<Digest>
    decreases entries.len(),
{
    if entries.len() == 0 {
        None
    } else if entries[0].name@ == name {
        Some(entries[0].digest)
    } else {
        child_named(entries.drop_first(), name)
    }
}

/// The first file entry named `name`.
pub open spec fn file_named(entries: Seq<FileNode>, name: Seq<char>) -> Option<FileNode>
    decreases entries.len(),
{
    if entries.len() == 0 {
        None
    } else if entries[0].name@ == name {
        Some(entries[0])
    } else {
        file_named(entries.drop_first(), name)
    }
}

/// The child directory that `name` leads to in `dir`. A name that the listing
/// also gives to a file is ambiguous and leads nowhere.
pub open spec fn subdirectory(dir: DirectoryView, name: Seq<char>) -> Option<Digest> {
    if file_named(dir.files, name) is Some {
        None
    } else {
        child_named(dir.directories, name)
    }
}

/// The file entry that `name` names in `dir`. A name that the listing also
/// gives to a child directory names a directory, not a file.
pub open spec fn file_in(dir: DirectoryView, name: Seq<char>) -> Option<FileNode> {
    if child_named(dir.directories, name) is Some {
        None
    } else {
        file_named(dir.files, name)
    }
}

/// The directory reached from the directory recorded under `d` by following
/// `path` one child-directory entry at a time.
pub open spec fn resolve(store: DirectoryStore, d: Digest, path: Seq<Seq<char>>) -> Option<
    DirectoryView,
>
    decreases path.len(),
{
    match store.directory(d) {
        None => None,
        Some(dir) => if path.len() == 0 {
            Some(dir)
        } else {
            match subdirectory(dir, path[0]) {
                None => None,
                Some(c) => resolve(store, c, path.drop_first()),
            }
        },
    }
}

/// The records of every directory below `nodes`, depth first: each entry's
/// record, then what lies below it, then the following entries. `fuel` bounds
/// the depth, so that a store whose records refer to each other in a cycle
/// yields nothing rather than an endless walk.
pub open spec fn descendants(store: DirectoryStore, nodes: Seq<DirectoryNode>, fuel: nat) -> Option<
    Seq<DirectoryView>,
>
    decreases fuel, nodes.len(),
{
    if nodes.len() == 0 {
        Some(Seq::empty())
    } else if fuel == 0 {
        None
    } else {
        match store.directory(nodes[0].digest) {
            None => None,
            Some(child) => match descendants(store, child.directories, (fuel - 1) as nat) {
                None => None,
                Some(below) => match descendants(store, nodes.drop_first(), fuel) {
                    None => None,
                    Some(rest) => Some(seq![child] + below + rest),
                },
            },
        }
    }
}

/// The tree record of the directory at `path` below the directory `d`: no
/// record where the path leads nowhere, or where a directory below it is
/// missing from the store or lies deeper than the store has records.
pub open spec fn tree_at(store: DirectoryStore, d: Digest, path: Seq<Seq<char>>) -> Option<TreeView> {
    match resolve(store, d, path) {
        None => None,
        Some(dir) => match descendants(store, dir.directories, store.directories@.len()) {
            None => None,
            Some(children) => Some(TreeView { root: dir, children }),
        },
    }
}

/// The file entry at `path` below the directory `d`: every component but the
/// last names a directory, and the last names a file of the directory reached.
pub open spec fn file_at(store: DirectoryStore, d: Digest, path: Seq<Seq<char>>) -> Option<FileNode> {
    if path.len() == 0 {
        None
    } else {
        match resolve(store, d, path.drop_last()) {
            None => None,
            Some(dir) => file_in(dir, path.last()),
        }
    }
}

fn find_child(entries: &Vec<DirectoryNode>, name: &String) -> (r: Option<Digest>)
    ensures
        r == child_named(entries@, name@),
{
    let mut i: usize = 0;
    assert(entries@.skip(0) =~= entries@);
    while i < entries.len()
        invariant
            i <= entries@.len(),
            child_named(entries@, name@) == child_named(entries@.skip(i as int), name@),
        decreases entries.len() - i,
    {
        assert(entries@.skip(i as int).drop_first() =~= entries@.skip(i + 1));
        if entries[i].name == *name {
            return Some(entries[i].digest);
        }
        i = i + 1;
    }
    None
}

fn find_file(entries: &Vec<FileNode>, name: &String) -> (r: Option<FileNode>)
    ensures
        r == file_named(entries@, name@),
{
    let mut i: usize = 0;
    assert(entries@.skip(0) =~= entries@);
    while i < entries.len()
        invariant
            i <= entries@.len(),
            file_named(entries@, name@) == file_named(entries@.skip(i as int), name@),
        decreases entries.len() - i,
    {
        assert(entries@.skip(i as int).drop_first() =~= entries@.skip(i + 1));
        if entries[i].name == *name {
            return Some(entries[i].duplicate());
        }
        i = i + 1;
    }
    None
}

fn next_directory(dir: &Directory, name: &String) -> (r: Option<Digest>)
    ensures
        r == subdirectory(dir@, name@),
{
    if find_file(&dir.files, name).is_some() {
        None
    } else {
        find_child(&dir.directories, name)
    }
}

fn file_entry(dir: &Directory, name: &String) -> (r: Option<FileNode>)
    ensures
        r == file_in(dir@, name@),
{
    if find_child(&dir.directories, name).is_some() {
        None
    } else {
        find_file(&dir.files, name)
    }
}

/// Follows the first `n` components of `path` from the directory `d`.
fn resolve_prefix<'a>(store: &'a DirectoryStore, d: Digest, path: &RelativePath, n: usize) -> (r:
    Option<&'a Directory>)
    requires
        n <= path.components@.len(),
    ensures
        match r {
            Some(dir) => resolve(*store, d, path@.take(n as int)) == Some(dir@),
            None => resolve(*store, d, path@.take(n as int)) is None,
        },
{
    let ghost full = path@.take(n as int);
    let mut cur = d;
    let mut i: usize = 0;
    assert(full.skip(0) =~= full);
    loop
        invariant
            i <= n,
            n <= path.components@.len(),
            full == path@.take(n as int),
            resolve(*store, d, full) == resolve(*store, cur, full.skip(i as int)),
        decreases n - i,
    {
        let dir = match store.load_directory(cur) {
            Some(dir) => dir,
            None => {
                return None;
            },
        };
        if i == n {
            assert(full.skip(i as int).len() == 0);
            return Some(dir);
        }
        assert(full.skip(i as int)[0] == path.components@[i as int]@);
        assert(full.skip(i as int).drop_first() =~= full.skip(i + 1));
        match next_directory(dir, &path.components[i]) {
            Some(c) => {
                cur = c;
            },
            None => {
                return None;
            },
        }
        i = i + 1;
    }
}

/// Collects the records below `nodes[i..]`, as `descendants` orders them.
fn collect_descendants(store: &DirectoryStore, nodes: &Vec<DirectoryNode>, i: usize, fuel: usize) -> (r:
    Option<Vec<Directory>>)
    requires
        i <= nodes@.len(),
    ensures
        match r {
            Some(v) => descendants(*store, nodes@.skip(i as int), fuel as nat) == Some(
                v@.map_values(|c: Directory| c@),
            ),
            None => descendants(*store, nodes@.skip(i as int), fuel as nat) is None,
        },
    decreases fuel, nodes@.len() - i,
{
    let ghost rest_nodes = nodes@.skip(i as int);
    if i == nodes.len() {
        let v: Vec<Directory> = Vec::new();
        assert(v@.map_values(|c: Directory| c@) =~= Seq::<DirectoryView>::empty());
        return Some(v);
    }
    if fuel == 0 {
        return None;
    }
    assert(rest_nodes[0] == nodes@[i as int]);
    assert(rest_nodes.drop_first() =~= nodes@.skip(i + 1));
    let child = match store.load_directory(nodes[i].digest) {
        Some(dir) => dir,
        None => {
            return None;
        },
    };
    assert(child.directories@.skip(0) =~= child.directories@);
    let mut below = match collect_descendants(store, &child.directories, 0, fuel - 1) {
        Some(v) => v,
        None => {
            return None;
        },
    };
    let mut rest = match collect_descendants(store, nodes, i + 1, fuel) {
        Some(v) => v,
        None => {
            return None;
        },
    };
    let ghost below_view = below@.map_values(|c: Directory| c@);
    let ghost rest_view = rest@.map_values(|c: Directory| c@);
    let mut out: Vec<Directory> = Vec::new();
    out.push(child.duplicate());
    out.append(&mut below);
    out.append(&mut rest);
    assert(out@.map_values(|c: Directory| c@) =~= seq![child@] + below_view + rest_view);
    Some(out)
}

/// Builds the tree record of the output directory at `path` below the
/// directory `root`; the root listing leaves out the path's own name.
pub fn make_tree_for_output_directory(root: Digest, path: &RelativePath, store: &DirectoryStore) -> (r:
    Option<TreeRecord>)
    ensures
        match r {
            Some(t) => tree_at(*store, root, path@) == Some(t@),
            None => tree_at(*store, root, path@) is None,
        },
{
    assert(path@.take(path.components@.len() as int) =~= path@);
    let dir = match resolve_prefix(store, root, path, path.components.len()) {
        Some(dir) => dir,
        None => {
            return None;
        },
    };
    assert(dir.directories@.skip(0) =~= dir.directories@);
    match collect_descendants(store, &dir.directories, 0, store.directories.len()) {
        Some(children) => Some(TreeRecord { root: dir.duplicate(), children }),
        None => None,
    }
}

/// Finds the file entry for the output file at `path` below the directory
/// `root`.
pub fn extract_output_file(root: Digest, path: &RelativePath, store: &DirectoryStore) -> (r: Option<
    FileNode,
>)
    ensures
        r == file_at(*store, root, path@),
{
    let n = path.components.len();
    if n == 0 {
        return None;
    }
    assert(path@.take(n - 1) =~= path@.drop_last());
    let dir = match resolve_prefix(store, root, path, n - 1) {
        Some(dir) => dir,
        None => {
            return None;
        },
    };
    file_entry(dir, &path.components[n - 1])
}

} // verus!
