use vstd::prelude::*;

verus! {

/// A SHA-256 hash, as its first and last sixteen bytes read big-endian.
#[derive(Clone, Copy, Debug, PartialEq, Eq, Hash, Structural)]
pub struct Fingerprint {
    pub high: u128,
    pub low: u128,
}

/// A content fingerprint: the hash of a blob and the blob's length.
#[derive(Clone, Copy, Debug, PartialEq, Eq, Hash, Structural)]
pub struct Digest {
    pub hash: Fingerprint,
    pub size_bytes: u64,
}

pub open spec fn spec_empty_digest() -> Digest {
    Digest {
        hash: Fingerprint {
            high: 0xe3b0c44298fc1c149afbf4c8996fb924,
            low: 0x27ae41e4649b934ca495991b7852b855,
        },
        size_bytes: 0,
    }
}

/// The digest of the empty blob (which is also the digest of an empty
/// directory record, whose encoding is empty).
#[verifier::when_used_as_spec(spec_empty_digest)]
pub fn empty_digest() -> (d: Digest)
    ensures
        d == spec_empty_digest(),
{
    Digest {
        hash: Fingerprint {
            high: 0xe3b0c44298fc1c149afbf4c8996fb924,
            low: 0x27ae41e4649b934ca495991b7852b855,
        },
        size_bytes: 0,
    }
}

/// A file entry of a directory record.
#[derive(Clone, Debug, PartialEq, Eq)]
pub struct FileNode {
    pub name: String,
    pub digest: Digest,
    pub is_executable: bool,
}

/// A child-directory entry of a directory record: the child's name and the
/// digest of its own record.
#[derive(Clone, Debug, PartialEq, Eq)]
pub struct DirectoryNode {
    pub name: String,
    pub digest: Digest,
}

/// An immutable directory record.
#[derive(Clone, Debug, PartialEq, Eq)]
pub struct Directory {
    pub files: Vec<FileNode>,
    pub directories: Vec<DirectoryNode>,
}

/// A directory subtree flattened for transport: the root listing, without
/// the root's own name, and the records of every directory below it.
#[derive(Clone, Debug, PartialEq, Eq)]
pub struct TreeRecord {
    pub root: Directory,
    pub children: Vec<Directory>,
}

/// What a directory record lists.
pub struct DirectoryView {
    pub files: Seq<FileNode>,
    pub directories: Seq<DirectoryNode>,
}

impl View for Directory {
    type V = DirectoryView;

    open spec fn view(&self) -> DirectoryView {
        DirectoryView { files: self.files@, directories: self.directories@ }
    }
}

/// What a tree record lists.
pub struct TreeView {
    pub root: DirectoryView,
    pub children: Seq<DirectoryView>,
}

impl View for TreeRecord {
    type V = TreeView;

    open spec fn view(&self) -> TreeView {
        TreeView { root: self.root@, children: self.children@.map_values(|c: Directory| c@) }
    }
}

/// A path relative to some root directory, as its components.
#[derive(Clone, Debug, PartialEq, Eq)]
pub struct RelativePath {
    pub components: Vec<String>,
}

impl RelativePath {
    pub open spec fn view(&self) -> Seq<Seq<char>> {
        self.components@.map_values(|c: String| c@)
    }

    pub fn new(components: Vec<String>) -> (p: RelativePath)
        ensures
            p.components@ == components@,
    {
        RelativePath { components }
    }

    pub fn duplicate(&self) -> (r: RelativePath)
        ensures
            r.components@ == self.components@,
    {
        RelativePath { components: copy_vec_string(&self.components) }
    }
}

fn copy_vec_string(v: &Vec<String>) -> (r: Vec<String>)
    ensures
        r@ == v@,
{
    let mut r: Vec<String> = Vec::new();
    let mut i: usize = 0;
    while i < v.len()
        invariant
            i <= v.len(),
            r@ == v@.subrange(0, i as int),
        decreases v.len() - i,
    {
        r.push(v[i].clone());
        i = i + 1;
    }
    assert(r@ =~= v@);
    r
}

impl FileNode {
    pub fn duplicate(&self) -> (r: FileNode)
        ensures
            r == *self,
    {
        FileNode { name: self.name.clone(), digest: self.digest, is_executable: self.is_executable }
    }
}

impl DirectoryNode {
    pub fn duplicate(&self) -> (r: DirectoryNode)
        ensures
            r == *self,
    {
        DirectoryNode { name: self.name.clone(), digest: self.digest }
    }
}

impl Directory {
    pub fn duplicate(&self) -> (r: Directory)
        ensures
            r@ == self@,
    {
        let mut files: Vec<FileNode> = Vec::new();
        let mut i: usize = 0;
        while i < self.files.len()
            invariant
                i <= self.files.len(),
                files@ == self.files@.subrange(0, i as int),
            decreases self.files.len() - i,
        {
            files.push(self.files[i].duplicate());
            i = i + 1;
        }
        let mut directories: Vec<DirectoryNode> = Vec::new();
        let mut j: usize = 0;
        while j < self.directories.len()
            invariant
                j <= self.directories.len(),
                directories@ == self.directories@.subrange(0, j as int),
            decreases self.directories.len() - j,
        {
            directories.push(self.directories[j].duplicate());
            j = j + 1;
        }
        assert(files@ =~= self.files@);
        assert(directories@ =~= self.directories@);
        Directory { files, directories }
    }
}

/// The first value recorded under `d` in a digest-keyed table.
pub open spec fn lookup<T>(table: Seq<(Digest, T)>, d: Digest) -> Option<T>
    decreases table.len(),
{
    if table.len() == 0 {
        None
    } else if table[0].0 == d {
        Some(table[0].1)
    } else {
        lookup(table.drop_first(), d)
    }
}

proof fn lemma_lookup_push<T>(table: Seq<(Digest, T)>, x: (Digest, T), d: Digest)
    ensures
        lookup(table.push(x), d) == (if lookup(table, d) is Some {
            lookup(table, d)
        } else if x.0 == d {
            Some(x.1)
        } else {
            None
        }),
    decreases table.len(),
{
    let t = table.push(x);
    if table.len() > 0 {
        assert(t[0] == table[0]);
        assert(t.drop_first() =~= table.drop_first().push(x));
        lemma_lookup_push(table.drop_first(), x, d);
        if table[0].0 != d {
            assert(lookup(t, d) == lookup(t.drop_first(), d));
            assert(lookup(table, d) == lookup(table.drop_first(), d));
        }
    } else {
        assert(t[0] == x);
        assert(t.drop_first().len() == 0);
        assert(lookup(t.drop_first(), d) is None);
        assert(lookup(table, d) is None);
    }
}

/// Position of the first entry recorded under `d`.
fn find_index<T>(table: &Vec<(Digest, T)>, d: Digest) -> (r: Option<usize>)
    ensures
        match r {
            Some(i) => i < table@.len() && table@[i as int].0 == d && lookup(table@, d) == Some(
                table@[i as int].1,
            ),
            None => lookup(table@, d) is None,
        },
{
    let mut i: usize = 0;
    assert(table@.skip(0) =~= table@);
    while i < table.len()
        invariant
            i <= table@.len(),
            lookup(table@, d) == lookup(table@.skip(i as int), d),
        decreases table.len() - i,
    {
        assert(table@.skip(i as int).drop_first() =~= table@.skip(i + 1));
        if table[i].0 == d {
            return Some(i);
        }
        i = i + 1;
    }
    None
}

/// The content-addressed store as seen by this library: directory records,
/// tree records and file blobs, each known by digest. A digest recorded twice
/// keeps its first record.
pub struct DirectoryStore {
    pub directories: Vec<(Digest, Directory)>,
    pub trees: Vec<(Digest, TreeRecord)>,
    pub blobs: Vec<Digest>,
}

impl DirectoryStore {
    pub open spec fn directory(&self, d: Digest) -> Option<DirectoryView> {
        match lookup(self.directories@, d) {
            Some(x) => Some(x@),
            None => None,
        }
    }

    pub open spec fn tree(&self, d: Digest) -> Option<TreeView> {
        match lookup(self.trees@, d) {
            Some(x) => Some(x@),
            None => None,
        }
    }

    pub open spec fn has_blob(&self, d: Digest) -> bool {
        self.blobs@.contains(d)
    }

    /// An empty store.
    pub fn new() -> (s: DirectoryStore)
        ensures
            forall|d: Digest| s.directory(d) is None && s.tree(d) is None && !s.has_blob(d),
    {
        DirectoryStore { directories: Vec::new(), trees: Vec::new(), blobs: Vec::new() }
    }

    /// Records a directory under its digest.
    pub fn record_directory(&mut self, d: Digest, dir: Directory)
        ensures
            forall|e: Digest|
                #[trigger] final(self).directory(e) == if e == d && old(self).directory(d) is None {
                    Some(dir@)
                } else {
                    old(self).directory(e)
                },
            final(self).trees@ == old(self).trees@,
            final(self).blobs@ == old(self).blobs@,
    {
        if find_index(&self.directories, d).is_none() {
            proof {
                assert forall|e: Digest|
                    lookup(self.directories@.push((d, dir)), e) == if e == d {
                        Some(dir)
                    } else {
                        lookup(self.directories@, e)
                    } by {
                    lemma_lookup_push(self.directories@, (d, dir), e);
                }
            }
            self.directories.push((d, dir));
        }
    }

    /// Records a tree record under its digest.
    pub fn record_tree(&mut self, d: Digest, tree: TreeRecord)
        ensures
            forall|e: Digest|
                #[trigger] final(self).tree(e) == if e == d && old(self).tree(d) is None {
                    Some(tree@)
                } else {
                    old(self).tree(e)
                },
            final(self).directories@ == old(self).directories@,
            final(self).blobs@ == old(self).blobs@,
    {
        if find_index(&self.trees, d).is_none() {
            proof {
                assert forall|e: Digest|
                    lookup(self.trees@.push((d, tree)), e) == if e == d {
                        Some(tree)
                    } else {
                        lookup(self.trees@, e)
                    } by {
                    lemma_lookup_push(self.trees@, (d, tree), e);
                }
            }
            self.trees.push((d, tree));
        }
    }

    /// Records that the blob with digest `d` is present.
    pub fn store_blob(&mut self, d: Digest)
        ensures
            forall|e: Digest| #[trigger] final(self).has_blob(e) == (old(self).has_blob(e) || e == d),
            final(self).directories@ == old(self).directories@,
            final(self).trees@ == old(self).trees@,
    {
        if !self.contains_blob(d) {
            self.blobs.push(d);
            assert forall|e: Digest| #[trigger] self.has_blob(e) == (old(self).has_blob(e) || e == d) by {
                if old(self).has_blob(e) {
                    let k = choose|k: int| 0 <= k < old(self).blobs@.len() && old(self).blobs@[k] == e;
                    assert(self.blobs@[k] == e);
                }
                if e == d {
                    assert(self.blobs@[self.blobs@.len() - 1] == e);
                }
            }
        }
    }

    pub fn contains_blob(&self, d: Digest) -> (r: bool)
        ensures
            r == self.has_blob(d),
    {
        let mut i: usize = 0;
        while i < self.blobs.len()
            invariant
                i <= self.blobs@.len(),
                forall|k: int| 0 <= k < i ==> self.blobs@[k] != d,
            decreases self.blobs.len() - i,
        {
            if self.blobs[i] == d {
                return true;
            }
            i = i + 1;
        }
        false
    }

    /// The directory recorded under `d`, if any.
    pub fn load_directory(&self, d: Digest) -> (r: Option<&Directory>)
        ensures
            match r {
                Some(dir) => self.directory(d) == Some(dir@),
                None => self.directory(d) is None,
            },
    {
        match find_index(&self.directories, d) {
            Some(i) => Some(&self.directories[i].1),
            None => None,
        }
    }

    /// The tree recorded under `d`, if any.
    pub fn load_tree(&self, d: Digest) -> (r: Option<&TreeRecord>)
        ensures
            match r {
                Some(t) => self.tree(d) == Some(t@),
                None => self.tree(d) is None,
            },
    {
        match find_index(&self.trees, d) {
            Some(i) => Some(&self.trees[i].1),
            None => None,
        }
    }
}

} // verus!
