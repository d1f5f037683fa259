use vstd::prelude::*;
use crate::model::{Digest, Directory, DirectoryStore, DirectoryView, RelativePath, TreeRecord, TreeView};
use crate::tree::{extract_output_file, file_at, make_tree_for_output_directory, tree_at};

verus! {

/// Where a process result came from.
#[derive(Clone, Copy, Debug, PartialEq, Eq, Structural)]
pub enum ResultSource {
    RanLocally,
    HitRemotely,
}

/// The outcome of running a process.
#[derive(Clone, Copy, Debug, PartialEq, Eq, Structural)]
pub struct ProcessResult {
    pub stdout_digest: Digest,
    pub stderr_digest: Digest,
    pub exit_code: i32,
    /// The digest of the directory record that holds every output.
    pub output_directory: Digest,
    pub source: ResultSource,
}

/// The outputs a command declares, relative to its working directory.
pub struct Command {
    pub output_files: Vec<RelativePath>,
    pub output_directories: Vec<RelativePath>,
}

/// An output file entry of an action result.
#[derive(Clone, Debug, PartialEq, Eq)]
pub struct OutputFile {
    pub path: RelativePath,
    pub digest: Digest,
    pub is_executable: bool,
}

pub struct OutputFileView {
    pub path: Seq<Seq<char>>,
    pub digest: Digest,
    pub is_executable: bool,
}

impl View for OutputFile {
    type V = OutputFileView;

    open spec fn view(&self) -> OutputFileView {
        OutputFileView { path: self.path@, digest: self.digest, is_executable: self.is_executable }
    }
}

/// An output directory entry of an action result: the digest of its tree
/// record.
#[derive(Clone, Debug, PartialEq, Eq)]
pub struct OutputDirectory {
    pub path: RelativePath,
    pub tree_digest: Digest,
}

pub struct OutputDirectoryView {
    pub path: Seq<Seq<char>>,
    pub tree_digest: Digest,
}

impl View for OutputDirectory {
    type V = OutputDirectoryView;

    open spec fn view(&self) -> OutputDirectoryView {
        OutputDirectoryView { path: self.path@, tree_digest: self.tree_digest }
    }
}

/// The cached outcome of an action.
#[derive(Clone, Debug, PartialEq, Eq)]
pub struct ActionResultRecord {
    pub exit_code: i32,
    pub stdout_digest: Digest,
    pub stderr_digest: Digest,
    pub output_files: Vec<OutputFile>,
    pub output_directories: Vec<OutputDirectory>,
}

pub struct ActionResultView {
    pub exit_code: i32,
    pub stdout_digest: Digest,
    pub stderr_digest: Digest,
    pub output_files: Seq<OutputFileView>,
    pub output_directories: Seq<OutputDirectoryView>,
}

impl View for ActionResultRecord {
    type V = ActionResultView;

    open spec fn view(&self) -> ActionResultView {
        ActionResultView {
            exit_code: self.exit_code,
            stdout_digest: self.stdout_digest,
            stderr_digest: self.stderr_digest,
            output_files: self.output_files@.map_values(|f: OutputFile| f@),
            output_directories: self.output_directories@.map_values(|o: OutputDirectory| o@),
        }
    }
}

impl ActionResultRecord {
    pub fn duplicate(&self) -> (r: ActionResultRecord)
        ensures
            r@ == self@,
    {
        let mut output_files: Vec<OutputFile> = Vec::new();
        let mut i: usize = 0;
        while i < self.output_files.len()
            invariant
                i <= self.output_files@.len(),
                output_files@.map_values(|f: OutputFile| f@) == self.output_files@.take(
                    i as int,
                ).map_values(|f: OutputFile| f@),
            decreases self.output_files.len() - i,
        {
            let f = &self.output_files[i];
            let ghost before = output_files@;
            output_files.push(
                OutputFile { path: copy_path(&f.path), digest: f.digest, is_executable: f.is_executable },
            );
            assert(self.output_files@.take(i + 1) =~= self.output_files@.take(i as int).push(*f));
            assert(output_files@.last()@ == f@);
            assert(output_files@.map_values(|f: OutputFile| f@) =~= before.map_values(|f: OutputFile| f@).push(f@));
            assert(output_files@.map_values(|f: OutputFile| f@) =~= self.output_files@.take(
                i + 1,
            ).map_values(|f: OutputFile| f@));
            i = i + 1;
        }
        let mut output_directories: Vec<OutputDirectory> = Vec::new();
        let mut j: usize = 0;
        while j < self.output_directories.len()
            invariant
                j <= self.output_directories@.len(),
                output_directories@.map_values(|o: OutputDirectory| o@)
                    == self.output_directories@.take(j as int).map_values(|o: OutputDirectory| o@),
            decreases self.output_directories.len() - j,
        {
            let o = &self.output_directories[j];
            let ghost before = output_directories@;
            output_directories.push(OutputDirectory { path: copy_path(&o.path), tree_digest: o.tree_digest });
            assert(output_directories@.last()@ == o@);
            assert(output_directories@.map_values(|o: OutputDirectory| o@) =~= before.map_values(|o: OutputDirectory| o@).push(o@));
            assert(self.output_directories@.take(j + 1) =~= self.output_directories@.take(j as int).push(
                *o,
            ));
            assert(output_directories@.map_values(|o: OutputDirectory| o@)
                =~= self.output_directories@.take(j + 1).map_values(|o: OutputDirectory| o@));
            j = j + 1;
        }
        assert(self.output_files@.take(i as int) =~= self.output_files@);
        assert(self.output_directories@.take(j as int) =~= self.output_directories@);
        ActionResultRecord {
            exit_code: self.exit_code,
            stdout_digest: self.stdout_digest,
            stderr_digest: self.stderr_digest,
            output_files,
            output_directories,
        }
    }
}

/// The process result served for a cache hit: the record's exit code and
/// standard streams, and the directory into which the store materialised its
/// outputs.
pub fn process_result_from_record(record: &ActionResultRecord, output_directory: Digest) -> (r: ProcessResult)
    ensures
        r == (ProcessResult {
            stdout_digest: record.stdout_digest,
            stderr_digest: record.stderr_digest,
            exit_code: record.exit_code,
            output_directory,
            source: ResultSource::HitRemotely,
        }),
{
    ProcessResult {
        stdout_digest: record.stdout_digest,
        stderr_digest: record.stderr_digest,
        exit_code: record.exit_code,
        output_directory,
        source: ResultSource::HitRemotely,
    }
}

/// The tree record built for one declared output directory.
pub struct OutputTree {
    pub path: RelativePath,
    pub tree: TreeRecord,
}

/// The outputs of a run found in the store: an entry for each declared output
/// file that exists, and a tree record for each declared output directory that
/// exists.
pub struct CollectedOutputs {
    pub files: Vec<OutputFile>,
    pub trees: Vec<OutputTree>,
}

pub open spec fn paths_view(paths: Seq<RelativePath>) -> Seq<Seq<Seq<char>>> {
    paths.map_values(|p: RelativePath| p@)
}

/// The entries for the declared output files that exist, in declared order.
pub open spec fn found_files(store: DirectoryStore, root: Digest, paths: Seq<Seq<Seq<char>>>) -> Seq<
    OutputFileView,
>
    decreases paths.len(),
{
    if paths.len() == 0 {
        Seq::empty()
    } else {
        let before = found_files(store, root, paths.drop_last());
        match file_at(store, root, paths.last()) {
            Some(f) => before.push(
                OutputFileView { path: paths.last(), digest: f.digest, is_executable: f.is_executable },
            ),
            None => before,
        }
    }
}

/// The tree records for the declared output directories that exist, in
/// declared order.
pub open spec fn found_trees(store: DirectoryStore, root: Digest, paths: Seq<Seq<Seq<char>>>) -> Seq<
    (Seq<Seq<char>>, TreeView),
>
    decreases paths.len(),
{
    if paths.len() == 0 {
        Seq::empty()
    } else {
        let before = found_trees(store, root, paths.drop_last());
        match tree_at(store, root, paths.last()) {
            Some(t) => before.push((paths.last(), t)),
            None => before,
        }
    }
}

/// A directory listing names `d` as one of its files or child directories.
pub open spec fn listing_refers(dir: DirectoryView, d: Digest) -> bool {
    (exists|i: int| 0 <= i < dir.files.len() && dir.files[i].digest == d) || (exists|j: int|
        0 <= j < dir.directories.len() && dir.directories[j].digest == d)
}

/// A tree record names `d` in its root listing or in one of its children.
pub open spec fn tree_refers(t: TreeView, d: Digest) -> bool {
    listing_refers(t.root, d) || exists|k: int| 0 <= k < t.children.len() && listing_refers(t.children[k], d)
}

/// The digests that must exist remotely before a record built from these
/// parts can be trusted: stdout, stderr, each output file, each tree record
/// and everything each tree names.
pub open spec fn required_digest(
    result: ProcessResult,
    files: Seq<OutputFileView>,
    trees: Seq<TreeView>,
    tree_digests: Seq<Digest>,
    d: Digest,
) -> bool {
    d == result.stdout_digest || d == result.stderr_digest || (exists|i: int|
        0 <= i < files.len() && files[i].digest == d) || tree_digests.contains(d) || (exists|k: int|
        0 <= k < trees.len() && tree_refers(trees[k], d))
}

fn copy_path(p: &RelativePath) -> (r: RelativePath)
    ensures
        r@ == p@,
{
    p.duplicate()
}

/// Finds in the store the outputs that `command` declares, below the output
/// directory of `result`.
pub fn collect_outputs(command: &Command, result: &ProcessResult, store: &DirectoryStore) -> (r:
    CollectedOutputs)
    ensures
        r.files@.map_values(|f: OutputFile| f@) == found_files(
            *store,
            result.output_directory,
            paths_view(command.output_files@),
        ),
        r.trees@.map_values(|t: OutputTree| (t.path@, t.tree@)) == found_trees(
            *store,
            result.output_directory,
            paths_view(command.output_directories@),
        ),
{
    let root = result.output_directory;
    let ghost fpaths = paths_view(command.output_files@);
    let mut files: Vec<OutputFile> = Vec::new();
    let mut i: usize = 0;
    while i < command.output_files.len()
        invariant
            i <= command.output_files@.len(),
            fpaths == paths_view(command.output_files@),
            files@.map_values(|f: OutputFile| f@) == found_files(*store, root, fpaths.take(i as int)),
        decreases command.output_files.len() - i,
    {
        let path = &command.output_files[i];
        assert(fpaths.take(i + 1).drop_last() =~= fpaths.take(i as int));
        assert(fpaths.take(i + 1).last() == path@);
        let ghost before = files@;
        match extract_output_file(root, path, store) {
            Some(f) => {
                files.push(
                    OutputFile { path: copy_path(path), digest: f.digest, is_executable: f.is_executable },
                );
                assert(files@.map_values(|f: OutputFile| f@) =~= before.map_values(
                    |f: OutputFile| f@,
                ).push(files@.last()@));
            },
            None => {},
        }
        i = i + 1;
    }
    assert(fpaths.take(i as int) =~= fpaths);
    let ghost dpaths = paths_view(command.output_directories@);
    let mut trees: Vec<OutputTree> = Vec::new();
    let mut j: usize = 0;
    while j < command.output_directories.len()
        invariant
            j <= command.output_directories@.len(),
            dpaths == paths_view(command.output_directories@),
            trees@.map_values(|t: OutputTree| (t.path@, t.tree@)) == found_trees(
                *store,
                root,
                dpaths.take(j as int),
            ),
        decreases command.output_directories.len() - j,
    {
        let path = &command.output_directories[j];
        assert(dpaths.take(j + 1).drop_last() =~= dpaths.take(j as int));
        assert(dpaths.take(j + 1).last() == path@);
        let ghost before = trees@;
        match make_tree_for_output_directory(root, path, store) {
            Some(t) => {
                trees.push(OutputTree { path: copy_path(path), tree: t });
                assert(trees@.map_values(|t: OutputTree| (t.path@, t.tree@)) =~= before.map_values(
                    |t: OutputTree| (t.path@, t.tree@),
                ).push((trees@.last().path@, trees@.last().tree@)));
            },
            None => {},
        }
        j = j + 1;
    }
    assert(dpaths.take(j as int) =~= dpaths);
    CollectedOutputs { files, trees }
}

/// Adds `d` to `out` unless it is there already.
fn push_unique(out: &mut Vec<Digest>, d: Digest)
    requires
        old(out)@.no_duplicates(),
    ensures
        final(out)@.no_duplicates(),
        forall|e: Digest| #[trigger] final(out)@.contains(e) == (old(out)@.contains(e) || e == d),
{
    let mut i: usize = 0;
    while i < out.len()
        invariant
            i <= out@.len(),
            out@ == old(out)@,
            out@.no_duplicates(),
            forall|k: int| 0 <= k < i ==> out@[k] != d,
        decreases out.len() - i,
    {
        if out[i] == d {
            return;
        }
        i = i + 1;
    }
    let ghost before = out@;
    out.push(d);
    assert forall|e: Digest| #[trigger] out@.contains(e) == (before.contains(e) || e == d) by {
        if before.contains(e) {
            let k = choose|k: int| 0 <= k < before.len() && before[k] == e;
            assert(out@[k] == e);
        }
        if e == d {
            assert(out@[before.len() as int] == e);
        }
    }
}

/// Adds every digest that `dir` names.
fn add_listing(out: &mut Vec<Digest>, dir: &Directory)
    requires
        old(out)@.no_duplicates(),
    ensures
        final(out)@.no_duplicates(),
        forall|e: Digest| #[trigger]
            final(out)@.contains(e) == (old(out)@.contains(e) || listing_refers(dir@, e)),
{
    let ghost start = out@;
    let mut i: usize = 0;
    while i < dir.files.len()
        invariant
            i <= dir.files@.len(),
            out@.no_duplicates(),
            forall|e: Digest| #[trigger]
                out@.contains(e) == (start.contains(e) || exists|k: int|
                    0 <= k < i && dir.files@[k].digest == e),
        decreases dir.files.len() - i,
    {
        push_unique(out, dir.files[i].digest);
        assert forall|e: Digest| #[trigger]
            out@.contains(e) == (start.contains(e) || exists|k: int|
                0 <= k < i + 1 && dir.files@[k].digest == e) by {
            if exists|k: int| 0 <= k < i + 1 && dir.files@[k].digest == e {
                let k = choose|k: int| 0 <= k < i + 1 && dir.files@[k].digest == e;
                if k < i {
                    assert(exists|k2: int| 0 <= k2 < i && dir.files@[k2].digest == e);
                }
            }
        }
        i = i + 1;
    }
    let mut j: usize = 0;
    while j < dir.directories.len()
        invariant
            i == dir.files@.len(),
            j <= dir.directories@.len(),
            out@.no_duplicates(),
            forall|e: Digest| #[trigger]
                out@.contains(e) == (start.contains(e) || (exists|k: int|
                    0 <= k < i && dir.files@[k].digest == e) || exists|k: int|
                    0 <= k < j && dir.directories@[k].digest == e),
        decreases dir.directories.len() - j,
    {
        push_unique(out, dir.directories[j].digest);
        assert forall|e: Digest| #[trigger]
            out@.contains(e) == (start.contains(e) || (exists|k: int|
                0 <= k < i && dir.files@[k].digest == e) || exists|k: int|
                0 <= k < j + 1 && dir.directories@[k].digest == e) by {
            if exists|k: int| 0 <= k < j + 1 && dir.directories@[k].digest == e {
                let k = choose|k: int| 0 <= k < j + 1 && dir.directories@[k].digest == e;
                if k < j {
                    assert(exists|k2: int| 0 <= k2 < j && dir.directories@[k2].digest == e);
                }
            }
        }
        j = j + 1;
    }
    assert forall|e: Digest| #[trigger]
        out@.contains(e) == (start.contains(e) || listing_refers(dir@, e)) by {
        if exists|k: int| 0 <= k < dir@.files.len() && dir@.files[k].digest == e {
            let k = choose|k: int| 0 <= k < dir@.files.len() && dir@.files[k].digest == e;
            assert(exists|k2: int| 0 <= k2 < i && dir.files@[k2].digest == e);
        }
        if exists|k: int| 0 <= k < dir@.directories.len() && dir@.directories[k].digest == e {
            let k = choose|k: int| 0 <= k < dir@.directories.len() && dir@.directories[k].digest == e;
            assert(exists|k2: int| 0 <= k2 < j && dir.directories@[k2].digest == e);
        }
        if exists|k: int| 0 <= k < i && dir.files@[k].digest == e {
            let k = choose|k: int| 0 <= k < i && dir.files@[k].digest == e;
            assert(dir@.files[k].digest == e);
        }
        if exists|k: int| 0 <= k < j && dir.directories@[k].digest == e {
            let k = choose|k: int| 0 <= k < j && dir.directories@[k].digest == e;
            assert(dir@.directories[k].digest == e);
        }
    }
}

/// Adds every digest that the tree record `t` names.
fn add_tree(out: &mut Vec<Digest>, t: &TreeRecord)
    requires
        old(out)@.no_duplicates(),
    ensures
        final(out)@.no_duplicates(),
        forall|e: Digest| #[trigger] final(out)@.contains(e) == (old(out)@.contains(e) || tree_refers(t@, e)),
{
    let ghost start = out@;
    add_listing(out, &t.root);
    let mut k: usize = 0;
    while k < t.children.len()
        invariant
            k <= t.children@.len(),
            out@.no_duplicates(),
            forall|e: Digest| #[trigger]
                out@.contains(e) == (start.contains(e) || listing_refers(t.root@, e) || exists|m: int|
                    0 <= m < k && listing_refers(t.children@[m]@, e)),
        decreases t.children.len() - k,
    {
        add_listing(out, &t.children[k]);
        assert forall|e: Digest| #[trigger]
            out@.contains(e) == (start.contains(e) || listing_refers(t.root@, e) || exists|m: int|
                0 <= m < k + 1 && listing_refers(t.children@[m]@, e)) by {
            if exists|m: int| 0 <= m < k + 1 && listing_refers(t.children@[m]@, e) {
                let m = choose|m: int| 0 <= m < k + 1 && listing_refers(t.children@[m]@, e);
                if m < k {
                    assert(exists|m2: int| 0 <= m2 < k && listing_refers(t.children@[m2]@, e));
                }
            }
        }
        k = k + 1;
    }
    assert forall|e: Digest| #[trigger] out@.contains(e) == (start.contains(e) || tree_refers(t@, e)) by {
        if exists|m: int| 0 <= m < t@.children.len() && listing_refers(t@.children[m], e) {
            let m = choose|m: int| 0 <= m < t@.children.len() && listing_refers(t@.children[m], e);
            assert(listing_refers(t.children@[m]@, e));
        }
        if exists|m: int| 0 <= m < k && listing_refers(t.children@[m]@, e) {
            let m = choose|m: int| 0 <= m < k && listing_refers(t.children@[m]@, e);
            assert(listing_refers(t@.children[m], e));
        }
    }
}

/// Assembles the action-result record of a run from the outputs found for it
/// and the digests under which their tree records were stored (one for each
/// tree, in order), together with every digest that must exist remotely
/// before the record can be trusted, each once.
pub fn make_action_result(result: &ProcessResult, outputs: &CollectedOutputs, tree_digests: &Vec<Digest>) -> (r: (
    ActionResultRecord,
    Vec<Digest>,
))
    requires
        tree_digests@.len() == outputs.trees@.len(),
    ensures
        r.0.exit_code == result.exit_code,
        r.0.stdout_digest == result.stdout_digest,
        r.0.stderr_digest == result.stderr_digest,
        r.0.output_files@.map_values(|f: OutputFile| f@) == outputs.files@.map_values(
            |f: OutputFile| f@,
        ),
        r.0.output_directories@.len() == outputs.trees@.len(),
        forall|k: int|
            0 <= k < outputs.trees@.len() ==> (#[trigger] r.0.output_directories@[k])@ == (
            OutputDirectoryView { path: outputs.trees@[k].path@, tree_digest: tree_digests@[k] }),
        r.1@.no_duplicates(),
        forall|d: Digest| #[trigger]
            r.1@.contains(d) == required_digest(
                *result,
                outputs.files@.map_values(|f: OutputFile| f@),
                outputs.trees@.map_values(|t: OutputTree| t.tree@),
                tree_digests@,
                d,
            ),
{
    let ghost fviews = outputs.files@.map_values(|f: OutputFile| f@);
    let ghost tviews = outputs.trees@.map_values(|t: OutputTree| t.tree@);
    let mut digests: Vec<Digest> = Vec::new();
    push_unique(&mut digests, result.stdout_digest);
    push_unique(&mut digests, result.stderr_digest);
    let mut output_files: Vec<OutputFile> = Vec::new();
    let mut i: usize = 0;
    while i < outputs.files.len()
        invariant
            i <= outputs.files@.len(),
            fviews == outputs.files@.map_values(|f: OutputFile| f@),
            output_files@.map_values(|f: OutputFile| f@) == fviews.take(i as int),
            digests@.no_duplicates(),
            forall|e: Digest| #[trigger]
                digests@.contains(e) == (e == result.stdout_digest || e == result.stderr_digest
                    || exists|k: int| 0 <= k < i && fviews[k].digest == e),
        decreases outputs.files.len() - i,
    {
        let f = &outputs.files[i];
        push_unique(&mut digests, f.digest);
        let ghost before = output_files@;
        output_files.push(OutputFile { path: copy_path(&f.path), digest: f.digest, is_executable: f.is_executable });
        assert(output_files@.last()@ == fviews[i as int]);
        assert(before.map_values(|f: OutputFile| f@) == fviews.take(i as int));
        assert(output_files@.map_values(|f: OutputFile| f@) =~= before.map_values(|f: OutputFile| f@).push(fviews[i as int]));
        assert(output_files@.map_values(|f: OutputFile| f@) =~= fviews.take(i + 1));
        assert forall|e: Digest| #[trigger]
            digests@.contains(e) == (e == result.stdout_digest || e == result.stderr_digest
                || exists|k: int| 0 <= k < i + 1 && fviews[k].digest == e) by {
            assert(fviews[i as int].digest == f.digest);
            if exists|k: int| 0 <= k < i + 1 && fviews[k].digest == e {
                let k = choose|k: int| 0 <= k < i + 1 && fviews[k].digest == e;
                if k < i {
                    assert(exists|k2: int| 0 <= k2 < i && fviews[k2].digest == e);
                }
            }
        }
        i = i + 1;
    }
    assert(fviews.take(i as int) =~= fviews);
    let mut output_directories: Vec<OutputDirectory> = Vec::new();
    let mut j: usize = 0;
    while j < outputs.trees.len()
        invariant
            j <= outputs.trees@.len(),
            tree_digests@.len() == outputs.trees@.len(),
            i == outputs.files@.len(),
            fviews == outputs.files@.map_values(|f: OutputFile| f@),
            tviews == outputs.trees@.map_values(|t: OutputTree| t.tree@),
            output_directories@.len() == j,
            forall|k: int|
                0 <= k < j ==> (#[trigger] output_directories@[k])@ == (OutputDirectoryView {
                    path: outputs.trees@[k].path@,
                    tree_digest: tree_digests@[k],
                }),
            digests@.no_duplicates(),
            forall|e: Digest| #[trigger]
                digests@.contains(e) == (e == result.stdout_digest || e == result.stderr_digest
                    || (exists|k: int| 0 <= k < i && fviews[k].digest == e) || (exists|k: int|
                    0 <= k < j && tree_digests@[k] == e) || (exists|k: int|
                    0 <= k < j && tree_refers(tviews[k], e))),
        decreases outputs.trees.len() - j,
    {
        let t = &outputs.trees[j];
        push_unique(&mut digests, tree_digests[j]);
        add_tree(&mut digests, &t.tree);
        output_directories.push(OutputDirectory { path: copy_path(&t.path), tree_digest: tree_digests[j] });
        assert forall|e: Digest| #[trigger]
            digests@.contains(e) == (e == result.stdout_digest || e == result.stderr_digest
                || (exists|k: int| 0 <= k < i && fviews[k].digest == e) || (exists|k: int|
                0 <= k < j + 1 && tree_digests@[k] == e) || (exists|k: int|
                0 <= k < j + 1 && tree_refers(tviews[k], e))) by {
            assert(tviews[j as int] == t.tree@);
            if exists|k: int| 0 <= k < j + 1 && tree_digests@[k] == e {
                let k = choose|k: int| 0 <= k < j + 1 && tree_digests@[k] == e;
                if k < j {
                    assert(exists|k2: int| 0 <= k2 < j && tree_digests@[k2] == e);
                }
            }
            if exists|k: int| 0 <= k < j + 1 && tree_refers(tviews[k], e) {
                let k = choose|k: int| 0 <= k < j + 1 && tree_refers(tviews[k], e);
                if k < j {
                    assert(exists|k2: int| 0 <= k2 < j && tree_refers(tviews[k2], e));
                }
            }
        }
        j = j + 1;
    }
    assert forall|e: Digest| #[trigger] digests@.contains(e) == required_digest(*result, fviews, tviews, tree_digests@, e) by {
        if tree_digests@.contains(e) {
            let k = choose|k: int| 0 <= k < tree_digests@.len() && tree_digests@[k] == e;
            assert(exists|k2: int| 0 <= k2 < j && tree_digests@[k2] == e);
        }
        if exists|k: int| 0 <= k < j && tree_digests@[k] == e {
            let k = choose|k: int| 0 <= k < j && tree_digests@[k] == e;
            assert(tree_digests@.contains(e));
        }
    }
    let record = ActionResultRecord {
        exit_code: result.exit_code,
        stdout_digest: result.stdout_digest,
        stderr_digest: result.stderr_digest,
        output_files,
        output_directories,
    };
    (record, digests)
}

} // verus!
