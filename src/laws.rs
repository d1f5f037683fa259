use vstd::prelude::*;
use crate::model::{lookup, Digest, Directory, DirectoryNode, DirectoryStore, DirectoryView};
use crate::tree::{descendants, file_at, resolve, subdirectory, tree_at};
use crate::action_result::{ActionResultView, ProcessResult, ResultSource};
use crate::cache::{record_fetchable, write_eligible, CacheConfig};
use crate::runner::{served_from_cache, MockLocalCommandRunner, StubActionCache};

verus! {

proof fn lemma_resolve_push(store: DirectoryStore, d: Digest, q: Seq<Seq<char>>, n: Seq<char>)
    ensures
        resolve(store, d, q.push(n)) == match resolve(store, d, q) {
            None => None,
            Some(dir) => match subdirectory(dir, n) {
                None => None,
                Some(c) => store.directory(c),
            },
        },
    decreases q.len(),
{
    let p = q.push(n);
    if q.len() == 0 {
        assert(p[0] == n);
        assert(p.drop_first().len() == 0);
        match store.directory(d) {
            None => {},
            Some(dir) => match subdirectory(dir, n) {
                None => {},
                Some(c) => {
                    assert(resolve(store, c, p.drop_first()) == store.directory(c));
                },
            },
        }
    } else {
        assert(p[0] == q[0]);
        assert(p.drop_first() =~= q.drop_first().push(n));
        match store.directory(d) {
            None => {},
            Some(dir) => match subdirectory(dir, q[0]) {
                None => {},
                Some(c) => {
                    lemma_resolve_push(store, c, q.drop_first(), n);
                },
            },
        }
    }
}

/// A path that names a directory names no file.
pub proof fn lemma_directory_path_is_no_file(store: DirectoryStore, d: Digest, path: Seq<Seq<char>>)
    requires
        path.len() > 0,
        resolve(store, d, path) is Some,
    ensures
        file_at(store, d, path) is None,
{
    let q = path.drop_last();
    let n = path.last();
    assert(path =~= q.push(n));
    lemma_resolve_push(store, d, q, n);
}

/// A path that names a file names no directory.
pub proof fn lemma_file_path_is_no_directory(store: DirectoryStore, d: Digest, path: Seq<Seq<char>>)
    requires
        file_at(store, d, path) is Some,
    ensures
        resolve(store, d, path) is None,
{
    if resolve(store, d, path) is Some {
        lemma_directory_path_is_no_file(store, d, path);
    }
}

/// Looking a file up one level past a file finds nothing.
pub proof fn lemma_no_file_below_file(store: DirectoryStore, d: Digest, path: Seq<Seq<char>>, name: Seq<char>)
    requires
        file_at(store, d, path) is Some,
    ensures
        file_at(store, d, path.push(name)) is None,
{
    lemma_file_path_is_no_directory(store, d, path);
    assert(path.push(name).drop_last() =~= path);
}

/// No tree record is built for a path that leads nowhere, or for one that
/// names a file.
pub proof fn lemma_no_tree_off_the_tree(store: DirectoryStore, d: Digest, path: Seq<Seq<char>>)
    requires
        resolve(store, d, path) is None || file_at(store, d, path) is Some,
    ensures
        tree_at(store, d, path) is None,
{
    if file_at(store, d, path) is Some {
        lemma_file_path_is_no_directory(store, d, path);
    }
}

/// The record of every directory below `nodes` is in the store, and none lies
/// more than `depth` levels down.
pub open spec fn records_present(store: DirectoryStore, nodes: Seq<DirectoryNode>, depth: nat) -> bool
    decreases depth, nodes.len(),
{
    if nodes.len() == 0 {
        true
    } else if depth == 0 {
        false
    } else {
        match store.directory(nodes[0].digest) {
            None => false,
            Some(c) => records_present(store, c.directories, (depth - 1) as nat) && records_present(
                store,
                nodes.drop_first(),
                depth,
            ),
        }
    }
}

proof fn lemma_present_records_are_collected(store: DirectoryStore, nodes: Seq<DirectoryNode>, depth: nat, fuel: nat)
    requires
        records_present(store, nodes, depth),
        depth <= fuel,
    ensures
        descendants(store, nodes, fuel) is Some,
    decreases depth, nodes.len(),
{
    if nodes.len() > 0 {
        let c = store.directory(nodes[0].digest)->Some_0;
        lemma_present_records_are_collected(store, c.directories, (depth - 1) as nat, (fuel - 1) as nat);
        lemma_present_records_are_collected(store, nodes.drop_first(), depth, fuel);
    }
}

/// A tree record is built for a path that leads to a directory whenever the
/// record of every directory below it is in the store, no deeper than the
/// store has directory records.
pub proof fn lemma_tree_built_when_records_present(store: DirectoryStore, d: Digest, path: Seq<Seq<char>>)
    requires
        resolve(store, d, path) is Some,
        records_present(store, resolve(store, d, path)->Some_0.directories, store.directories@.len()),
    ensures
        tree_at(store, d, path) is Some,
{
    let dir = resolve(store, d, path)->Some_0;
    lemma_present_records_are_collected(store, dir.directories, store.directories@.len(), store.directories@.len());
}

/// `b` is the digest of a child-directory entry of the record under `a`.
pub open spec fn child_link(store: DirectoryStore, a: Digest, b: Digest) -> bool {
    match store.directory(a) {
        Some(v) => exists|j: int| 0 <= j < v.directories.len() && v.directories[j].digest == b,
        None => false,
    }
}

/// `s` goes from record to record through child-directory entries.
pub open spec fn is_chain(store: DirectoryStore, s: Seq<Digest>) -> bool {
    s.len() > 0 && forall|i: int| 0 <= i < s.len() - 1 ==> #[trigger] child_link(store, s[i], s[i + 1])
}

/// No chain of child-directory entries comes back to a directory it passed.
pub open spec fn acyclic(store: DirectoryStore) -> bool {
    forall|s: Seq<Digest>| #[trigger] is_chain(store, s) ==> s.no_duplicates()
}

/// Every directory reachable from `x` through child-directory entries has its
/// record in the store.
pub open spec fn recorded_below(store: DirectoryStore, x: Digest) -> bool {
    forall|s: Seq<Digest>| #[trigger] is_chain(store, s) && s[0] == x ==> store.directory(s.last()) is Some
}

proof fn lemma_lookup_key<T>(table: Seq<(Digest, T)>, d: Digest)
    requires
        lookup(table, d) is Some,
    ensures
        table.map_values(|e: (Digest, T)| e.0).contains(d),
    decreases table.len(),
{
    let keys = table.map_values(|e: (Digest, T)| e.0);
    if table[0].0 == d {
        assert(keys[0] == d);
    } else {
        lemma_lookup_key(table.drop_first(), d);
        let rest = table.drop_first().map_values(|e: (Digest, T)| e.0);
        let i = choose|i: int| 0 <= i < rest.len() && rest[i] == d;
        assert(keys[i + 1] == d);
    }
}

/// A chain without repeats through recorded directories is no longer than
/// the store's directory table.
proof fn lemma_chain_fits(store: DirectoryStore, s: Seq<Digest>)
    requires
        s.no_duplicates(),
        forall|i: int| 0 <= i < s.len() ==> store.directory(#[trigger] s[i]) is Some,
    ensures
        s.len() <= store.directories@.len(),
{
    broadcast use vstd::seq_lib::seq_to_set_is_finite;

    let keys = store.directories@.map_values(|e: (Digest, Directory)| e.0);
    assert forall|x: Digest| s.to_set().contains(x) implies keys.to_set().contains(x) by {
        let i = choose|i: int| 0 <= i < s.len() && s[i] == x;
        assert(store.directory(s[i]) is Some);
        lemma_lookup_key(store.directories@, x);
    }
    s.unique_seq_to_set();
    keys.lemma_cardinality_of_set();
    vstd::set_lib::lemma_len_subset(s.to_set(), keys.to_set());
}

proof fn lemma_chain_extends(store: DirectoryStore, chain: Seq<Digest>, nodes: Seq<DirectoryNode>, depth: nat)
    requires
        acyclic(store),
        is_chain(store, chain),
        recorded_below(store, chain[0]),
        forall|i: int| 0 <= i < chain.len() ==> store.directory(#[trigger] chain[i]) is Some,
        forall|j: int| 0 <= j < nodes.len() ==> child_link(store, chain.last(), #[trigger] nodes[j].digest),
        chain.len() + depth == store.directories@.len() + 1,
    ensures
        records_present(store, nodes, depth),
    decreases depth, nodes.len(),
{
    if nodes.len() > 0 {
        let b = nodes[0].digest;
        let next = chain.push(b);
        assert forall|i: int| 0 <= i < next.len() - 1 implies #[trigger] child_link(store, next[i], next[i + 1]) by {
            if i < chain.len() - 1 {
                assert(child_link(store, chain[i], chain[i + 1]));
            } else {
                assert(child_link(store, chain.last(), nodes[0].digest));
            }
        }
        assert(is_chain(store, next));
        assert(next[0] == chain[0]);
        assert(next.last() == b);
        assert(store.directory(b) is Some);
        assert forall|i: int| 0 <= i < next.len() implies store.directory(#[trigger] next[i]) is Some by {
            if i < chain.len() {
                assert(next[i] == chain[i]);
            }
        }
        lemma_chain_fits(store, next);
        let c = store.directory(b)->Some_0;
        assert forall|j: int| 0 <= j < c.directories.len() implies child_link(
            store,
            next.last(),
            #[trigger] c.directories[j].digest,
        ) by {}
        lemma_chain_extends(store, next, c.directories, (depth - 1) as nat);
        assert forall|j: int| 0 <= j < nodes.drop_first().len() implies child_link(
            store,
            chain.last(),
            #[trigger] nodes.drop_first()[j].digest,
        ) by {
            assert(nodes.drop_first()[j] == nodes[j + 1]);
        }
        lemma_chain_extends(store, chain, nodes.drop_first(), depth);
    }
}

/// In a store whose child-directory entries never lead back to a directory
/// already passed, a tree record is built for a path that leads to the
/// directory recorded under `x` whenever every directory reachable from `x`
/// has its record in the store.
pub proof fn lemma_tree_built_when_acyclic(store: DirectoryStore, d: Digest, path: Seq<Seq<char>>, x: Digest)
    requires
        acyclic(store),
        resolve(store, d, path) is Some,
        store.directory(x) == resolve(store, d, path),
        recorded_below(store, x),
    ensures
        tree_at(store, d, path) is Some,
{
    let dir = resolve(store, d, path)->Some_0;
    let chain = seq![x];
    assert(is_chain(store, chain));
    assert forall|j: int| 0 <= j < dir.directories.len() implies child_link(
        store,
        chain.last(),
        #[trigger] dir.directories[j].digest,
    ) by {}
    lemma_chain_extends(store, chain, dir.directories, store.directories@.len());
    lemma_tree_built_when_records_present(store, d, path);
}

/// The record of the directory `x` is in the store and among `dirs`.
pub open spec fn recorded_among(store: DirectoryStore, x: Digest, dirs: Seq<DirectoryView>) -> bool {
    store.directory(x) matches Some(v) && dirs.contains(v)
}

/// Every listing in `dirs` whose child directories all have their records
/// among `dirs`.
pub open spec fn closed_under_children(store: DirectoryStore, nodes: Seq<DirectoryNode>, dirs: Seq<DirectoryView>) -> bool {
    &&& forall|j: int| 0 <= j < nodes.len() ==> recorded_among(store, #[trigger] nodes[j].digest, dirs)
    &&& forall|k: int, j: int|
        0 <= k < dirs.len() && 0 <= j < dirs[k].directories.len() ==> recorded_among(
            store,
            #[trigger] dirs[k].directories[j].digest,
            dirs,
        )
}

proof fn lemma_descendants_closed(store: DirectoryStore, nodes: Seq<DirectoryNode>, fuel: nat)
    requires
        descendants(store, nodes, fuel) is Some,
    ensures
        closed_under_children(store, nodes, descendants(store, nodes, fuel)->Some_0),
    decreases fuel, nodes.len(),
{
    let ds = descendants(store, nodes, fuel)->Some_0;
    if nodes.len() > 0 {
        let child = store.directory(nodes[0].digest)->Some_0;
        let below = descendants(store, child.directories, (fuel - 1) as nat)->Some_0;
        let rest = descendants(store, nodes.drop_first(), fuel)->Some_0;
        lemma_descendants_closed(store, child.directories, (fuel - 1) as nat);
        lemma_descendants_closed(store, nodes.drop_first(), fuel);
        assert(ds == seq![child] + below + rest);
        assert forall|j: int| 0 <= j < nodes.len() implies recorded_among(store, #[trigger] nodes[j].digest, ds) by {
            if j == 0 {
                assert(ds[0] == child);
            } else {
                assert(nodes[j] == nodes.drop_first()[j - 1]);
                let v = store.directory(nodes[j].digest)->Some_0;
                let m = choose|m: int| 0 <= m < rest.len() && rest[m] == v;
                assert(ds[1 + below.len() + m] == v);
            }
        }
        assert forall|k: int, j: int|
            0 <= k < ds.len() && 0 <= j < ds[k].directories.len() implies recorded_among(
            store,
            #[trigger] ds[k].directories[j].digest,
            ds,
        ) by {
            if k == 0 {
                assert(ds[0] == child);
                assert(child.directories[j] == ds[k].directories[j]);
                let v = store.directory(child.directories[j].digest)->Some_0;
                let m = choose|m: int| 0 <= m < below.len() && below[m] == v;
                assert(ds[1 + m] == v);
            } else if k < 1 + below.len() {
                assert(ds[k] == below[k - 1]);
                let v = store.directory(below[k - 1].directories[j].digest)->Some_0;
                let m = choose|m: int| 0 <= m < below.len() && below[m] == v;
                assert(ds[1 + m] == v);
            } else {
                assert(ds[k] == rest[k - 1 - below.len()]);
                let v = store.directory(rest[k - 1 - below.len()].directories[j].digest)->Some_0;
                let m = choose|m: int| 0 <= m < rest.len() && rest[m] == v;
                assert(ds[1 + below.len() + m] == v);
            }
        }
    }
}

/// A tree record built for a path holds the directory found at that path as
/// its root, and walking it from the root through child-directory entries
/// finds each directory's record, exactly as the store holds it, among the
/// tree's children.
pub proof fn lemma_tree_walk(store: DirectoryStore, d: Digest, path: Seq<Seq<char>>)
    requires
        tree_at(store, d, path) is Some,
    ensures
        resolve(store, d, path) == Some(tree_at(store, d, path)->Some_0.root),
        closed_under_children(
            store,
            tree_at(store, d, path)->Some_0.root.directories,
            tree_at(store, d, path)->Some_0.children,
        ),
{
    let root = resolve(store, d, path)->Some_0;
    lemma_descendants_closed(store, root.directories, store.directories@.len());
}

/// Under lazy reads a hit that arrives first is served whatever the store
/// holds: `run` then returns the record and leaves the delegate runner
/// untouched.
pub proof fn lemma_lazy_hit_ignores_store(
    config: CacheConfig,
    local: MockLocalCommandRunner,
    cache: StubActionCache,
    d: Digest,
    rec: ActionResultView,
)
    requires
        config.read_enabled,
        !config.eager_fetch,
        cache.read_delay_ms <= local.delay_ms,
        !cache.always_errors,
        cache.entry(d) == Some(rec),
    ensures
        forall|store: DirectoryStore| #[trigger] served_from_cache(config, local, cache, store, d) == Some(rec),
{
}

/// Under eager reads a hit that names something the store cannot provide is
/// not served: `run` completes the delegate runner once and returns its
/// result.
pub proof fn lemma_eager_hit_needs_contents(
    config: CacheConfig,
    local: MockLocalCommandRunner,
    cache: StubActionCache,
    store: DirectoryStore,
    d: Digest,
    rec: ActionResultView,
)
    requires
        config.eager_fetch,
        cache.entry(d) == Some(rec),
        !record_fetchable(store, rec),
    ensures
        served_from_cache(config, local, cache, store, d) is None,
{
}

/// A cache that fails every request serves nothing: `run` completes the
/// delegate runner once and returns its result.
pub proof fn lemma_cache_errors_fall_back(
    config: CacheConfig,
    local: MockLocalCommandRunner,
    cache: StubActionCache,
    store: DirectoryStore,
    d: Digest,
)
    requires
        cache.always_errors,
    ensures
        served_from_cache(config, local, cache, store, d) is None,
{
}

/// The race is decided by who completes first: a usable hit that arrives
/// strictly before the local run is served, and a local run that completes
/// strictly before the lookup is returned whatever the cache holds.
pub proof fn lemma_race_order(
    config: CacheConfig,
    local: MockLocalCommandRunner,
    cache: StubActionCache,
    store: DirectoryStore,
    d: Digest,
)
    ensures
        config.read_enabled && cache.read_delay_ms < local.delay_ms && !cache.always_errors && (
        cache.entry(d) matches Some(rec) && (!config.eager_fetch || record_fetchable(store, rec)))
            ==> served_from_cache(config, local, cache, store, d) == cache.entry(d),
        local.delay_ms < cache.read_delay_ms ==> served_from_cache(config, local, cache, store, d) is None,
{
}

/// Only a successful local run is written to the cache, and with writes
/// enabled every one is.
pub proof fn lemma_write_eligibility(config: CacheConfig, result: Result<ProcessResult, String>)
    ensures
        write_eligible(config, result) ==> (result matches Ok(p) && p.exit_code == 0),
        config.write_enabled ==> ((result matches Ok(p) && p.exit_code == 0 && p.source
            == ResultSource::RanLocally) ==> write_eligible(config, result)),
{
}

} // verus!
