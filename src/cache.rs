use vstd::prelude::*;
use crate::action_result::{ActionResultRecord, ActionResultView, ProcessResult, ResultSource};
use crate::model::{Digest, DirectoryStore, DirectoryView, TreeRecord, TreeView};

verus! {

/// What a get against the action cache returned.
pub enum CacheLookup {
    Found(ActionResultRecord),
    NotFound,
    /// The cache could not be reached, or answered with something malformed.
    Failed(String),
}

/// Why a cache read gave no usable result.
pub enum CacheError {
    Transport(String),
    /// The record names a digest that the store cannot provide.
    Unfetchable(Digest),
}

/// The outcome of a cache read, after the read policy was applied.
pub enum CacheReadOutcome {
    Hit(ActionResultRecord),
    Miss,
    Error(CacheError),
}

/// How often a cache error is reported to the user.
#[derive(Clone, Copy, Debug, PartialEq, Eq, Structural)]
pub enum WarningsBehavior {
    Never,
    FirstOnly,
    Always,
}

/// The fixed configuration of a caching runner.
#[derive(Clone, Copy, Debug, PartialEq, Eq, Structural)]
pub struct CacheConfig {
    pub read_enabled: bool,
    pub write_enabled: bool,
    /// Check that everything a hit names can be fetched before trusting it.
    pub eager_fetch: bool,
    pub warnings: WarningsBehavior,
}

impl CacheConfig {
    /// Whether a cache error is reported, given whether one was reported
    /// before.
    pub fn should_warn(&self, warned_before: bool) -> (r: bool)
        ensures
            r == (self.warnings == WarningsBehavior::Always || (self.warnings
                == WarningsBehavior::FirstOnly && !warned_before)),
    {
        match self.warnings {
            WarningsBehavior::Never => false,
            WarningsBehavior::FirstOnly => !warned_before,
            WarningsBehavior::Always => true,
        }
    }
}

/// Every file named in a listing is present in the store.
pub open spec fn listing_fetchable(store: DirectoryStore, dir: DirectoryView) -> bool {
    forall|i: int| 0 <= i < dir.files.len() ==> store.has_blob(#[trigger] dir.files[i].digest)
}

/// The tree record under `d` is in the store, and so is every file it names.
pub open spec fn tree_fetchable(store: DirectoryStore, d: Digest) -> bool {
    match store.tree(d) {
        None => false,
        Some(t) => listing_fetchable(store, t.root) && forall|k: int|
            0 <= k < t.children.len() ==> listing_fetchable(store, #[trigger] t.children[k]),
    }
}

/// Everything an action-result record names can be fetched from the store.
pub open spec fn record_fetchable(store: DirectoryStore, r: ActionResultView) -> bool {
    &&& store.has_blob(r.stdout_digest)
    &&& store.has_blob(r.stderr_digest)
    &&& forall|i: int|
        0 <= i < r.output_files.len() ==> store.has_blob(#[trigger] r.output_files[i].digest)
    &&& forall|k: int|
        0 <= k < r.output_directories.len() ==> tree_fetchable(
            store,
            #[trigger] r.output_directories[k].tree_digest,
        )
}

/// The listing has a file entry with digest `m`.
pub open spec fn listing_names_file(dir: DirectoryView, m: Digest) -> bool {
    exists|i: int| 0 <= i < dir.files.len() && dir.files[i].digest == m
}

/// `m` keeps the tree under `d` from being fetched: it is the tree record
/// itself, missing from the store, or a file the tree names that the store
/// lacks.
pub open spec fn tree_lacks(store: DirectoryStore, d: Digest, m: Digest) -> bool {
    match store.tree(d) {
        None => m == d,
        Some(t) => !store.has_blob(m) && (listing_names_file(t.root, m) || exists|k: int|
            0 <= k < t.children.len() && listing_names_file(t.children[k], m)),
    }
}

/// `m` is named by the record, directly or through one of its trees, and the
/// store cannot provide it.
pub open spec fn record_lacks(store: DirectoryStore, r: ActionResultView, m: Digest) -> bool {
    (!store.has_blob(m) && (m == r.stdout_digest || m == r.stderr_digest || exists|i: int|
        0 <= i < r.output_files.len() && r.output_files[i].digest == m)) || exists|k: int|
        0 <= k < r.output_directories.len() && tree_lacks(store, r.output_directories[k].tree_digest, m)
}

/// The first file named in `dir` that the store lacks.
fn listing_missing(store: &DirectoryStore, dir: &crate::model::Directory) -> (r: Option<Digest>)
    ensures
        r is None <==> listing_fetchable(*store, dir@),
        r matches Some(m) ==> !store.has_blob(m) && listing_names_file(dir@, m),
{
    let mut i: usize = 0;
    while i < dir.files.len()
        invariant
            i <= dir.files@.len(),
            forall|k: int| 0 <= k < i ==> store.has_blob(#[trigger] dir.files@[k].digest),
        decreases dir.files.len() - i,
    {
        if !store.contains_blob(dir.files[i].digest) {
            assert(!store.has_blob(dir@.files[i as int].digest));
            return Some(dir.files[i].digest);
        }
        i = i + 1;
    }
    None
}

/// The first digest that the tree under `d` needs and the store lacks.
fn tree_missing(store: &DirectoryStore, d: Digest) -> (r: Option<Digest>)
    ensures
        r is None <==> tree_fetchable(*store, d),
        r matches Some(m) ==> tree_lacks(*store, d, m),
{
    let t: &TreeRecord = match store.load_tree(d) {
        Some(t) => t,
        None => {
            return Some(d);
        },
    };
    if let Some(m) = listing_missing(store, &t.root) {
        return Some(m);
    }
    let mut k: usize = 0;
    while k < t.children.len()
        invariant
            k <= t.children@.len(),
            store.tree(d) == Some(t@),
            forall|m: int| 0 <= m < k ==> listing_fetchable(*store, #[trigger] t@.children[m]),
        decreases t.children.len() - k,
    {
        if let Some(m) = listing_missing(store, &t.children[k]) {
            assert(t@.children[k as int] == t.children@[k as int]@);
            assert(listing_names_file(t@.children[k as int], m));
            return Some(m);
        }
        assert(t@.children[k as int] == t.children@[k as int]@);
        k = k + 1;
    }
    None
}

/// The first digest named by `r` that the store cannot provide.
pub fn missing_digest(store: &DirectoryStore, r: &ActionResultRecord) -> (m: Option<Digest>)
    ensures
        m is None <==> record_fetchable(*store, r@),
        m matches Some(d) ==> record_lacks(*store, r@, d),
{
    if !store.contains_blob(r.stdout_digest) {
        return Some(r.stdout_digest);
    }
    if !store.contains_blob(r.stderr_digest) {
        return Some(r.stderr_digest);
    }
    let mut i: usize = 0;
    while i < r.output_files.len()
        invariant
            i <= r.output_files@.len(),
            forall|k: int| 0 <= k < i ==> store.has_blob(#[trigger] r@.output_files[k].digest),
        decreases r.output_files.len() - i,
    {
        assert(r@.output_files[i as int].digest == r.output_files@[i as int].digest);
        if !store.contains_blob(r.output_files[i].digest) {
            assert(record_lacks(*store, r@, r@.output_files[i as int].digest));
            return Some(r.output_files[i].digest);
        }
        i = i + 1;
    }
    let mut j: usize = 0;
    while j < r.output_directories.len()
        invariant
            j <= r.output_directories@.len(),
            forall|k: int|
                0 <= k < j ==> tree_fetchable(*store, #[trigger] r@.output_directories[k].tree_digest),
        decreases r.output_directories.len() - j,
    {
        assert(r@.output_directories[j as int].tree_digest == r.output_directories@[j as int].tree_digest);
        if let Some(m) = tree_missing(store, r.output_directories[j].tree_digest) {
            assert(record_lacks(*store, r@, m));
            return Some(m);
        }
        j = j + 1;
    }
    None
}

/// Applies the read policy to what the action cache returned: a transport
/// failure is an error, an absent record a miss; a record is a hit, unless
/// `eager_fetch` asks that everything it names be fetchable and something is
/// not.
pub fn check_cache_lookup(lookup: CacheLookup, eager_fetch: bool, store: &DirectoryStore) -> (r:
    CacheReadOutcome)
    ensures
        match lookup {
            CacheLookup::Failed(reason) => r == CacheReadOutcome::Error(CacheError::Transport(reason)),
            CacheLookup::NotFound => r is Miss,
            CacheLookup::Found(rec) => if !eager_fetch || record_fetchable(*store, rec@) {
                r == CacheReadOutcome::Hit(rec)
            } else {
                r is Error && r->Error_0 is Unfetchable && record_lacks(
                    *store,
                    rec@,
                    r->Error_0->Unfetchable_0,
                )
            },
        },
{
    match lookup {
        CacheLookup::Failed(reason) => CacheReadOutcome::Error(CacheError::Transport(reason)),
        CacheLookup::NotFound => CacheReadOutcome::Miss,
        CacheLookup::Found(rec) => {
            if eager_fetch {
                if let Some(m) = missing_digest(store, &rec) {
                    return CacheReadOutcome::Error(CacheError::Unfetchable(m));
                }
            }
            CacheReadOutcome::Hit(rec)
        },
    }
}

/// Where the race between the cache read and the local run stands.
#[derive(Clone, Copy, Debug, PartialEq, Eq, Structural)]
pub enum RacePhase {
    /// Both the cache read and the local run are in flight.
    Racing,
    /// Only the local run is awaited.
    AwaitingLocal,
    /// A result was returned.
    Finished,
}

/// One side of the race completed.
pub enum RaceEvent {
    CacheDone(CacheReadOutcome),
    LocalDone(Result<ProcessResult, String>),
}

/// What the runner does next.
pub enum RaceAction {
    /// Keep waiting for the local run.
    Wait,
    /// Return the cached record and abandon the local run.
    ReturnCached(ActionResultRecord),
    /// Return the local result; `write` says whether to publish it to the
    /// cache in the background.
    ReturnLocal { result: Result<ProcessResult, String>, write: bool },
}

/// A local result is published to the cache: writes are enabled, and the
/// process actually ran here and exited with 0.
pub open spec fn write_eligible(config: CacheConfig, result: Result<ProcessResult, String>) -> bool {
    config.write_enabled && match result {
        Ok(p) => p.exit_code == 0 && p.source == ResultSource::RanLocally,
        Err(_) => false,
    }
}

pub fn should_write(config: &CacheConfig, result: &Result<ProcessResult, String>) -> (r: bool)
    ensures
        r == write_eligible(*config, *result),
{
    if !config.write_enabled {
        return false;
    }
    match result {
        Ok(p) => p.exit_code == 0 && p.source == ResultSource::RanLocally,
        Err(_) => false,
    }
}

/// The phase a run starts in: racing when cache reads are enabled, else
/// waiting for the local run alone.
pub fn start_phase(config: &CacheConfig) -> (p: RacePhase)
    ensures
        p == if config.read_enabled {
            RacePhase::Racing
        } else {
            RacePhase::AwaitingLocal
        },
{
    if config.read_enabled {
        RacePhase::Racing
    } else {
        RacePhase::AwaitingLocal
    }
}

/// The race's decision on one event. A hit that arrives while both sides
/// are in flight wins; a miss or an error leaves the local run to finish; a
/// finished local run wins whenever it arrives. Nothing happens once a result
/// was returned.
pub fn on_event(phase: RacePhase, event: RaceEvent, config: &CacheConfig) -> (r: (RacePhase, RaceAction))
    ensures
        match (phase, event) {
            (RacePhase::Finished, _) => r.0 == RacePhase::Finished && r.1 is Wait,
            (_, RaceEvent::LocalDone(res)) => r.0 == RacePhase::Finished && r.1 == (RaceAction::ReturnLocal {
                result: res,
                write: write_eligible(*config, res),
            }),
            (RacePhase::Racing, RaceEvent::CacheDone(CacheReadOutcome::Hit(rec))) => r.0
                == RacePhase::Finished && r.1 == RaceAction::ReturnCached(rec),
            (_, RaceEvent::CacheDone(_)) => r.0 == RacePhase::AwaitingLocal && r.1 is Wait,
        },
{
    match phase {
        RacePhase::Finished => (RacePhase::Finished, RaceAction::Wait),
        _ => match event {
            RaceEvent::LocalDone(res) => {
                let write = should_write(config, &res);
                (RacePhase::Finished, RaceAction::ReturnLocal { result: res, write })
            },
            RaceEvent::CacheDone(outcome) => match (phase, outcome) {
                (RacePhase::Racing, CacheReadOutcome::Hit(rec)) => (
                    RacePhase::Finished,
                    RaceAction::ReturnCached(rec),
                ),
                _ => (RacePhase::AwaitingLocal, RaceAction::Wait),
            },
        },
    }
}

} // verus!
