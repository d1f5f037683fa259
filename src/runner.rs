use vstd::prelude::*;
use crate::action_result::{
    collect_outputs, found_files, found_trees, make_action_result, paths_view, required_digest, ActionResultRecord,
    ActionResultView, CollectedOutputs, Command, OutputFile, OutputTree, ProcessResult, ResultSource,
};
use crate::cache::{
    check_cache_lookup, on_event, record_fetchable, start_phase, write_eligible, CacheConfig,
    CacheLookup, RaceAction, RaceEvent,
};
use crate::model::{empty_digest, lookup, Digest, DirectoryStore};

verus! {

/// A stand-in for the delegate runner: it returns a fixed result after a
/// fixed delay, and counts the runs it completed.
pub struct MockLocalCommandRunner {
    pub result: Result<ProcessResult, String>,
    pub call_counter: u64,
    pub delay_ms: u64,
}

impl MockLocalCommandRunner {
    /// A runner whose process exits with `exit_code`, with empty output, after
    /// `delay_ms` milliseconds.
    pub fn new(exit_code: i32, delay_ms: u64) -> (r: MockLocalCommandRunner)
        ensures
            r.result matches Ok(p) && p.exit_code == exit_code && p.source == ResultSource::RanLocally
                && p.stdout_digest == empty_digest() && p.stderr_digest == empty_digest()
                && p.output_directory == empty_digest(),
            r.call_counter == 0,
            r.delay_ms == delay_ms,
    {
        let empty = empty_digest();
        MockLocalCommandRunner {
            result: Ok(
                ProcessResult {
                    stdout_digest: empty,
                    stderr_digest: empty,
                    exit_code,
                    output_directory: empty,
                    source: ResultSource::RanLocally,
                },
            ),
            call_counter: 0,
            delay_ms,
        }
    }

    /// Completes one run.
    pub fn run(&mut self) -> (r: Result<ProcessResult, String>)
        requires
            old(self).call_counter < u64::MAX,
        ensures
            r == old(self).result,
            final(self).call_counter == old(self).call_counter + 1,
            final(self).result == old(self).result,
            final(self).delay_ms == old(self).delay_ms,
    {
        self.call_counter = self.call_counter + 1;
        match &self.result {
            Ok(p) => Ok(*p),
            Err(e) => Err(e.clone()),
        }
    }
}

/// A delegate runner that has run nothing yet.
pub fn create_local_runner(exit_code: i32, delay_ms: u64) -> (r: MockLocalCommandRunner)
    ensures
        r.result matches Ok(p) && p.exit_code == exit_code && p.source == ResultSource::RanLocally
            && p.stdout_digest == empty_digest() && p.stderr_digest == empty_digest()
            && p.output_directory == empty_digest(),
        r.call_counter == 0,
        r.delay_ms == delay_ms,
{
    MockLocalCommandRunner::new(exit_code, delay_ms)
}

/// A stand-in for the action cache: records by action digest, answered after
/// a fixed delay, or a failure for every request.
pub struct StubActionCache {
    pub action_map: Vec<(Digest, ActionResultRecord)>,
    pub always_errors: bool,
    pub read_delay_ms: u64,
    pub write_delay_ms: u64,
}

impl StubActionCache {
    /// The record held for `d`.
    pub open spec fn entry(&self, d: Digest) -> Option<ActionResultView> {
        match lookup(self.action_map@, d) {
            Some(r) => Some(r@),
            None => None,
        }
    }

    pub fn new(read_delay_ms: u64, write_delay_ms: u64) -> (c: StubActionCache)
        ensures
            c.action_map@.len() == 0,
            !c.always_errors,
            c.read_delay_ms == read_delay_ms,
            c.write_delay_ms == write_delay_ms,
    {
        StubActionCache { action_map: Vec::new(), always_errors: false, read_delay_ms, write_delay_ms }
    }

    /// Looks a record up.
    pub fn get(&self, d: Digest) -> (r: CacheLookup)
        ensures
            self.always_errors ==> r is Failed,
            !self.always_errors ==> match self.entry(d) {
                Some(rec) => r matches CacheLookup::Found(found) && found@ == rec,
                None => r is NotFound,
            },
    {
        if self.always_errors {
            return CacheLookup::Failed("action cache unavailable".to_owned());
        }
        let mut i: usize = 0;
        assert(self.action_map@.skip(0) =~= self.action_map@);
        while i < self.action_map.len()
            invariant
                i <= self.action_map@.len(),
                !self.always_errors,
                lookup(self.action_map@, d) == lookup(self.action_map@.skip(i as int), d),
            decreases self.action_map.len() - i,
        {
            assert(self.action_map@.skip(i as int).drop_first() =~= self.action_map@.skip(i + 1));
            if self.action_map[i].0 == d {
                return CacheLookup::Found(self.action_map[i].1.duplicate());
            }
            i = i + 1;
        }
        CacheLookup::NotFound
    }

    /// Enters `rec` under `d` directly, in place of any earlier record,
    /// whether or not the cache fails its requests.
    pub fn insert(&mut self, d: Digest, rec: ActionResultRecord)
        ensures
            final(self).always_errors == old(self).always_errors,
            final(self).read_delay_ms == old(self).read_delay_ms,
            final(self).write_delay_ms == old(self).write_delay_ms,
            forall|e: Digest| #[trigger]
                final(self).entry(e) == if e == d {
                    Some(rec@)
                } else {
                    old(self).entry(e)
                },
    {
        let ghost before = self.action_map@;
        self.action_map.insert(0, (d, rec));
        assert(self.action_map@.drop_first() =~= before);
    }

    /// Stores `rec` under `d`, in place of any earlier record; a cache that
    /// fails every request keeps nothing.
    pub fn put(&mut self, d: Digest, rec: ActionResultRecord)
        ensures
            final(self).always_errors == old(self).always_errors,
            final(self).read_delay_ms == old(self).read_delay_ms,
            final(self).write_delay_ms == old(self).write_delay_ms,
            forall|e: Digest| #[trigger]
                final(self).entry(e) == if e == d && !old(self).always_errors {
                    Some(rec@)
                } else {
                    old(self).entry(e)
                },
    {
        if !self.always_errors {
            let ghost before = self.action_map@;
            self.action_map.insert(0, (d, rec));
            assert(self.action_map@.drop_first() =~= before);
        }
    }
}

/// What a run returned.
pub enum RunOutcome {
    /// The record found in the cache; the store materialises its outputs.
    Cached(ActionResultRecord),
    /// The delegate runner's own result or error.
    Local(Result<ProcessResult, String>),
}

/// A cache write that a run scheduled in the background: the record of
/// `result` is stored under `action_digest` once `delay_ms` has passed.
pub struct PendingWrite {
    pub action_digest: Digest,
    pub result: ProcessResult,
    pub outputs: CollectedOutputs,
    pub delay_ms: u64,
}

/// The result of a run, when it was returned, and the write it left behind.
pub struct RunReport {
    pub outcome: RunOutcome,
    pub returned_at_ms: u64,
    pub pending_write: Option<PendingWrite>,
}

impl RunReport {
    /// The exit code returned, if the run returned a result.
    pub fn exit_code(&self) -> (r: Option<i32>)
        ensures
            r == match self.outcome {
                RunOutcome::Cached(rec) => Some(rec.exit_code),
                RunOutcome::Local(Ok(p)) => Some(p.exit_code),
                RunOutcome::Local(Err(_)) => None,
            },
    {
        match &self.outcome {
            RunOutcome::Cached(rec) => Some(rec.exit_code),
            RunOutcome::Local(Ok(p)) => Some(p.exit_code),
            RunOutcome::Local(Err(_)) => None,
        }
    }
}

/// The record a run serves from the cache: reads are enabled, the lookup
/// completes no later than the local run, the cache answers, holds a record
/// for the action, and (under eager fetch) everything the record names can be
/// fetched.
pub open spec fn served_from_cache(
    config: CacheConfig,
    local: MockLocalCommandRunner,
    cache: StubActionCache,
    store: DirectoryStore,
    d: Digest,
) -> Option<ActionResultView> {
    if config.read_enabled && cache.read_delay_ms <= local.delay_ms && !cache.always_errors {
        match cache.entry(d) {
            Some(rec) => if !config.eager_fetch || record_fetchable(store, rec) {
                Some(rec)
            } else {
                None
            },
            None => None,
        }
    } else {
        None
    }
}

/// A caching runner in front of a delegate runner.
pub struct CachingCommandRunner {
    pub config: CacheConfig,
}

impl CachingCommandRunner {
    pub fn new(config: CacheConfig) -> (r: CachingCommandRunner)
        ensures
            r.config == config,
    {
        CachingCommandRunner { config }
    }

    /// Runs the action `action_digest`, whose command is `command`: the cache
    /// lookup and the local run race, each completing after its own delay (a
    /// lookup that completes at the same moment as the local run is taken
    /// first). The cache is only read here; a write that the run schedules is
    /// returned, to complete after the run has returned.
    pub fn run(
        &self,
        action_digest: Digest,
        command: &Command,
        local: &mut MockLocalCommandRunner,
        cache: &StubActionCache,
        store: &DirectoryStore,
    ) -> (r: RunReport)
        requires
            old(local).call_counter < u64::MAX,
        ensures
            match served_from_cache(self.config, *old(local), *cache, *store, action_digest) {
                Some(rec) => {
                    &&& r.outcome matches RunOutcome::Cached(found) && found@ == rec
                    &&& *final(local) == *old(local)
                    &&& r.returned_at_ms == cache.read_delay_ms
                    &&& r.pending_write is None
                },
                None => {
                    &&& r.outcome == RunOutcome::Local(old(local).result)
                    &&& final(local).call_counter == old(local).call_counter + 1
                    &&& final(local).result == old(local).result
                    &&& final(local).delay_ms == old(local).delay_ms
                    &&& r.returned_at_ms == old(local).delay_ms
                    &&& (r.pending_write is Some <==> write_eligible(self.config, old(local).result))
                    &&& (r.pending_write matches Some(w) ==> {
                        &&& w.action_digest == action_digest
                        &&& old(local).result == Ok::<ProcessResult, String>(w.result)
                        &&& w.delay_ms == cache.write_delay_ms
                        &&& w.outputs.files@.map_values(|f: OutputFile| f@) == found_files(
                            *store,
                            w.result.output_directory,
                            paths_view(command.output_files@),
                        )
                        &&& w.outputs.trees@.map_values(|t: OutputTree| (t.path@, t.tree@))
                            == found_trees(
                            *store,
                            w.result.output_directory,
                            paths_view(command.output_directories@),
                        )
                    })
                },
            },
    {
        let mut phase = start_phase(&self.config);
        if self.config.read_enabled && cache.read_delay_ms <= local.delay_ms {
            let outcome = check_cache_lookup(cache.get(action_digest), self.config.eager_fetch, store);
            let (next, action) = on_event(phase, RaceEvent::CacheDone(outcome), &self.config);
            phase = next;
            if let RaceAction::ReturnCached(rec) = action {
                return RunReport {
                    outcome: RunOutcome::Cached(rec),
                    returned_at_ms: cache.read_delay_ms,
                    pending_write: None,
                };
            }
        }
        let returned_at_ms = local.delay_ms;
        let result = local.run();
        let (_, action) = on_event(phase, RaceEvent::LocalDone(result), &self.config);
        match action {
            RaceAction::ReturnLocal { result, write } => {
                let pending_write = match (&result, write) {
                    (Ok(p), true) => Some(
                        PendingWrite {
                            action_digest,
                            result: *p,
                            outputs: collect_outputs(command, p, store),
                            delay_ms: cache.write_delay_ms,
                        },
                    ),
                    _ => None,
                };
                RunReport { outcome: RunOutcome::Local(result), returned_at_ms, pending_write }
            },
            _ => {
                proof {
                    assert(false);
                }
                RunReport { outcome: RunOutcome::Local(Err(String::new())), returned_at_ms, pending_write: None }
            },
        }
    }
}

/// Assembles the record of a scheduled write from the run's outputs and the
/// digests under which the store keeps their tree records (one per tree, in
/// order). Also returns, each once, the digests that the remote store must
/// hold before the record is put in the cache.
pub fn prepare_write(w: &PendingWrite, tree_digests: &Vec<Digest>) -> (r: (ActionResultRecord, Vec<Digest>))
    requires
        tree_digests@.len() == w.outputs.trees@.len(),
    ensures
        r.0.exit_code == w.result.exit_code,
        r.0.stdout_digest == w.result.stdout_digest,
        r.0.stderr_digest == w.result.stderr_digest,
        r.0@.output_files == w.outputs.files@.map_values(|f: OutputFile| f@),
        r.0@.output_directories.len() == w.outputs.trees@.len(),
        forall|k: int|
            0 <= k < w.outputs.trees@.len() ==> (#[trigger] r.0@.output_directories[k]).path
                == w.outputs.trees@[k].path@ && r.0@.output_directories[k].tree_digest
                == tree_digests@[k],
        r.1@.no_duplicates(),
        forall|e: Digest| #[trigger]
            r.1@.contains(e) == required_digest(
                w.result,
                w.outputs.files@.map_values(|f: OutputFile| f@),
                w.outputs.trees@.map_values(|t: OutputTree| t.tree@),
                tree_digests@,
                e,
            ),
{
    let (record, digests) = make_action_result(&w.result, &w.outputs, tree_digests);
    proof {
        let rv = record@;
        assert forall|k: int| 0 <= k < w.outputs.trees@.len() implies (
        #[trigger] rv.output_directories[k]).path == w.outputs.trees@[k].path@
            && rv.output_directories[k].tree_digest == tree_digests@[k] by {
            assert(rv.output_directories[k] == record.output_directories@[k]@);
        }
    }
    (record, digests)
}

/// Puts the record of a scheduled write in the cache once the upload of the
/// digests it needs has succeeded; after a failed upload the cache is left
/// as it was. Returns whether the record was put.
pub fn publish_write(
    cache: &mut StubActionCache,
    action_digest: Digest,
    record: ActionResultRecord,
    uploaded: &Result<(), String>,
) -> (r: bool)
    ensures
        r == (uploaded is Ok && !old(cache).always_errors),
        final(cache).always_errors == old(cache).always_errors,
        final(cache).read_delay_ms == old(cache).read_delay_ms,
        final(cache).write_delay_ms == old(cache).write_delay_ms,
        forall|e: Digest| #[trigger]
            final(cache).entry(e) == if e == action_digest && r {
                Some(record@)
            } else {
                old(cache).entry(e)
            },
{
    match uploaded {
        Ok(()) => {
            let put = !cache.always_errors;
            cache.put(action_digest, record);
            put
        },
        Err(_) => false,
    }
}

} // verus!
