use remote_cache::action_result::{collect_outputs, make_action_result, Command, ProcessResult, ResultSource};
use remote_cache::cache::{CacheConfig, WarningsBehavior};
use remote_cache::model::{empty_digest, Digest, Directory, DirectoryNode, DirectoryStore, FileNode, Fingerprint, RelativePath};
use remote_cache::runner::{create_local_runner, prepare_write, publish_write, CachingCommandRunner, StubActionCache};
use remote_cache::action_result::ActionResultRecord;
use remote_cache::tree::make_tree_for_output_directory;

fn digest(n: u128, size: u64) -> Digest {
    Digest { hash: Fingerprint { high: n, low: n.wrapping_mul(0x9e37_79b9) }, size_bytes: size }
}

fn roland_digest() -> Digest {
    digest(0x0011, 9)
}

fn robin_digest() -> Digest {
    digest(0x0022, 6)
}

fn containing_roland_digest() -> Digest {
    digest(0x0101, 80)
}

fn nested_digest() -> Digest {
    digest(0x0202, 78)
}

fn double_nested_digest() -> Digest {
    digest(0x0303, 78)
}

fn roland_at_root_tree_digest() -> Digest {
    digest(0x0404, 84)
}

fn action_digest() -> Digest {
    digest(0x0505, 140)
}

fn path(s: &str) -> RelativePath {
    RelativePath::new(s.split('/').map(|c| c.to_string()).collect())
}

fn containing_roland() -> Directory {
    Directory {
        files: vec![FileNode { name: "roland.ext".to_string(), digest: roland_digest(), is_executable: false }],
        directories: vec![],
    }
}

fn nested() -> Directory {
    Directory {
        files: vec![],
        directories: vec![DirectoryNode { name: "cats".to_string(), digest: containing_roland_digest() }],
    }
}

fn double_nested() -> Directory {
    Directory {
        files: vec![],
        directories: vec![DirectoryNode { name: "pets".to_string(), digest: nested_digest() }],
    }
}

/// A store holding /pets/cats/roland.ext, rooted at `double_nested_digest()`.
fn pets_store() -> DirectoryStore {
    let mut store = DirectoryStore::new();
    store.store_blob(roland_digest());
    store.record_directory(containing_roland_digest(), containing_roland());
    store.record_directory(nested_digest(), nested());
    store.record_directory(double_nested_digest(), double_nested());
    store
}

fn config(eager_fetch: bool) -> CacheConfig {
    CacheConfig { read_enabled: true, write_enabled: true, eager_fetch, warnings: WarningsBehavior::FirstOnly }
}

fn no_outputs() -> Command {
    Command { output_files: vec![], output_directories: vec![] }
}

fn insert_into_action_cache(cache: &mut StubActionCache, d: Digest, exit_code: i32, stdout: Digest, stderr: Digest) {
    cache.insert(
        d,
        ActionResultRecord {
            exit_code,
            stdout_digest: stdout,
            stderr_digest: stderr,
            output_files: vec![],
            output_directories: vec![],
        },
    );
}

#[test]
fn cache_read_success() {
    let store = DirectoryStore::new();
    let mut local = create_local_runner(1, 1000);
    let mut cache = StubActionCache::new(0, 0);
    let runner = CachingCommandRunner::new(config(false));
    insert_into_action_cache(&mut cache, action_digest(), 0, empty_digest(), empty_digest());

    assert_eq!(local.call_counter, 0);
    let report = runner.run(action_digest(), &no_outputs(), &mut local, &cache, &store);
    assert_eq!(report.exit_code(), Some(0));
    assert_eq!(local.call_counter, 0);
}

#[test]
fn cache_read_skipped_on_errors() {
    let store = DirectoryStore::new();
    let mut local = create_local_runner(1, 100);
    let mut cache = StubActionCache::new(0, 0);
    let runner = CachingCommandRunner::new(config(false));
    insert_into_action_cache(&mut cache, action_digest(), 0, empty_digest(), empty_digest());
    cache.always_errors = true;

    assert_eq!(local.call_counter, 0);
    let report = runner.run(action_digest(), &no_outputs(), &mut local, &cache, &store);
    assert_eq!(report.exit_code(), Some(1));
    assert_eq!(local.call_counter, 1);
}

fn run_with_fetch_policy(eager_fetch: bool) -> (Option<i32>, u64) {
    let store = DirectoryStore::new();
    let mut local = create_local_runner(1, 1000);
    let mut cache = StubActionCache::new(0, 0);
    let runner = CachingCommandRunner::new(config(eager_fetch));
    insert_into_action_cache(&mut cache, action_digest(), 0, roland_digest(), roland_digest());

    assert_eq!(local.call_counter, 0);
    let report = runner.run(action_digest(), &no_outputs(), &mut local, &cache, &store);
    (report.exit_code(), local.call_counter)
}

#[test]
fn cache_read_eager_fetch() {
    let (lazy_exit_code, lazy_local_call_count) = run_with_fetch_policy(false);
    assert_eq!(lazy_exit_code, Some(0));
    assert_eq!(lazy_local_call_count, 0);

    let (eager_exit_code, eager_local_call_count) = run_with_fetch_policy(true);
    assert_eq!(eager_exit_code, Some(1));
    assert_eq!(eager_local_call_count, 1);
}

fn run_race(local_delay_ms: u64, remote_delay_ms: u64, cache_hit: bool) -> (Option<i32>, u64) {
    let store = DirectoryStore::new();
    let mut local = create_local_runner(1, local_delay_ms);
    let mut cache = StubActionCache::new(remote_delay_ms, 0);
    let runner = CachingCommandRunner::new(config(false));
    if cache_hit {
        insert_into_action_cache(&mut cache, action_digest(), 0, empty_digest(), empty_digest());
    }

    assert_eq!(local.call_counter, 0);
    let report = runner.run(action_digest(), &no_outputs(), &mut local, &cache, &store);
    (report.exit_code(), local.call_counter)
}

#[test]
fn cache_read_speculation() {
    // The lookup is faster than the local run.
    let (exit_code, local_call_count) = run_race(200, 0, true);
    assert_eq!(exit_code, Some(0));
    assert_eq!(local_call_count, 0);

    // The local run is faster than the lookup.
    let (exit_code, local_call_count) = run_race(0, 200, true);
    assert_eq!(exit_code, Some(1));
    assert_eq!(local_call_count, 1);

    // The lookup wins but finds nothing, so the local run is awaited.
    let (exit_code, local_call_count) = run_race(200, 0, false);
    assert_eq!(exit_code, Some(1));
    assert_eq!(local_call_count, 1);
}

#[test]
fn cache_write_success() {
    let store = DirectoryStore::new();
    let mut local = create_local_runner(0, 100);
    let mut cache = StubActionCache::new(0, 0);
    let runner = CachingCommandRunner::new(config(false));

    assert_eq!(local.call_counter, 0);
    assert!(cache.action_map.is_empty());

    let report = runner.run(action_digest(), &no_outputs(), &mut local, &cache, &store);
    assert_eq!(report.exit_code(), Some(0));
    assert_eq!(local.call_counter, 1);

    let write = report.pending_write.expect("a write is scheduled");
    let (record, digests) = prepare_write(&write, &vec![]);
    assert_eq!(digests, vec![empty_digest()]);
    assert!(publish_write(&mut cache, write.action_digest, record, &Ok(())));
    assert_eq!(cache.action_map.len(), 1);
    assert_eq!(cache.action_map[0].0, action_digest());
    assert_eq!(cache.action_map[0].1.exit_code, 0);
}

#[test]
fn cache_write_not_for_failures() {
    let store = DirectoryStore::new();
    let mut local = create_local_runner(1, 100);
    let cache = StubActionCache::new(0, 0);
    let runner = CachingCommandRunner::new(config(false));

    assert_eq!(local.call_counter, 0);
    assert!(cache.action_map.is_empty());

    let report = runner.run(action_digest(), &no_outputs(), &mut local, &cache, &store);
    assert_eq!(report.exit_code(), Some(1));
    assert_eq!(local.call_counter, 1);

    assert!(report.pending_write.is_none());
    assert!(cache.action_map.is_empty());
}

#[test]
fn cache_write_does_not_block() {
    let store = DirectoryStore::new();
    let mut local = create_local_runner(0, 100);
    let mut cache = StubActionCache::new(0, 100);
    let runner = CachingCommandRunner::new(config(false));

    assert_eq!(local.call_counter, 0);
    assert!(cache.action_map.is_empty());

    let report = runner.run(action_digest(), &no_outputs(), &mut local, &cache, &store);
    assert_eq!(report.exit_code(), Some(0));
    assert_eq!(local.call_counter, 1);

    // The run has returned, and its write is still to come.
    assert!(cache.action_map.is_empty());
    let write = report.pending_write.expect("a write is scheduled");
    assert_eq!(write.delay_ms, 100);

    let (record, _) = prepare_write(&write, &vec![]);
    assert!(publish_write(&mut cache, write.action_digest, record, &Ok(())));
    assert_eq!(cache.action_map.len(), 1);
    assert_eq!(cache.action_map[0].0, action_digest());
    assert_eq!(cache.action_map[0].1.exit_code, 0);
}

#[test]
fn make_tree_from_directory() {
    let store = pets_store();
    let directory_digest = double_nested_digest();

    let tree = make_tree_for_output_directory(directory_digest, &path("pets"), &store).unwrap();

    // The `pets/` prefix is not stored in the tree.
    let root_dir = tree.root;
    assert_eq!(root_dir.files.len(), 0);
    assert_eq!(root_dir.directories.len(), 1);
    let dir_node = &root_dir.directories[0];
    assert_eq!(dir_node.name, "cats");
    assert_eq!(dir_node.digest, containing_roland_digest());
    let children = tree.children;
    assert_eq!(children.len(), 1);
    let child_dir = &children[0];
    assert_eq!(child_dir.files.len(), 1);
    assert_eq!(child_dir.directories.len(), 0);
    let file_node = &child_dir.files[0];
    assert_eq!(file_node.name, "roland.ext");
    assert_eq!(file_node.digest, roland_digest());

    // Output directories that do not exist give no tree.
    assert!(make_tree_for_output_directory(directory_digest, &path("animals"), &store).is_none());
    assert!(make_tree_for_output_directory(directory_digest, &path("pets/xyzzy"), &store).is_none());
}

#[test]
fn extract_output_file() {
    let mut store = DirectoryStore::new();
    store.store_blob(roland_digest());
    store.record_directory(containing_roland_digest(), containing_roland());
    store.record_directory(nested_digest(), nested());
    let directory_digest = nested_digest();

    let file_node = remote_cache::tree::extract_output_file(directory_digest, &path("cats/roland.ext"), &store).unwrap();

    // The entry holds the file's name only; the action result holds its path.
    assert_eq!(file_node.name, "roland.ext");
    assert_eq!(file_node.digest, roland_digest());

    assert!(remote_cache::tree::extract_output_file(directory_digest, &path("animals.ext"), &store).is_none());
    assert!(remote_cache::tree::extract_output_file(directory_digest, &path("cats"), &store).is_none());
    assert!(remote_cache::tree::extract_output_file(directory_digest, &path("cats/xyzzy"), &store).is_none());
}

#[test]
fn make_action_result_basic() {
    let mut store = pets_store();
    store.store_blob(robin_digest());

    let command = Command {
        output_files: vec![path("pets/cats/roland.ext")],
        output_directories: vec![path("pets/cats")],
    };

    let process_result = ProcessResult {
        stdout_digest: roland_digest(),
        stderr_digest: robin_digest(),
        output_directory: double_nested_digest(),
        exit_code: 102,
        source: ResultSource::RanLocally,
    };

    let outputs = collect_outputs(&command, &process_result, &store);
    assert_eq!(outputs.trees.len(), 1);
    let (action_result, digests) =
        make_action_result(&process_result, &outputs, &vec![roland_at_root_tree_digest()]);

    assert_eq!(action_result.exit_code, process_result.exit_code);
    assert_eq!(action_result.stdout_digest, process_result.stdout_digest);
    assert_eq!(action_result.stderr_digest, process_result.stderr_digest);

    assert_eq!(action_result.output_files.len(), 1);
    assert_eq!(action_result.output_files[0].path, path("pets/cats/roland.ext"));
    assert_eq!(action_result.output_files[0].digest, roland_digest());
    assert!(!action_result.output_files[0].is_executable);

    assert_eq!(action_result.output_directories.len(), 1);
    assert_eq!(action_result.output_directories[0].path, path("pets/cats"));
    assert_eq!(action_result.output_directories[0].tree_digest, roland_at_root_tree_digest());

    let mut actual = digests.clone();
    actual.sort_by_key(|d| d.hash.high);
    let mut expected = vec![roland_digest(), robin_digest(), roland_at_root_tree_digest()];
    expected.sort_by_key(|d| d.hash.high);
    assert_eq!(actual, expected);
}
