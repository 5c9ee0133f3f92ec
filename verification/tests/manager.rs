use filecache::config::{BlobCacheConfig, CacheConfig};
use filecache::error::{CacheError, OsFailure};
use filecache::manager::{select_idle, BlobCacheStep, FileCacheMgr};
use filecache::model::Registered;
use filecache::setup::{RuntimeStage, WorkDirProgress, WorkDirStage};
use filecache::work_dir::WorkDirEvent;
use std::io::Error;
use std::sync::Arc;

type Mgr = FileCacheMgr<&'static str, u8, u16, String>;

fn config(cache_config: Result<BlobCacheConfig, serde_json::Error>) -> CacheConfig<u8> {
    CacheConfig { cache_validate: true, cache_compressed: false, cache_config, prefetch_config: 3 }
}

fn begin() -> WorkDirStage<&'static str, u8> {
    let blob_config = BlobCacheConfig::from_fields(Some("/cache".to_string()), Some(true));
    Mgr::new(config(Ok(blob_config)), "backend", "cache-id").unwrap()
}

fn with_work_dir() -> RuntimeStage<&'static str, u8> {
    match begin().advance(WorkDirEvent::Stat(Ok(true))) {
        WorkDirProgress::Ready(stage) => stage,
        _ => panic!("the directory is usable"),
    }
}

fn manager() -> Mgr {
    match with_work_dir().start_runtime() {
        Ok(stage) => stage.with_workers(Ok(9)).unwrap(),
        Err(_) => panic!("the runtime starts"),
    }
}

type Entry = Arc<Registered<String>>;

fn failed(result: Result<Entry, Error>) -> Option<i32> {
    match result {
        Ok(_) => panic!("the creation failed"),
        Err(error) => error.raw_os_error(),
    }
}

fn create(mgr: &mut Mgr, blob_id: &str, entry: &str) -> Entry {
    mgr.get_or_create_cache_entry(blob_id, Ok(entry.to_string())).unwrap()
}

fn content(mgr: &Mgr, blob_id: &str) -> Option<String> {
    mgr.get(blob_id).map(|entry| entry.entry.clone())
}

fn failure(detail: &str, last_os_error: i32) -> OsFailure {
    OsFailure { detail: detail.to_string(), last_os_error }
}

#[test]
fn manager_holds_what_it_was_set_up_with() {
    let mgr = manager();
    assert_eq!(*mgr.backend(), "backend");
    assert_eq!(mgr.metrics().id(), "cache-id");
    assert_eq!(mgr.metrics().work_dir(), "/cache");
    assert_eq!(*mgr.prefetch_config(), 3);
    assert_eq!(*mgr.worker_mgr(), 9);
    assert_eq!(mgr.work_dir(), "/cache");
    assert!(mgr.validate());
    assert!(mgr.disable_indexed_map());
    assert!(!mgr.is_compressed());
    assert!(mgr.user_counts().is_empty());
}

#[test]
fn runtime_has_one_worker_and_runs_blocking_work() {
    let runtime = manager().runtime();
    assert_eq!(runtime.metrics().num_workers(), 1);
    let task = runtime.spawn_blocking(|| 6 * 7);
    assert_eq!(runtime.block_on(task).unwrap(), 42);
}

#[test]
fn undecodable_config_ends_the_setup() {
    let error = serde_json::from_str::<bool>("{").unwrap_err();
    match Mgr::new(config(Err(error)), "backend", "cache-id") {
        Err(CacheError::InvalidConfig(_)) => {}
        _ => panic!("the configuration is invalid"),
    }
}

#[test]
fn work_dir_is_created_during_setup() {
    let stage = begin();
    assert_eq!(stage.work_dir(), "/cache");
    let stage = match stage.advance(WorkDirEvent::Stat(Err(failure("absent", 2)))) {
        WorkDirProgress::CreateDirAll(stage) => stage,
        _ => panic!("the directory has to be created"),
    };
    let stage = match stage.advance(WorkDirEvent::CreateDirAll(Ok(()))) {
        WorkDirProgress::StatCreated(stage) => stage,
        _ => panic!("the directory has to be examined again"),
    };
    match stage.advance(WorkDirEvent::StatCreated(Ok(true))) {
        WorkDirProgress::Ready(stage) => assert_eq!(stage.metrics.work_dir(), "/cache"),
        _ => panic!("the directory is usable"),
    }
}

#[test]
fn unusable_work_dir_ends_the_setup() {
    match begin().advance(WorkDirEvent::Stat(Ok(false))) {
        WorkDirProgress::Failed(error) => assert_eq!(error.os_code(), Some(2)),
        _ => panic!("the directory is a file"),
    }
    match begin().advance(WorkDirEvent::CreateDirAll(Err(failure("denied", 13)))) {
        WorkDirProgress::Failed(error) => assert_eq!(error.os_code(), Some(13)),
        _ => panic!("the directory cannot be created"),
    }
}

#[test]
fn failed_runtime_ends_the_setup() {
    match with_work_dir().with_runtime(Err(Error::from_raw_os_error(11))) {
        Err(CacheError::Runtime(error)) => assert_eq!(error.raw_os_error(), Some(11)),
        _ => panic!("there is no runtime"),
    }
}

#[test]
fn failed_workers_end_the_setup() {
    let stage = match with_work_dir().start_runtime() {
        Ok(stage) => stage,
        Err(_) => panic!("the runtime starts"),
    };
    let mgr: Result<Mgr, CacheError> = stage.with_workers(Err(Error::from_raw_os_error(12)));
    match mgr {
        Err(CacheError::Workers(error)) => assert_eq!(error.raw_os_error(), Some(12)),
        _ => panic!("there are no workers"),
    }
}

#[test]
fn entry_is_created_once_and_shared() {
    let mut mgr = manager();
    assert!(mgr.get("a").is_none());
    assert!(matches!(mgr.get_blob_cache("a"), BlobCacheStep::Create));
    assert!(!mgr.metrics().has_underlying_file("a"));
    let first = create(&mut mgr, "a", "first");
    assert_eq!(first.entry, "first");
    assert!(mgr.metrics().has_underlying_file("a"));
    assert!(Arc::ptr_eq(&first, &mgr.get("a").unwrap()));
    match mgr.get_blob_cache("a") {
        BlobCacheStep::Ready(entry) => assert!(Arc::ptr_eq(&first, &entry)),
        BlobCacheStep::Create => panic!("the blob has an entry"),
    }
}

#[test]
fn first_of_two_racing_entries_wins() {
    let mut mgr = manager();
    let first = create(&mut mgr, "a", "first");
    let second = create(&mut mgr, "a", "second");
    assert!(Arc::ptr_eq(&first, &second));
    assert_eq!(content(&mgr, "a").unwrap(), "first");
}

#[test]
fn failed_creation_changes_nothing() {
    let mut mgr = manager();
    let result = mgr.get_or_create_cache_entry("a", Err(Error::from_raw_os_error(28)));
    assert_eq!(failed(result), Some(28));
    assert!(mgr.get("a").is_none());
    assert!(!mgr.metrics().has_underlying_file("a"));
    create(&mut mgr, "a", "entry");
    let result = mgr.get_or_create_cache_entry("a", Err(Error::from_raw_os_error(5)));
    assert_eq!(failed(result), Some(5));
    assert_eq!(content(&mgr, "a").unwrap(), "entry");
}

#[test]
fn creations_for_different_blobs_commute() {
    let mut one = manager();
    create(&mut one, "a", "x");
    create(&mut one, "b", "y");
    let mut two = manager();
    create(&mut two, "b", "y");
    create(&mut two, "a", "x");
    for id in vec!["a", "b", "c"] {
        assert_eq!(content(&one, id), content(&two, id));
        assert_eq!(one.metrics().has_underlying_file(id), two.metrics().has_underlying_file(id));
    }
}

#[test]
fn gc_drops_idle_entries_and_keeps_used_ones() {
    let mut mgr = manager();
    let used = create(&mut mgr, "used", "u");
    create(&mut mgr, "idle", "i");
    create(&mut mgr, "other", "o");
    mgr.gc();
    assert!(Arc::ptr_eq(&used, &mgr.get("used").unwrap()));
    assert!(mgr.get("idle").is_none());
    assert!(mgr.get("other").is_none());
    assert!(mgr.metrics().has_underlying_file("idle"));
    assert!(mgr.metrics().has_underlying_file("used"));
    drop(used);
    mgr.gc();
    assert!(mgr.get("used").is_none());
    mgr.gc();
    assert!(mgr.user_counts().is_empty());
}

#[test]
fn user_counts_take_in_the_manager() {
    let mut mgr = manager();
    create(&mut mgr, "a", "x");
    let held = create(&mut mgr, "b", "y");
    let copy = held.clone();
    let counts = mgr.user_counts();
    assert_eq!(counts, vec![("a".to_string(), 1), ("b".to_string(), 3)]);
    assert_eq!(copy.entry, "y");
    assert_eq!(select_idle(&counts), vec!["a".to_string()]);
}

#[test]
fn idle_means_one_user() {
    let counts = vec![
        ("a".to_string(), 1),
        ("b".to_string(), 2),
        ("c".to_string(), 1),
        ("d".to_string(), 7),
    ];
    assert_eq!(select_idle(&counts), vec!["a".to_string(), "c".to_string()]);
    assert!(select_idle(&Vec::new()).is_empty());
}

#[test]
fn entry_taken_up_before_reclaim_is_spared() {
    let mut mgr = manager();
    create(&mut mgr, "a", "x");
    let idle = select_idle(&mgr.user_counts());
    assert_eq!(idle, vec!["a".to_string()]);
    let taken = mgr.get("a").unwrap();
    mgr.reclaim_if_idle(&idle[0]);
    assert!(Arc::ptr_eq(&taken, &mgr.get("a").unwrap()));
    drop(taken);
    mgr.reclaim_if_idle(&idle[0]);
    assert!(mgr.get("a").is_none());
    mgr.reclaim_if_idle(&idle[0]);
    assert!(mgr.get("a").is_none());
}

#[test]
fn reclaim_goes_by_the_given_users() {
    let mut mgr = manager();
    create(&mut mgr, "a", "x");
    create(&mut mgr, "b", "y");
    create(&mut mgr, "c", "z");
    mgr.reclaim("a", Some(2));
    mgr.reclaim("b", Some(1));
    mgr.reclaim("d", None);
    assert!(mgr.get("a").is_some());
    assert!(mgr.get("b").is_none());
    assert!(mgr.get("c").is_some());
    let ids: Vec<String> = mgr.user_counts().into_iter().map(|count| count.0).collect();
    assert_eq!(ids, vec!["a".to_string(), "c".to_string()]);
}

#[test]
fn dropped_blob_is_created_anew() {
    let mut mgr = manager();
    create(&mut mgr, "a", "old");
    mgr.gc();
    assert!(matches!(mgr.get_blob_cache("a"), BlobCacheStep::Create));
    assert_eq!(create(&mut mgr, "a", "new").entry, "new");
}

#[test]
fn any_number_of_racing_creations_share_one_entry() {
    let mut mgr = manager();
    let outcomes = vec![None, Some("first"), None, Some("second"), Some("third")];
    let mut handed_out: Vec<Entry> = Vec::new();
    for outcome in outcomes {
        let created = match outcome {
            Some(entry) => Ok(entry.to_string()),
            None => Err(Error::from_raw_os_error(28)),
        };
        match mgr.get_or_create_cache_entry("a", created) {
            Ok(entry) => handed_out.push(entry),
            Err(error) => assert_eq!(error.raw_os_error(), Some(28)),
        }
    }
    assert_eq!(handed_out.len(), 3);
    let registered = mgr.get("a").unwrap();
    assert_eq!(registered.entry, "first");
    for entry in handed_out.iter() {
        assert!(Arc::ptr_eq(entry, &registered));
    }
    assert_eq!(mgr.user_counts().len(), 1);
}

#[test]
fn failed_racing_creations_add_nothing() {
    let mut mgr = manager();
    for code in vec![28, 5, 12] {
        let result = mgr.get_or_create_cache_entry("a", Err(Error::from_raw_os_error(code)));
        assert_eq!(failed(result), Some(code));
    }
    assert!(mgr.get("a").is_none());
    assert!(mgr.user_counts().is_empty());
}

#[test]
fn second_gc_drops_nothing() {
    let mut mgr = manager();
    let one = create(&mut mgr, "one", "1");
    create(&mut mgr, "idle", "i");
    let two = create(&mut mgr, "two", "2");
    mgr.gc();
    let counts = mgr.user_counts();
    assert_eq!(counts, vec![("one".to_string(), 2), ("two".to_string(), 2)]);
    mgr.gc();
    assert_eq!(mgr.user_counts(), counts);
    assert!(Arc::ptr_eq(&one, &mgr.get("one").unwrap()));
    assert!(Arc::ptr_eq(&two, &mgr.get("two").unwrap()));
}

#[test]
fn held_entry_stays_registered() {
    let mut mgr = manager();
    let held = create(&mut mgr, "a", "x");
    mgr.gc();
    create(&mut mgr, "b", "y");
    create(&mut mgr, "a", "z");
    mgr.reclaim_if_idle("a");
    mgr.gc();
    assert!(Arc::ptr_eq(&held, &mgr.get("a").unwrap()));
    assert!(mgr.get("b").is_none());
}

#[test]
fn clone_of_an_entry_keeps_it_too() {
    let mut mgr = manager();
    let held = create(&mut mgr, "a", "x").clone();
    mgr.gc();
    assert!(Arc::ptr_eq(&held, &mgr.get("a").unwrap()));
}

#[test]
fn entries_of_different_blobs_are_not_shared() {
    let mut mgr = manager();
    let one = create(&mut mgr, "a", "same");
    let two = create(&mut mgr, "b", "same");
    assert!(!Arc::ptr_eq(&one, &two));
    assert!(Arc::ptr_eq(&one, &mgr.get("a").unwrap()));
    assert!(Arc::ptr_eq(&two, &mgr.get("b").unwrap()));
}

#[test]
fn entry_held_after_its_blob_was_dropped_is_not_shared() {
    let mut mgr = manager();
    let old = create(&mut mgr, "a", "same");
    mgr.reclaim("a", Some(1));
    assert!(mgr.get("a").is_none());
    let other = create(&mut mgr, "b", "same");
    assert!(!Arc::ptr_eq(&old, &other));
    let anew = create(&mut mgr, "a", "same");
    assert!(!Arc::ptr_eq(&other, &anew));
}

#[test]
fn registering_tells_whether_the_entry_is_new() {
    let mut mgr = manager();
    let (first, is_new) = mgr.register_entry("a", "first".to_string());
    assert!(is_new);
    assert_eq!(first.entry, "first");
    let (second, is_new) = mgr.register_entry("a", "second".to_string());
    assert!(!is_new);
    assert!(Arc::ptr_eq(&first, &second));
    assert!(mgr.metrics().has_underlying_file("a"));
}

#[test]
fn flusher_is_started_with_its_settings() {
    let settings = filecache::runtime::flusher_settings();
    assert_eq!(settings.worker_threads, 1);
    assert_eq!(settings.thread_keep_alive, 10);
    assert_eq!(settings.max_blocking_threads, 8);
    assert_eq!(settings.thread_name, "cache-flusher");
    let runtime = filecache::runtime::start_flusher().unwrap();
    assert_eq!(runtime.metrics().num_workers(), 1);
}
