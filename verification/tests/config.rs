use filecache::config::{default_work_dir, BlobCacheConfig};
use filecache::error::{CacheError, OsFailure, EINVAL, ENOENT};
use filecache::work_dir::{WorkDirEvent, WorkDirStep};
use std::path::Path;
use vmm_sys_util::tempdir::TempDir;
use vmm_sys_util::tempfile::TempFile;

fn decode(text: &str) -> BlobCacheConfig {
    let value: serde_json::Value = serde_json::from_str(text).unwrap();
    BlobCacheConfig::from_fields(
        value.get("work_dir").map(|dir| dir.as_str().unwrap().to_string()),
        value.get("disable_indexed_map").map(|disable| disable.as_bool().unwrap()),
    )
}

fn stat(path: &str) -> Result<bool, OsFailure> {
    match Path::new(path).metadata() {
        Ok(metadata) => Ok(metadata.is_dir()),
        Err(error) => Err(OsFailure {
            detail: error.to_string(),
            last_os_error: error.raw_os_error().unwrap_or(0),
        }),
    }
}

fn failure(detail: &str, last_os_error: i32) -> OsFailure {
    OsFailure { detail: detail.to_string(), last_os_error }
}

fn result(step: WorkDirStep<'_>) -> Result<String, CacheError> {
    match step {
        WorkDirStep::Done(result) => result.map(|dir| dir.to_string()),
        other => panic!("unfinished: {:?}", other),
    }
}

#[test]
fn test_blob_cache_config() {
    let tmp_dir = TempDir::new().unwrap();
    let dir = tmp_dir.as_path().to_path_buf();
    let s = format!(
        r###"
        {{
            "work_dir": {:?}
        }}
        "###,
        dir
    );

    let mut blob_config = decode(&s);
    assert_eq!(blob_config.disable_indexed_map, false);
    assert_eq!(blob_config.work_dir, dir.to_str().unwrap());

    let tmp_file = TempFile::new().unwrap();
    let file = tmp_file.as_path().to_path_buf();
    blob_config.work_dir = file.to_str().unwrap().to_owned();
    let event = WorkDirEvent::Stat(stat(&blob_config.work_dir));
    assert!(result(blob_config.get_work_dir(event)).is_err());
}

#[test]
fn existing_directory_is_the_work_dir() {
    let tmp_dir = TempDir::new().unwrap();
    let dir = tmp_dir.as_path().to_str().unwrap().to_string();
    let config = BlobCacheConfig::from_fields(Some(dir.clone()), None);
    let event = WorkDirEvent::Stat(stat(&config.work_dir));
    assert_eq!(result(config.get_work_dir(event)).unwrap(), dir);
}

#[test]
fn left_out_fields_take_their_defaults() {
    assert_eq!(default_work_dir(), ".");
    let config = decode("{}");
    assert_eq!(config.work_dir, ".");
    assert!(!config.disable_indexed_map);
    let config = decode(r#"{"disable_indexed_map": true}"#);
    assert_eq!(config.work_dir, ".");
    assert!(config.disable_indexed_map);
}

#[test]
fn clone_keeps_both_fields() {
    let config = BlobCacheConfig::from_fields(Some("/cache".to_string()), Some(true));
    let copy = config.clone();
    assert_eq!(copy.work_dir, "/cache");
    assert!(copy.disable_indexed_map);
}

#[test]
fn missing_directory_is_created_and_examined_again() {
    let config = BlobCacheConfig::from_fields(Some("/cache".to_string()), None);
    let step = config.get_work_dir(WorkDirEvent::Stat(Err(failure("absent", ENOENT))));
    assert!(matches!(step, WorkDirStep::CreateDirAll));
    let step = config.get_work_dir(WorkDirEvent::CreateDirAll(Ok(())));
    assert!(matches!(step, WorkDirStep::StatCreated));
    let step = config.get_work_dir(WorkDirEvent::StatCreated(Ok(true)));
    assert_eq!(result(step).unwrap(), "/cache");
}

#[test]
fn plain_file_is_no_work_dir() {
    let config = BlobCacheConfig::from_fields(Some("/cache".to_string()), None);
    for event in vec![WorkDirEvent::Stat(Ok(false)), WorkDirEvent::StatCreated(Ok(false))] {
        let error = result(config.get_work_dir(event)).unwrap_err();
        assert!(matches!(error, CacheError::NotADirectory { .. }));
        assert_eq!(error.os_code(), Some(2));
        assert_eq!(error.message().unwrap(), "blobcache work_dir /cache is not a directory");
    }
}

#[test]
fn failed_creation_is_the_error() {
    let config = BlobCacheConfig::from_fields(Some("/cache".to_string()), None);
    let event = WorkDirEvent::CreateDirAll(Err(failure("Permission denied", 13)));
    let error = result(config.get_work_dir(event)).unwrap_err();
    assert!(matches!(error, CacheError::WorkDirUnavailable { .. }));
    assert_eq!(error.os_code(), Some(13));
    assert_eq!(
        error.message().unwrap(),
        "fail to stat blobcache work_dir /cache: Permission denied"
    );
}

#[test]
fn failed_second_stat_is_the_error() {
    let config = BlobCacheConfig::from_fields(Some("/cache".to_string()), None);
    let event = WorkDirEvent::StatCreated(Err(failure("gone", ENOENT)));
    let error = result(config.get_work_dir(event)).unwrap_err();
    assert_eq!(error.os_code(), Some(ENOENT));
    assert_eq!(error.message().unwrap(), "fail to stat blobcache work_dir /cache: gone");
}

#[test]
fn other_errors_explain_themselves() {
    let error = CacheError::InvalidConfig(serde_json::from_str::<bool>("no").unwrap_err());
    assert_eq!(error.os_code(), Some(EINVAL));
    assert_eq!(error.os_code(), Some(22));
    assert!(error.message().is_none());
    let error = CacheError::Runtime(std::io::Error::from_raw_os_error(11));
    assert!(error.os_code().is_none());
    assert!(error.message().is_none());
    let error = CacheError::Workers(std::io::Error::from_raw_os_error(12));
    assert!(error.os_code().is_none());
    assert!(error.message().is_none());
}
