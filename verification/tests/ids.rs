use slayerfs::meta::database::ids::{
    AtomicIdGenerator, PostgresIdGenerator, RowReply, SqliteIdGenerator,
};
use slayerfs::meta::error::{MetaErrorExt, MetaErrorHelper};
use slayerfs::meta::etcd::watch::{CacheInvalidationEvent, EtcdWatchWorker};
use slayerfs::meta::store::MetaError;
use slayerfs::meta::transaction::{CasResult, TransactionMetrics};
use slayerfs::meta::types::Inode;
use std::sync::{Arc, Mutex};

#[test]
fn test_atomic_generator() {
    let mut generator = AtomicIdGenerator::new(100);
    let id1 = generator.next_id();
    let id2 = generator.next_id();
    let id3 = generator.next_id();
    assert_eq!(id1, 100);
    assert_eq!(id2, 101);
    assert_eq!(id3, 102);
}

#[test]
fn test_atomic_generator_concurrent() {
    let generator = Arc::new(Mutex::new(AtomicIdGenerator::new(1)));
    let runtime = tokio::runtime::Builder::new_multi_thread().worker_threads(4).build().unwrap();
    let mut all_ids: Vec<i64> = runtime.block_on(async move {
        let mut handles = vec![];
        for _ in 0..10 {
            let generator_clone = generator.clone();
            handles.push(tokio::spawn(async move {
                let mut ids = vec![];
                for _ in 0..100 {
                    ids.push(generator_clone.lock().unwrap().next_id());
                }
                ids
            }));
        }
        let mut all = vec![];
        for handle in handles {
            all.extend(handle.await.unwrap());
        }
        all
    });
    all_ids.sort();
    all_ids.dedup();
    assert_eq!(all_ids.len(), 1000);
}

#[test]
fn the_counter_goes_round() {
    let mut generator = AtomicIdGenerator::new(i64::MAX);
    assert_eq!(generator.next_id(), i64::MAX);
    assert_eq!(generator.next_id(), i64::MIN);
}

#[test]
fn database_numbers() {
    let pg = PostgresIdGenerator::new();
    assert_eq!(
        pg.initialize(),
        "CREATE SEQUENCE IF NOT EXISTS slayerfs_inode_seq START 2 INCREMENT 1"
    );
    assert_eq!(pg.next_id_query(), "SELECT nextval('slayerfs_inode_seq')");
    let pg = pg.with_sequence_name("numbers".to_string());
    assert_eq!(pg.next_id_query(), "SELECT nextval('numbers')");
    assert_eq!(PostgresIdGenerator::next_id(RowReply::Value(7)).unwrap(), 7);
    assert_eq!(
        PostgresIdGenerator::next_id(RowReply::NoRow).unwrap_err().message(),
        "Internal error: Failed to generate ID"
    );
    assert_eq!(SqliteIdGenerator::initialize(RowReply::Value(0)).unwrap(), true);
    assert_eq!(SqliteIdGenerator::initialize(RowReply::Value(3)).unwrap(), false);
    assert_eq!(SqliteIdGenerator::next_id(1), None);
    assert_eq!(SqliteIdGenerator::next_id(2), Some(2));
}

#[test]
fn test_errno_conversion() {
    let err = MetaError::not_found(Inode(1));
    assert_eq!(err.to_errno(), libc::ENOENT);
    let err = MetaError::already_exists(Inode::root(), "test".to_string());
    assert_eq!(err.to_errno(), libc::EEXIST);
    let err = MetaError::not_directory(Inode(1));
    assert_eq!(err.to_errno(), libc::ENOTDIR);
    let err = MetaError::directory_not_empty(Inode(1));
    assert_eq!(err.to_errno(), libc::ENOTEMPTY);
}

#[test]
fn every_error_has_its_code() {
    let text = || "x".to_string();
    assert_eq!(MetaError::ParentNotFound(3).to_errno(), libc::ENOENT);
    assert_eq!(MetaError::InvalidPath(text()).to_errno(), libc::EINVAL);
    assert_eq!(MetaError::NotSupported(text()).to_errno(), libc::ENOTSUP);
    assert_eq!(MetaError::NotImplemented.to_errno(), libc::ENOSYS);
    assert_eq!(MetaError::Database(text()).to_errno(), libc::EIO);
    assert_eq!(MetaError::Serialization(text()).to_errno(), libc::EIO);
    assert_eq!(MetaError::Internal(text()).to_errno(), libc::EIO);
    assert_eq!(MetaError::Config(text()).to_errno(), libc::EINVAL);
}

#[test]
fn test_parse_forward_key() {
    let events = EtcdWatchWorker::parse_key_to_events("f:10:file.txt");
    assert_eq!(events.len(), 1);
    assert!(matches!(events[0], CacheInvalidationEvent::InvalidateParentChildren(10)));
}

#[test]
fn test_parse_reverse_key() {
    let events = EtcdWatchWorker::parse_key_to_events("r:100");
    assert_eq!(events.len(), 1);
    assert!(matches!(events[0], CacheInvalidationEvent::InvalidateInode(100)));
}

#[test]
fn test_parse_children_key() {
    let events = EtcdWatchWorker::parse_key_to_events("c:50");
    assert_eq!(events.len(), 1);
    assert!(matches!(events[0], CacheInvalidationEvent::InvalidateParentChildren(50)));
}

#[test]
fn test_parse_unknown_key() {
    let events = EtcdWatchWorker::parse_key_to_events("unknown:123");
    assert_eq!(events.len(), 0);
}

#[test]
fn keys_without_a_number_make_nothing_stale() {
    assert_eq!(EtcdWatchWorker::parse_key_to_events("f:x:file").len(), 0);
    assert_eq!(EtcdWatchWorker::parse_key_to_events("r:").len(), 0);
    assert_eq!(EtcdWatchWorker::parse_key_to_events("c").len(), 0);
    assert_eq!(EtcdWatchWorker::parse_key_to_events("").len(), 0);
}

#[test]
fn test_cas_result() {
    let success: CasResult<String> = CasResult::Success { value: "test".to_string(), version: 42 };
    assert!(matches!(success, CasResult::Success { .. }));
    let mismatch: CasResult<String> = CasResult::VersionMismatch { current_version: 10 };
    assert!(matches!(mismatch, CasResult::VersionMismatch { .. }));
}

#[test]
fn test_metrics() {
    let mut metrics = TransactionMetrics::new();
    metrics.record_retry(3, 10);
    assert_eq!(metrics.total_retries, 3);
    assert_eq!(metrics.max_retries_hit, 0);
    metrics.record_retry(10, 10);
    assert_eq!(metrics.max_retries_hit, 1);
}

#[test]
fn retries_have_an_average() {
    let mut metrics = TransactionMetrics::new();
    assert_eq!(metrics.average(), (0, 0));
    metrics.record_retry(3, 10);
    assert_eq!(metrics.average(), (3, 1));
    metrics.record_retry(10, 10);
    assert_eq!(metrics.average(), (13, 2));
}
