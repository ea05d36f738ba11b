use named_lock::error::Error;
use named_lock::lock::{marker_is_live, readback_confirms, should_retry, NamedLock};
use named_lock::marker::{format_marker, parse_marker};
use named_lock::store::MarkerStore;

#[test]
fn acquire_free_lock() {
    let lock = NamedLock::create("db").unwrap();
    let mut store = MarkerStore::new();
    assert_eq!(lock.try_lock(&mut store, 1000), Ok(()));
    let stored = store.read_marker().unwrap();
    assert_eq!(parse_marker(&stored), Some(1000));
}

#[test]
fn mutual_exclusion_within_window() {
    let a = NamedLock::create("db").unwrap();
    let b = NamedLock::create("db").unwrap();
    let mut store = MarkerStore::new();
    assert_eq!(a.try_lock(&mut store, 1000), Ok(()));
    assert_eq!(b.try_lock(&mut store, 1000), Err(Error::WouldBlock));
    assert_eq!(b.try_lock(&mut store, 30999), Err(Error::WouldBlock));
    let stored = store.read_marker().unwrap();
    assert_eq!(parse_marker(&stored), Some(1000));
}

#[test]
fn eventual_acquisition_after_unlock() {
    let a = NamedLock::create("db").unwrap();
    let b = NamedLock::create("db").unwrap();
    let mut store = MarkerStore::new();
    assert_eq!(a.try_lock(&mut store, 1000), Ok(()));
    assert_eq!(b.try_lock(&mut store, 1001), Err(Error::WouldBlock));
    assert_eq!(a.unlock(&mut store), Ok(()));
    assert_eq!(b.try_lock(&mut store, 1002), Ok(()));
}

#[test]
fn staleness_reclaim_at_threshold() {
    let a = NamedLock::create("db").unwrap();
    let b = NamedLock::create("db").unwrap();
    let mut store = MarkerStore::new();
    assert_eq!(a.try_lock(&mut store, 1000), Ok(()));
    assert_eq!(b.try_lock(&mut store, 30999), Err(Error::WouldBlock));
    assert_eq!(b.try_lock(&mut store, 31000), Ok(()));
    let stored = store.read_marker().unwrap();
    assert_eq!(parse_marker(&stored), Some(31000));
}

#[test]
fn stale_marker_reclaimed_without_unlock() {
    let a = NamedLock::create("db").unwrap();
    let b = NamedLock::create("db").unwrap();
    let mut store = MarkerStore::new();
    let now: u64 = 100_000;
    assert_eq!(a.try_lock(&mut store, now), Ok(()));
    store.write_marker(format_marker(now - 60_000));
    assert_eq!(b.try_lock(&mut store, now + 10), Ok(()));
    let stored = store.read_marker().unwrap();
    assert_eq!(parse_marker(&stored), Some(now + 10));
}

#[test]
fn unparseable_marker_is_open() {
    let lock = NamedLock::create("db").unwrap();
    let mut store = MarkerStore::new();
    store.write_marker(String::from("garbage"));
    assert_eq!(lock.try_lock(&mut store, 500), Ok(()));
    let stored = store.read_marker().unwrap();
    assert_eq!(parse_marker(&stored), Some(500));
}

#[test]
fn future_marker_counts_as_live() {
    let lock = NamedLock::create("db").unwrap();
    let mut store = MarkerStore::new();
    store.write_marker(format_marker(10_000));
    assert_eq!(lock.try_lock(&mut store, 5_000), Err(Error::WouldBlock));
}

#[test]
fn idempotent_unlock() {
    let lock = NamedLock::create("db").unwrap();
    let mut store = MarkerStore::new();
    assert_eq!(lock.try_lock(&mut store, 1000), Ok(()));
    assert_eq!(lock.unlock(&mut store), Ok(()));
    assert_eq!(lock.unlock(&mut store), Ok(()));
    assert!(store.read_marker().is_none());
}

#[test]
fn name_validation() {
    assert!(NamedLock::create("db").is_ok());
    assert!(NamedLock::create("").is_ok());
    assert!(matches!(NamedLock::create("a/b"), Err(Error::InvalidCharacter)));
    assert!(matches!(NamedLock::create("a\\b"), Err(Error::InvalidCharacter)));
    assert!(matches!(NamedLock::create("a\0b"), Err(Error::InvalidCharacter)));
}

#[test]
fn derived_identifier_is_prefixed() {
    let lock = NamedLock::create("db").unwrap();
    assert_eq!(lock.id(), "named_lock_db");
}

#[test]
fn liveness_decision() {
    assert!(marker_is_live(&format_marker(1000), 1000));
    assert!(marker_is_live(&format_marker(1000), 30999));
    assert!(!marker_is_live(&format_marker(1000), 31000));
    assert!(!marker_is_live("not a number", 0));
    assert!(!marker_is_live("", 0));
}

#[test]
fn readback_decision() {
    assert!(readback_confirms(&format_marker(777), 777));
    assert!(!readback_confirms(&format_marker(778), 777));
    assert!(!readback_confirms("garbage", 777));
}

#[test]
fn retry_only_on_would_block() {
    assert!(should_retry(&Error::WouldBlock));
    assert!(!should_retry(&Error::LockFailed));
    assert!(!should_retry(&Error::UnlockFailed));
    assert!(!should_retry(&Error::CreateFailed));
    assert!(!should_retry(&Error::InvalidCharacter));
}

#[test]
fn error_messages() {
    assert_eq!(Error::InvalidCharacter.message(), "Invalid character in name");
    assert_eq!(Error::CreateFailed.message(), "Failed to create named lock");
    assert_eq!(Error::LockFailed.message(), "Failed to lock named lock");
    assert_eq!(Error::UnlockFailed.message(), "Failed to unlock named lock");
    assert_eq!(Error::WouldBlock.message(), "Named lock would block");
}
