use flowgen::cache::{Cache, CacheBuilder, CacheError, CacheOptions, VersionedCache, DEFAULT_HISTORY};

#[test]
fn test_cache_options_default() {
    let options = CacheOptions { insert_key: None, retrieve_key: None };

    assert!(options.insert_key.is_none());
    assert!(options.retrieve_key.is_none());
}

fn ready(history: usize) -> VersionedCache {
    VersionedCache::new(history).init("test_bucket").unwrap()
}

#[test]
fn get_after_put_returns_value() {
    let mut c = ready(DEFAULT_HISTORY);
    c.put("existing_key", b"existing_value".to_vec()).unwrap();
    assert_eq!(c.get("existing_key").unwrap(), b"existing_value".to_vec());
}

#[test]
fn get_of_unset_key_is_not_found() {
    let mut c = ready(DEFAULT_HISTORY);
    assert_eq!(c.get("missing").unwrap_err(), CacheError::NotFound);
    c.put("other", vec![1]).unwrap();
    assert_eq!(c.get("missing").unwrap_err(), CacheError::NotFound);
}

#[test]
fn latest_put_wins() {
    let mut c = ready(DEFAULT_HISTORY);
    c.put("cursor", vec![1]).unwrap();
    c.put("cursor", vec![2]).unwrap();
    c.put("other", vec![9]).unwrap();
    assert_eq!(c.get("cursor").unwrap(), vec![2]);
    assert_eq!(c.get("other").unwrap(), vec![9]);
}

#[test]
fn empty_value_round_trips() {
    let mut c = ready(DEFAULT_HISTORY);
    c.put("k", Vec::new()).unwrap();
    assert_eq!(c.get("k").unwrap(), Vec::<u8>::new());
}

#[test]
fn history_keeps_last_revisions() {
    let mut c = ready(3);
    for v in 0..5u8 {
        c.put("k", vec![v]).unwrap();
    }
    assert_eq!(c.revisions("k"), vec![vec![2], vec![3], vec![4]]);
    assert!(c.revisions("absent").is_empty());
}

#[test]
fn default_history_is_ten() {
    assert_eq!(DEFAULT_HISTORY, 10);
    let mut c = ready(DEFAULT_HISTORY);
    for v in 0..12u8 {
        c.put("k", vec![v]).unwrap();
    }
    assert_eq!(c.revisions("k").len(), 10);
    assert_eq!(c.revisions("k")[0], vec![2]);
}

#[test]
fn zero_history_keeps_one() {
    let mut c = ready(0);
    c.put("k", vec![1]).unwrap();
    c.put("k", vec![2]).unwrap();
    assert_eq!(c.revisions("k"), vec![vec![2]]);
}

#[test]
fn use_before_init_fails() {
    let mut c = VersionedCache::new(DEFAULT_HISTORY);
    assert_eq!(c.put("k", vec![1]), Err(CacheError::NotInitialized));
    assert_eq!(c.get("k"), Err(CacheError::NotInitialized));
}

#[test]
fn init_is_idempotent() {
    let mut c = ready(DEFAULT_HISTORY);
    c.put("k", vec![5]).unwrap();
    let c = c.init("test_bucket").unwrap();
    assert_eq!(c.get("k").unwrap(), vec![5]);
}

#[test]
fn cache_builder_needs_credentials() {
    assert_eq!(CacheBuilder::new().build().unwrap_err(), CacheError::MissingCredentials);
    let c = CacheBuilder::new().credentials_path("/etc/nats.creds".to_string()).build().unwrap();
    assert_eq!(c.credentials_path, "/etc/nats.creds");
    let b = c.bucket_config("replay");
    assert_eq!(b.bucket, "replay");
    assert_eq!(b.history, 10);
}
