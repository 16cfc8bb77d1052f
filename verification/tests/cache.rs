use std::sync::Arc;

use kafka_web::cache::{Cache, KeyScope, ReplicatedCache, Replicator};
use kafka_web::codec::split_frame2;
use kafka_web::errors::CacheError;

fn factory(capacity: usize, scope: KeyScope) -> Replicator {
    Replicator::new("localhost:9092", "cluster-state", capacity, scope).unwrap()
}

#[test]
fn insert_then_get_returns_value() {
    let mut rep = factory(16, KeyScope::Bare);
    let mut cache: Cache<String> = rep.create_cache("topics");
    let shared = cache
        .insert(&mut rep.publisher, "topic-1".to_string(), "three partitions".to_string())
        .unwrap();
    assert_eq!(*shared, "three partitions".to_string());
    let got = cache.get(&"topic-1".to_string()).unwrap();
    assert_eq!(*got, "three partitions".to_string());
}

#[test]
fn get_never_inserted_is_absent() {
    let mut rep = factory(16, KeyScope::Bare);
    let mut cache: Cache<String> = rep.create_cache("topics");
    assert!(cache.get(&"missing".to_string()).is_none());
    cache
        .insert(&mut rep.publisher, "present".to_string(), "value".to_string())
        .unwrap();
    assert!(cache.get(&"missing".to_string()).is_none());
}

#[test]
fn keys_returns_exactly_the_inserted_set() {
    let mut rep = factory(16, KeyScope::Bare);
    let mut cache: Cache<String> = rep.create_cache("topics");
    for name in ["alpha", "beta", "gamma"] {
        cache
            .insert(&mut rep.publisher, name.to_string(), "v".to_string())
            .unwrap();
    }
    let mut keys = cache.keys();
    keys.sort();
    assert_eq!(keys, vec!["alpha".to_string(), "beta".to_string(), "gamma".to_string()]);
}

#[test]
fn overwrite_keeps_one_key() {
    let mut rep = factory(16, KeyScope::Bare);
    let mut cache: Cache<String> = rep.create_cache("topics");
    cache
        .insert(&mut rep.publisher, "k".to_string(), "first".to_string())
        .unwrap();
    cache
        .insert(&mut rep.publisher, "k".to_string(), "second".to_string())
        .unwrap();
    assert_eq!(cache.keys().len(), 1);
    assert_eq!(*cache.get(&"k".to_string()).unwrap(), "second".to_string());
}

#[test]
fn transport_failure_leaves_map_unchanged() {
    let mut rep = factory(1, KeyScope::Bare);
    let mut cache: Cache<String> = rep.create_cache("topics");
    cache
        .insert(&mut rep.publisher, "k1".to_string(), "v1".to_string())
        .unwrap();
    // The queue (capacity 1) is saturated: the next publish cannot even
    // be enqueued, and the local map must stay exactly as it was.
    let before = cache.get(&"k1".to_string());
    let err = cache
        .insert(&mut rep.publisher, "k2".to_string(), "v2".to_string())
        .unwrap_err();
    assert_eq!(err, CacheError::Transport);
    assert!(cache.get(&"k2".to_string()).is_none());
    let err2 = cache
        .insert(&mut rep.publisher, "k1".to_string(), "changed".to_string())
        .unwrap_err();
    assert_eq!(err2, CacheError::Transport);
    let after = cache.get(&"k1".to_string());
    assert_eq!(*before.unwrap(), *after.unwrap());
    assert_eq!(*cache.get(&"k1".to_string()).unwrap(), "v1".to_string());
}

#[test]
fn returned_values_are_independent_snapshots() {
    let mut rep = factory(16, KeyScope::Bare);
    let mut cache: Cache<String> = rep.create_cache("topics");
    cache
        .insert(&mut rep.publisher, "k".to_string(), "old".to_string())
        .unwrap();
    let first = cache.get(&"k".to_string()).unwrap();
    cache
        .insert(&mut rep.publisher, "k".to_string(), "new".to_string())
        .unwrap();
    let second = cache.get(&"k".to_string()).unwrap();
    assert!(!Arc::ptr_eq(&first, &second));
    assert_eq!(*first, "old".to_string());
    assert_eq!(*second, "new".to_string());
}

#[test]
fn interleaved_disjoint_writers_fill_one_cache() {
    // Three writers, four keys each, interleaved into one shared cache:
    // afterwards every key is present and every value reads back.
    let mut rep = factory(64, KeyScope::Bare);
    let mut cache: Cache<String> = rep.create_cache("topics");
    let writers = 3usize;
    let per_writer = 4usize;
    for round in 0..per_writer {
        for writer in 0..writers {
            let key = format!("w{}-k{}", writer, round);
            let value = format!("value-{}-{}", writer, round);
            cache.insert(&mut rep.publisher, key, value).unwrap();
        }
    }
    assert_eq!(cache.keys().len(), writers * per_writer);
    for round in 0..per_writer {
        for writer in 0..writers {
            let key = format!("w{}-k{}", writer, round);
            let expect = format!("value-{}-{}", writer, round);
            assert_eq!(*cache.get(&key).unwrap(), expect);
        }
    }
}

#[test]
fn drain_hands_records_out_in_publish_order() {
    let mut rep = factory(16, KeyScope::Bare);
    let mut cache: Cache<String> = rep.create_cache("topics");
    cache
        .insert(&mut rep.publisher, "a".to_string(), "1".to_string())
        .unwrap();
    cache
        .insert(&mut rep.publisher, "b".to_string(), "2".to_string())
        .unwrap();
    assert_eq!(rep.publisher.pending(), 2);
    let records = rep.publisher.drain();
    assert_eq!(rep.publisher.pending(), 0);
    assert_eq!(records.len(), 2);
    assert_eq!(records[0].key, serde_json::to_vec("a").unwrap());
    assert_eq!(records[0].value, serde_json::to_vec("1").unwrap());
    assert_eq!(records[1].key, serde_json::to_vec("b").unwrap());
    assert_eq!(records[1].value, serde_json::to_vec("2").unwrap());
}

#[test]
fn scoped_record_keys_carry_the_cache_name() {
    let mut rep = factory(16, KeyScope::Scoped);
    let mut cache: Cache<String> = rep.create_cache("topics");
    cache
        .insert(&mut rep.publisher, "topic-1".to_string(), "v".to_string())
        .unwrap();
    let records = rep.publisher.drain();
    assert_eq!(records.len(), 1);
    let (name_part, key_part) = split_frame2(&records[0].key).unwrap();
    assert_eq!(name_part, serde_json::to_vec("topics").unwrap());
    assert_eq!(key_part, serde_json::to_vec("topic-1").unwrap());
    assert_eq!(records[0].value, serde_json::to_vec("v").unwrap());
}

#[test]
fn caches_from_one_factory_share_the_destination() {
    let mut rep = factory(16, KeyScope::Bare);
    let topics: Cache<String> = rep.create_cache("topics");
    let brokers: Cache<String> = rep.create_cache("brokers");
    assert_eq!(topics.name(), "topics");
    assert_eq!(brokers.name(), "brokers");
    assert_eq!(rep.publisher.destination(), "cluster-state");
    // Both caches publish onto the factory's one queue.
    let mut topics = topics;
    let mut brokers = brokers;
    topics
        .insert(&mut rep.publisher, "t".to_string(), "1".to_string())
        .unwrap();
    brokers
        .insert(&mut rep.publisher, "b".to_string(), "2".to_string())
        .unwrap();
    assert_eq!(rep.publisher.pending(), 2);
}

#[test]
fn construction_without_endpoints_fails() {
    let err = match Replicator::new("", "cluster-state", 16, KeyScope::Bare) {
        Ok(_) => panic!("construction without endpoints must fail"),
        Err(e) => e,
    };
    assert_eq!(err, CacheError::Connection);
    let err = match Replicator::new("localhost:9092", "", 16, KeyScope::Bare) {
        Ok(_) => panic!("construction without a destination must fail"),
        Err(e) => e,
    };
    assert_eq!(err, CacheError::Connection);
}

#[test]
fn error_messages_name_the_failure() {
    assert_eq!(
        CacheError::Transport.message(),
        "cannot enqueue the record for delivery"
    );
    assert_eq!(
        CacheError::Connection.message(),
        "cannot reach the log cluster or resolve the destination"
    );
    assert_eq!(
        CacheError::Serialization.message(),
        "cannot encode the key or the value"
    );
    assert_eq!(
        CacheError::CorruptedState.message(),
        "the local map is no longer trustworthy"
    );
}
