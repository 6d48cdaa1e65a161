use std::cell::Cell;

use tunnel::cache::{Connection, ConnectionCache};
use tunnel::error::TunnelError;
use tunnel::identity::PublicKey;

fn key(b: u8) -> PublicKey {
    PublicKey::from_bytes([b; 32])
}

#[test]
fn new_cache_is_empty() {
    let cache = ConnectionCache::new();
    assert_eq!(cache.get(&key(1)), None);
    assert!(cache.snapshot().is_empty());
}

#[test]
fn get_or_create_dials_once_for_sequential_calls() {
    let mut cache = ConnectionCache::new();
    let dials = Cell::new(0u32);
    let first = cache.get_or_create(key(1), || {
        dials.set(dials.get() + 1);
        Ok(Connection { id: 10 })
    });
    let second = cache.get_or_create(key(1), || {
        dials.set(dials.get() + 1);
        Ok(Connection { id: 11 })
    });
    assert_eq!(first, Ok(Connection { id: 10 }));
    assert_eq!(second, Ok(Connection { id: 10 }));
    assert_eq!(dials.get(), 1);
    assert_eq!(cache.get(&key(1)), Some(Connection { id: 10 }));
}

#[test]
fn get_or_create_keeps_addresses_apart() {
    let mut cache = ConnectionCache::new();
    assert_eq!(cache.get_or_create(key(1), || Ok(Connection { id: 10 })), Ok(Connection { id: 10 }));
    assert_eq!(cache.get_or_create(key(2), || Ok(Connection { id: 20 })), Ok(Connection { id: 20 }));
    assert_eq!(cache.get(&key(1)), Some(Connection { id: 10 }));
    assert_eq!(cache.get(&key(2)), Some(Connection { id: 20 }));
    assert_eq!(cache.get(&key(3)), None);
}

#[test]
fn failed_connector_leaves_no_entry() {
    let mut cache = ConnectionCache::new();
    let outcome = cache.get_or_create(key(1), || Err(TunnelError::Connect));
    assert_eq!(outcome, Err(TunnelError::Connect));
    assert_eq!(cache.get(&key(1)), None);
    assert!(cache.snapshot().is_empty());
}

#[test]
fn insert_if_absent_keeps_the_first_connection() {
    let mut cache = ConnectionCache::new();
    assert_eq!(cache.insert_if_absent(key(1), Connection { id: 10 }), Connection { id: 10 });
    assert_eq!(cache.insert_if_absent(key(1), Connection { id: 11 }), Connection { id: 10 });
    assert_eq!(cache.get(&key(1)), Some(Connection { id: 10 }));
    assert_eq!(cache.snapshot().len(), 1);
}

#[test]
fn remove_returns_the_entry_once() {
    let mut cache = ConnectionCache::new();
    cache.insert_if_absent(key(1), Connection { id: 10 });
    cache.insert_if_absent(key(2), Connection { id: 20 });
    assert_eq!(cache.remove(&key(1)), Some(Connection { id: 10 }));
    assert_eq!(cache.remove(&key(1)), None);
    assert_eq!(cache.get(&key(1)), None);
    assert_eq!(cache.get(&key(2)), Some(Connection { id: 20 }));
}

#[test]
fn remove_then_get_or_create_dials_again() {
    let mut cache = ConnectionCache::new();
    let dials = Cell::new(0u32);
    let _ = cache.get_or_create(key(1), || {
        dials.set(dials.get() + 1);
        Ok(Connection { id: 10 })
    });
    assert_eq!(cache.remove(&key(1)), Some(Connection { id: 10 }));
    let again = cache.get_or_create(key(1), || {
        dials.set(dials.get() + 1);
        Ok(Connection { id: 11 })
    });
    assert_eq!(again, Ok(Connection { id: 11 }));
    assert_eq!(dials.get(), 2);
}

#[test]
fn snapshot_lists_every_entry_once() {
    let mut cache = ConnectionCache::new();
    for b in 0..20u8 {
        cache.insert_if_absent(key(b), Connection { id: 100 + b as u64 });
    }
    let mut pairs = cache.snapshot();
    pairs.sort_by_key(|(_, c)| c.id);
    assert_eq!(pairs.len(), 20);
    for (i, (k, c)) in pairs.iter().enumerate() {
        assert_eq!(*k, key(i as u8));
        assert_eq!(c.id, 100 + i as u64);
    }
    // a snapshot takes nothing out
    assert_eq!(cache.snapshot().len(), 20);
}

#[test]
fn clear_drains_every_connection() {
    let mut cache = ConnectionCache::new();
    for b in 0..5u8 {
        cache.insert_if_absent(key(b), Connection { id: 7 * b as u64 });
    }
    let mut drained = cache.clear();
    drained.sort_by_key(|c| c.id);
    assert_eq!(
        drained,
        vec![
            Connection { id: 0 },
            Connection { id: 7 },
            Connection { id: 14 },
            Connection { id: 21 },
            Connection { id: 28 },
        ]
    );
    assert!(cache.snapshot().is_empty());
    assert_eq!(cache.get(&key(0)), None);
    assert!(cache.clear().is_empty());
}
