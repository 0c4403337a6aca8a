use dataplane::table::{
    get_backend, Backend, BackendKey, BackendTable, TableCapacityExceeded, DEFAULT_MAX_ENTRIES,
};

fn key(n: u32) -> BackendKey {
    BackendKey { ip: 0x0A00_0000 + n, port: 53 }
}

fn backend(n: u32) -> Backend {
    Backend { daddr: 0xC0A8_0100 + n, dport: 5353, ifindex: n }
}

#[test]
fn new_table_is_empty() {
    let table = BackendTable::new();
    assert_eq!(table.len(), 0);
    assert_eq!(table.capacity(), 128);
    assert_eq!(DEFAULT_MAX_ENTRIES, 128);
    assert_eq!(table.get(key(1)), None);
    assert_eq!(get_backend(&table, key(1)), None);
}

#[test]
fn upsert_then_get() {
    let mut table = BackendTable::new();
    assert_eq!(table.upsert(key(1), backend(1)), Ok(()));
    assert_eq!(table.upsert(key(2), backend(2)), Ok(()));
    assert_eq!(table.len(), 2);
    assert_eq!(table.get(key(1)), Some(backend(1)));
    assert_eq!(get_backend(&table, key(2)), Some(backend(2)));
    assert_eq!(table.get(key(3)), None);
    // Same address, other port: another key.
    assert_eq!(table.get(BackendKey { ip: key(1).ip, port: 54 }), None);
}

#[test]
fn upsert_replaces() {
    let mut table = BackendTable::new();
    assert_eq!(table.upsert(key(1), backend(1)), Ok(()));
    assert_eq!(table.upsert(key(1), backend(7)), Ok(()));
    assert_eq!(table.len(), 1);
    assert_eq!(table.get(key(1)), Some(backend(7)));
}

#[test]
fn upsert_beyond_capacity_fails() {
    let mut table = BackendTable::with_max_entries(3);
    assert_eq!(table.capacity(), 3);
    for n in 0..3 {
        assert_eq!(table.upsert(key(n), backend(n)), Ok(()));
    }
    assert_eq!(table.upsert(key(3), backend(3)), Err(TableCapacityExceeded));
    assert_eq!(table.len(), 3);
    assert_eq!(table.get(key(3)), None);
    for n in 0..3 {
        assert_eq!(table.get(key(n)), Some(backend(n)));
    }
    // A key that is there can still be replaced.
    assert_eq!(table.upsert(key(1), backend(9)), Ok(()));
    assert_eq!(table.get(key(1)), Some(backend(9)));
    // And room comes back with a delete.
    assert!(table.delete(key(0)));
    assert_eq!(table.upsert(key(3), backend(3)), Ok(()));
    assert_eq!(table.get(key(3)), Some(backend(3)));
}

#[test]
fn default_table_holds_128() {
    let mut table = BackendTable::new();
    for n in 0..128 {
        assert_eq!(table.upsert(key(n), backend(n)), Ok(()));
    }
    assert_eq!(table.len(), 128);
    assert_eq!(table.upsert(key(128), backend(128)), Err(TableCapacityExceeded));
    assert_eq!(table.get(key(127)), Some(backend(127)));
}

#[test]
fn zero_capacity_refuses_everything() {
    let mut table = BackendTable::with_max_entries(0);
    assert_eq!(table.upsert(key(1), backend(1)), Err(TableCapacityExceeded));
    assert_eq!(table.len(), 0);
}

#[test]
fn delete_removes_one_key() {
    let mut table = BackendTable::new();
    for n in 0..4 {
        assert_eq!(table.upsert(key(n), backend(n)), Ok(()));
    }
    assert!(table.delete(key(1)));
    assert!(!table.delete(key(1)));
    assert!(!table.delete(key(9)));
    assert_eq!(table.len(), 3);
    assert_eq!(table.get(key(1)), None);
    assert_eq!(table.get(key(0)), Some(backend(0)));
    assert_eq!(table.get(key(2)), Some(backend(2)));
    assert_eq!(table.get(key(3)), Some(backend(3)));
}
