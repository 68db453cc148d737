use turbine::shared_table::{counter_from_bytes, counter_to_bytes, SharedTable, TableError};

const MS: u128 = 1_000_000;

#[test]
fn set_get_del() {
    let mut t = SharedTable::new(16);
    assert!(t.get("x").is_none());
    assert!(t.set("x".into(), b"hello".to_vec(), None).is_ok());
    assert_eq!(t.get("x").as_deref(), Some(&b"hello"[..]));
    assert!(t.del("x"));
    assert!(!t.del("x"));
    assert!(t.get("x").is_none());
}

#[test]
fn ttl_expires_on_read() {
    let mut t = SharedTable::new(16);
    assert!(t.set_at("x".into(), b"v".to_vec(), Some(10), 0).is_ok());
    assert!(t.get_at("x", 0).is_some());
    // 20 ms later the 10 ms entry is gone.
    assert!(t.get_at("x", 20 * MS).is_none());
    assert_eq!(t.size(), 0, "read should evict expired entry");
}

#[test]
fn ttl_sweep_evicts() {
    let mut t = SharedTable::new(16);
    assert!(t.set_at("a".into(), b"v".to_vec(), Some(5), 0).is_ok());
    assert!(t.set_at("b".into(), b"v".to_vec(), None, 0).is_ok());
    let removed = t.sweep_expired_at(10 * MS);
    assert_eq!(removed, 1);
    assert_eq!(t.size(), 1);
    assert!(t.get("b").is_some());
    assert_eq!(t.evictions(), 1);
}

#[test]
fn incr_creates_and_adds() {
    let mut t = SharedTable::new(16);
    assert_eq!(t.incr("c", 1).ok().unwrap(), 1);
    assert_eq!(t.incr("c", 5).ok().unwrap(), 6);
    assert_eq!(t.incr("c", -3).ok().unwrap(), 3);
}

#[test]
fn incr_rejects_non_counter() {
    let mut t = SharedTable::new(16);
    assert!(t.set("s".into(), b"hello".to_vec(), None).is_ok());
    assert!(matches!(t.incr("s", 1), Err(TableError::NotACounter(_))));
}

#[test]
fn set_respects_capacity_for_new_keys() {
    let mut t = SharedTable::new(2);
    assert!(t.set("a".into(), b"1".to_vec(), None).is_ok());
    assert!(t.set("b".into(), b"2".to_vec(), None).is_ok());
    assert!(matches!(t.set("c".into(), b"3".to_vec(), None), Err(TableError::Full(2))));
    // Updating an existing key must still work at capacity.
    assert!(t.set("a".into(), b"1-updated".to_vec(), None).is_ok());
    assert_eq!(t.get("a").as_deref(), Some(&b"1-updated"[..]));
}

#[test]
fn clear_drops_all() {
    let mut t = SharedTable::new(16);
    assert!(t.set("a".into(), b"x".to_vec(), None).is_ok());
    assert!(t.set("b".into(), b"y".to_vec(), None).is_ok());
    assert_eq!(t.clear(), 2);
    assert_eq!(t.size(), 0);
}

#[test]
fn incr_resets_expired_counter() {
    let mut t = SharedTable::new(16);
    assert!(t.set_at("c".into(), 42_i64.to_le_bytes().to_vec(), Some(5), 0).is_ok());
    assert_eq!(t.incr_at("c", 3, 10 * MS).ok().unwrap(), 3);
}

// ───── further cases ─────

#[test]
fn counter_bytes_match_std() {
    for v in [0i64, 1, -1, 42, i64::MAX, i64::MIN, 0x0102_0304_0506_0708] {
        assert_eq!(counter_to_bytes(v), v.to_le_bytes().to_vec());
        assert_eq!(counter_from_bytes(&v.to_le_bytes()), v);
    }
}

#[test]
fn incr_wraps_and_keeps_deadline() {
    let mut t = SharedTable::new(4);
    assert!(t.set_at("w".into(), i64::MAX.to_le_bytes().to_vec(), Some(100), 0).is_ok());
    assert_eq!(t.incr_at("w", 1, MS).ok().unwrap(), i64::MIN);
    // The deadline survived the increment.
    assert!(t.get_at("w", 200 * MS).is_none());
}

#[test]
fn incr_full_table_refuses_new_counter() {
    let mut t = SharedTable::new(1);
    assert!(t.set("a".into(), b"1".to_vec(), None).is_ok());
    assert!(matches!(t.incr("b", 1), Err(TableError::Full(1))));
    assert_eq!(t.size(), 1);
}

#[test]
fn del_of_expired_entry_reports_false() {
    let mut t = SharedTable::new(4);
    assert!(t.set_at("e".into(), b"v".to_vec(), Some(1), 0).is_ok());
    assert!(!t.del_at("e", 5 * MS));
    assert_eq!(t.size(), 0);
}

#[test]
fn key_exists_reports_presence() {
    let mut t = SharedTable::new(4);
    assert!(!t.key_exists("k"));
    assert!(t.set("k".into(), Vec::new(), None).is_ok());
    assert!(t.key_exists("k"));
}

#[test]
fn size_never_passes_capacity() {
    let mut t = SharedTable::new(3);
    for i in 0..10 {
        let _ = t.set(format!("k{}", i), vec![i as u8], None);
        let _ = t.incr(&format!("c{}", i), 1);
        assert!(t.size() <= 3);
    }
    assert_eq!(t.size(), 3);
    assert!(t.set("k0".to_string(), b"again".to_vec(), None).is_ok());
    assert_eq!(t.size(), 3);
}
