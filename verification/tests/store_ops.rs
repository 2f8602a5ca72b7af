use kvstore::db::DbInstance;
use kvstore::db::ReadOutcome;
use kvstore::db::ValueWithExpiry;

fn fresh_db(name: &str) -> DbInstance {
    DbInstance::new(name.to_string(), false, None, None)
}

#[test]
fn value_without_ttl_never_expires() {
    let v = ValueWithExpiry::new("x".to_string(), None, 0);
    assert!(!v.is_expired(0));
    assert!(!v.is_expired(u64::MAX));
    assert_eq!(v.expires_at, None);
}

#[test]
fn value_with_ttl_expires_at_deadline() {
    let v = ValueWithExpiry::new("x".to_string(), Some(5), 10);
    assert_eq!(v.expires_at, Some(15));
    assert!(!v.is_expired(14));
    assert!(v.is_expired(15));
    assert!(v.is_expired(16));
}

#[test]
fn value_with_huge_ttl_clamps() {
    let v = ValueWithExpiry::new("x".to_string(), Some(u64::MAX), 10);
    assert_eq!(v.expires_at, Some(u64::MAX));
    assert!(!v.is_expired(u64::MAX - 1));
}

#[test]
fn write_then_read_no_ttl_lasts() {
    let mut db = fresh_db("t");
    db.write("a".to_string(), "1".to_string(), None, 0);
    match db.read("a", 0) {
        ReadOutcome::Value(v) => assert_eq!(v, "1"),
        _ => panic!("expected the written value"),
    }
    match db.read("a", 1_000_000_000) {
        ReadOutcome::Value(v) => assert_eq!(v, "1"),
        _ => panic!("expected the written value much later"),
    }
}

#[test]
fn write_then_read_ttl_window() {
    let mut db = fresh_db("t");
    db.write("a".to_string(), "1".to_string(), Some(5), 10);
    match db.read("a", 14) {
        ReadOutcome::Value(v) => assert_eq!(v, "1"),
        _ => panic!("expected the value before the deadline"),
    }
    match db.read("a", 15) {
        ReadOutcome::Expired => (),
        _ => panic!("expected expiry at the deadline"),
    }
    // lazy eviction removed the record
    match db.read("a", 16) {
        ReadOutcome::NotFound => (),
        _ => panic!("expected the record to be gone after eviction"),
    }
}

#[test]
fn overwrite_replaces_whole_record() {
    let mut db = fresh_db("t");
    db.write("a".to_string(), "1".to_string(), Some(5), 0);
    db.write("a".to_string(), "2".to_string(), None, 0);
    match db.read("a", 100) {
        ReadOutcome::Value(v) => assert_eq!(v, "2"),
        _ => panic!("expected the overwritten value with no expiry"),
    }
}

#[test]
fn delete_reports_presence() {
    let mut db = fresh_db("t");
    assert!(!db.delete("a"));
    db.write("a".to_string(), "1".to_string(), None, 0);
    assert!(db.delete("a"));
    assert!(!db.delete("a"));
    assert!(!db.delete("a"));
}
