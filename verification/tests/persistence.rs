use kvstore::catalog::Catalog;
use kvstore::cleaner::sweep;
use kvstore::db::DbInstance;
use kvstore::db::ReadOutcome;

#[test]
fn snapshot_round_trip_preserves_everything() {
    let mut db = DbInstance::new(
        "t".to_string(),
        true,
        Some("u".to_string()),
        Some("h".to_string()),
    );
    db.write("a".to_string(), "1".to_string(), None, 100);
    db.write("b".to_string(), "2".to_string(), Some(50), 100);

    let snap = db.persist(110);
    let mut back = DbInstance::from_snapshot("t".to_string(), snap, 110);

    assert_eq!(back.name, "t");
    assert_eq!(back.require_auth, true);
    assert_eq!(back.username, Some("u".to_string()));
    assert_eq!(back.password, Some("h".to_string()));
    match back.read("a", 1_000_000) {
        ReadOutcome::Value(v) => assert_eq!(v, "1"),
        _ => panic!("permanent key lost in the round trip"),
    }
    // written at 100 with 50 s to live: still 40 s left at 110
    match back.read("b", 149) {
        ReadOutcome::Value(v) => assert_eq!(v, "2"),
        _ => panic!("unexpired key lost in the round trip"),
    }
    match back.read("b", 150) {
        ReadOutcome::Expired => (),
        _ => panic!("expiry time not preserved"),
    }
}

#[test]
fn snapshot_stores_remaining_seconds() {
    let mut db = DbInstance::new("t".to_string(), false, None, None);
    db.write("a".to_string(), "1".to_string(), Some(30), 100);
    db.write("b".to_string(), "2".to_string(), None, 100);

    let snap = db.persist(110);
    let mut entries = snap.data.take_entries();
    entries.sort_by(|x, y| x.0.cmp(&y.0));
    assert_eq!(entries.len(), 2);
    assert_eq!(entries[0].0, "a");
    assert_eq!(entries[0].1.value, "1");
    assert_eq!(entries[0].1.remaining, Some(20));
    assert_eq!(entries[1].0, "b");
    assert_eq!(entries[1].1.value, "2");
    assert_eq!(entries[1].1.remaining, None);
}

#[test]
fn snapshot_of_expired_record_keeps_it_expired() {
    let mut db = DbInstance::new("t".to_string(), false, None, None);
    db.write("a".to_string(), "1".to_string(), Some(5), 0);
    // already expired at 10: remaining is clamped to zero
    let snap = db.persist(10);
    let mut back = DbInstance::from_snapshot("t".to_string(), snap, 10);
    match back.read("a", 10) {
        ReadOutcome::Expired => (),
        _ => panic!("an expired record must come back expired"),
    }
}

#[test]
fn sweep_removes_only_expired_records() {
    let mut catalog = Catalog::new();
    let mut one = DbInstance::new("one".to_string(), false, None, None);
    one.write("dead".to_string(), "1".to_string(), Some(5), 0);
    one.write("live".to_string(), "2".to_string(), Some(500), 0);
    one.write("keep".to_string(), "3".to_string(), None, 0);
    catalog.insert(one);
    let mut two = DbInstance::new("two".to_string(), false, None, None);
    two.write("fresh".to_string(), "4".to_string(), Some(500), 0);
    catalog.insert(two);

    let report = sweep(&mut catalog, 10);

    assert_eq!(report.len(), 1);
    assert_eq!(report[0].0, "one");
    assert_eq!(report[0].1, vec!["dead".to_string()]);

    let (r1, _) = catalog.run_statement("one", "GET(\"dead\")", 10).unwrap();
    assert_eq!(r1, "Error: Key \"dead\" not found");
    let (r2, _) = catalog.run_statement("one", "GET(\"live\")", 10).unwrap();
    assert_eq!(r2, "2");
    let (r3, _) = catalog.run_statement("one", "GET(\"keep\")", 10).unwrap();
    assert_eq!(r3, "3");
    let (r4, _) = catalog.run_statement("two", "GET(\"fresh\")", 10).unwrap();
    assert_eq!(r4, "4");
}

#[test]
fn sweep_of_clean_catalog_reports_nothing() {
    let mut catalog = Catalog::new();
    let mut db = DbInstance::new("t".to_string(), false, None, None);
    db.write("a".to_string(), "1".to_string(), None, 0);
    catalog.insert(db);
    let report = sweep(&mut catalog, 1_000_000);
    assert!(report.is_empty());
}
