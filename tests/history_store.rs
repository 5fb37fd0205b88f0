use syncclip::clipboard::ClipboardData;
use syncclip::store::{Database, HistoryRecord};

fn text(s: &str) -> ClipboardData {
    ClipboardData::new_text(s.to_string())
}

fn content(d: &ClipboardData) -> String {
    match d {
        ClipboardData::Text { content, .. } => content.clone(),
        _ => panic!("Wrong data"),
    }
}

#[test]
fn test_history_limit() {
    let mut db = Database::new(5);
    for i in 0..10 {
        db.save(text(&format!("item_{}", i)), "t".to_string()).ok().unwrap();
    }
    assert_eq!(content(&db.get_latest().unwrap()), "item_9");
    let all = db.get_history(100, 0);
    assert_eq!(all.len(), 5);
    let ids: Vec<i64> = all.iter().map(|r| r.id).collect();
    assert_eq!(ids, vec![10, 9, 8, 7, 6]);
}

#[test]
fn evicted_ids_are_reported() {
    let mut db = Database::new(2);
    db.save(text("a"), String::new()).ok().unwrap();
    db.save(text("b"), String::new()).ok().unwrap();
    let out = db.save(text("c"), String::new()).ok().unwrap();
    assert_eq!(out.id, 3);
    assert_eq!(out.evicted, vec![1]);
}

#[test]
fn pinning_protects_from_retention() {
    let mut db = Database::new(5);
    for i in 0..5 {
        db.save(text(&format!("item_{}", i)), String::new()).ok().unwrap();
    }
    assert!(db.set_pinned(1, true));
    for i in 5..10 {
        db.save(text(&format!("item_{}", i)), String::new()).ok().unwrap();
    }
    let all = db.get_history(100, 0);
    let ids: Vec<i64> = all.iter().map(|r| r.id).collect();
    assert_eq!(ids, vec![1, 10, 9, 8, 7, 6]);
    assert!(all[0].pinned);
    assert_eq!(all.iter().filter(|r| !r.pinned).count(), 5);
}

#[test]
fn zero_max_count_keeps_everything() {
    let mut db = Database::new(0);
    for i in 0..20 {
        db.save(text(&format!("{}", i)), String::new()).ok().unwrap();
    }
    assert_eq!(db.get_history(100, 0).len(), 20);
}

#[test]
fn empty_store_has_no_latest() {
    let db = Database::new(5);
    assert!(db.get_latest().is_none());
    assert!(db.get_latest_id().is_none());
    assert!(db.get_history(10, 0).is_empty());
}

#[test]
fn ids_are_never_reused() {
    let mut db = Database::new(0);
    db.save(text("a"), String::new()).ok().unwrap();
    db.save(text("b"), String::new()).ok().unwrap();
    assert!(db.delete_history(2));
    assert!(!db.delete_history(2));
    assert_eq!(db.get_latest_id(), Some(1));
    let out = db.save(text("c"), String::new()).ok().unwrap();
    assert_eq!(out.id, 3);
    assert_eq!(db.get_latest_id(), Some(3));
}

#[test]
fn history_pages_pinned_first_then_newest() {
    let mut db = Database::new(0);
    for i in 0..6 {
        db.save(text(&format!("{}", i)), String::new()).ok().unwrap();
    }
    db.set_pinned(2, true);
    db.set_pinned(4, true);
    let ids = |v: Vec<HistoryRecord>| v.iter().map(|r| r.id).collect::<Vec<i64>>();
    assert_eq!(ids(db.get_history(50, 0)), vec![4, 2, 6, 5, 3, 1]);
    assert_eq!(ids(db.get_history(2, 1)), vec![2, 6]);
    assert_eq!(ids(db.get_history(10, 5)), vec![1]);
    assert!(db.get_history(10, 6).is_empty());
    assert!(db.set_pinned(4, false));
    assert_eq!(ids(db.get_history(50, 0)), vec![2, 6, 5, 4, 3, 1]);
    assert!(!db.set_pinned(99, true));
}

#[test]
fn image_entries_are_stored() {
    let mut db = Database::new(0);
    let img = ClipboardData::Image { hash: Some("abc".to_string()), filename: "abc.png".to_string(), device: None };
    db.save(img, String::new()).ok().unwrap();
    match db.get_latest().unwrap() {
        ClipboardData::Image { hash, filename, .. } => {
            assert_eq!(hash.as_deref(), Some("abc"));
            assert_eq!(filename, "abc.png");
        }
        _ => panic!("Wrong data"),
    }
}

#[test]
fn restore_checks_ids() {
    let rec = |id: i64| HistoryRecord { id, data: text("x"), pinned: false, timestamp: String::new() };
    let mut db = Database::restore(vec![rec(3), rec(8)], 1, 5).unwrap();
    assert_eq!(db.save(text("y"), String::new()).ok().unwrap().id, 9);
    assert!(Database::restore(vec![rec(8), rec(3)], 1, 5).is_none());
    assert!(Database::restore(vec![rec(0)], 1, 5).is_none());
    let mut db2 = Database::restore(vec![], 40, 5).unwrap();
    assert_eq!(db2.save(text("z"), String::new()).ok().unwrap().id, 40);
}
