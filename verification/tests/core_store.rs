use contentos_core::activity::{log, recent};
use contentos_core::ids::next_code;
use contentos_core::search::{query, remove, upsert};
use contentos_core::settings;
use contentos_core::Db;

fn json(s: &str) -> serde_json::Value {
    serde_json::from_str(s).unwrap()
}

#[test]
fn codes_increment_per_prefix() {
    let db = Db::open_in_memory().unwrap();
    assert_eq!(next_code(&db.conn, "R", 4).unwrap(), "R0001");
    assert_eq!(next_code(&db.conn, "R", 4).unwrap(), "R0002");
    assert_eq!(next_code(&db.conn, "B", 3).unwrap(), "B001");
    assert_eq!(next_code(&db.conn, "HK", 4).unwrap(), "HK0001");
}

#[test]
fn fts5_is_available_and_searchable() {
    let db = Db::open_in_memory().unwrap();
    upsert(&db.conn, "reel", "r1", "Gym myths that keep you small").unwrap();
    upsert(&db.conn, "component", "c1", "Stop doing cardio before weights").unwrap();

    let hits = query(&db.conn, "gym my", 10).unwrap();
    assert_eq!(hits.len(), 1);
    assert_eq!(hits[0].entity_id, "r1");

    // update replaces, remove deletes
    upsert(&db.conn, "reel", "r1", "Protein timing is a lie").unwrap();
    assert!(query(&db.conn, "gym", 10).unwrap().is_empty());
    remove(&db.conn, "component", "c1").unwrap();
    assert!(query(&db.conn, "cardio", 10).unwrap().is_empty());
}

#[test]
fn roundtrip_and_overwrite() {
    let db = Db::open_in_memory().unwrap();
    assert!(settings::get(&db.conn, "weekly_target").unwrap().is_none());
    settings::set(&db.conn, "weekly_target", &json("100")).unwrap();
    assert_eq!(settings::get(&db.conn, "weekly_target").unwrap(), Some(json("100")));
    settings::set(&db.conn, "weekly_target", &json(r#"{ "reels": 100, "platforms": 3 }"#)).unwrap();
    assert_eq!(
        settings::get(&db.conn, "weekly_target").unwrap(),
        Some(json(r#"{ "reels": 100, "platforms": 3 }"#))
    );
}

#[test]
fn log_and_read_back() {
    let db = Db::open_in_memory().unwrap();
    log(&db.conn, "reel", "R0001", "status:shot→assembled", Some(&json(r#"{"batch": "B001"}"#))).unwrap();
    log(&db.conn, "reel", "R0002", "created", None).unwrap();
    let entries = recent(&db.conn, 10).unwrap();
    assert_eq!(entries.len(), 2);
    assert_eq!(entries[0].entity_id, "R0002"); // newest first
    assert!(entries[1].detail.is_some());
}
