use contentos_core::backup::{backup_file_name, is_backup_name, to_prune, KEEP};
use contentos_core::dashboard::{count_online, dashboard_stats, reels_by_status};
use contentos_core::reels;
use contentos_core::roots::StorageRoot;
use contentos_core::Db;

fn root(id: &str, online: bool) -> StorageRoot {
    StorageRoot {
        id: id.into(),
        name: id.into(),
        path: format!("/srv/{id}"),
        kind: "local".into(),
        online,
        created_at: "2026-07-20T09:00:00+00:00".into(),
        free_bytes: None,
    }
}

#[test]
fn backup_names_and_pruning() {
    assert_eq!(backup_file_name("2026-07-20T09:15:00+02:00"), "contentos-2026-07-20.db");
    assert!(is_backup_name("contentos-2026-07-20.db"));
    assert!(!is_backup_name("contentos-2026-07-20.db.tmp"));
    assert!(!is_backup_name("live.db"));

    // 32 daily snapshots plus an unrelated file: the two oldest go
    let mut names: Vec<String> = (1..=32).map(|d| format!("contentos-2026-05-{d:02}.db")).collect();
    names.push("notes.txt".to_string());
    names.reverse();
    let pruned = to_prune(&names);
    assert_eq!(pruned, vec!["contentos-2026-05-02.db".to_string(), "contentos-2026-05-01.db".to_string()]);
    assert_eq!(KEEP, 30);
    assert!(to_prune(&names[..20]).is_empty());
}

#[test]
fn dashboard_counts() {
    let db = Db::open_in_memory().unwrap();
    reels::create(&db.conn, "One", None).unwrap();
    reels::create(&db.conn, "Two", None).unwrap();
    let r = reels::create(&db.conn, "Three", None).unwrap();
    reels::set_status(&db.conn, &r.id, "killed", false).unwrap();

    let roots = vec![root("a", true), root("b", false), root("c", true)];
    assert_eq!(count_online(&roots), 2);
    let stats = dashboard_stats(&db.conn, &roots).unwrap();
    assert_eq!(stats.roots_total, 3);
    assert_eq!(stats.roots_online, 2);
    assert_eq!(stats.problems, 0);
    assert_eq!(stats.stuck_count, 0);
    let mut by_status = reels_by_status(&db.conn).unwrap();
    by_status.sort();
    assert_eq!(by_status, vec![("idea".to_string(), 2), ("killed".to_string(), 1)]);
}
