use contentos_core::batches;
use contentos_core::components;
use contentos_core::ideas;
use contentos_core::pillars;
use contentos_core::reels::{
    calendar_range, create, get_detail, list, set_blocks, set_status, set_target_date, unscheduled,
    BlockInput,
};
use contentos_core::library::{self, ScanReport};
use contentos_core::roots;
use contentos_core::Db;

#[test]
fn create_script_and_autostatus() {
    let db = Db::open_in_memory().unwrap();
    let hook = components::create(&db.conn, "hook", "Stop doing cardio first", &[], None).unwrap();

    let reel = create(&db.conn, "Gym myths #1", None).unwrap();
    assert_eq!(reel.code, "R0001");
    assert_eq!(reel.status, "idea");

    set_blocks(
        &db.conn,
        &reel.id,
        &[
            BlockInput { kind: "hook".into(), component_id: Some(hook.id.clone()), text: None, est_seconds: None },
            BlockInput { kind: "body".into(), component_id: None, text: Some("The real reason is…".into()), est_seconds: Some(25) },
            BlockInput { kind: "cta".into(), component_id: None, text: Some("Follow for part 2".into()), est_seconds: Some(3) },
        ],
    )
    .unwrap();

    let detail = get_detail(&db.conn, &reel.id).unwrap();
    assert_eq!(detail.status, "scripted", "idea auto-advances once scripted");
    assert_eq!(detail.blocks.len(), 3);
    assert_eq!(detail.blocks[0].text, "Stop doing cardio first", "component text resolves");
    assert_eq!(detail.blocks[0].component_code.as_deref(), Some("HK0001"));

    // reel is findable by its linked component's text
    let found = list(&db.conn, None, None, Some("cardio")).unwrap();
    assert_eq!(found.len(), 1);

    // component usage count reflects the link
    let comps = components::list(&db.conn, Some("hook"), false, None).unwrap();
    assert_eq!(comps[0].times_used, 1);
}

#[test]
fn status_transitions_enforced() {
    let db = Db::open_in_memory().unwrap();
    let reel = create(&db.conn, "Test", None).unwrap();

    // skipping stages is refused…
    assert!(set_status(&db.conn, &reel.id, "edited", false).is_err());
    // …but adjacent moves, terminal moves, and overrules work
    set_status(&db.conn, &reel.id, "scripted", false).unwrap();
    set_status(&db.conn, &reel.id, "idea", false).unwrap();
    set_status(&db.conn, &reel.id, "killed", false).unwrap();
    set_status(&db.conn, &reel.id, "idea", false).unwrap(); // restore from terminal
    set_status(&db.conn, &reel.id, "edited", true).unwrap();
    assert!(set_status(&db.conn, &reel.id, "banana", true).is_err());
}

#[test]
fn calendar_and_unscheduled() {
    let db = Db::open_in_memory().unwrap();
    let a = create(&db.conn, "Planned", None).unwrap();
    let b = create(&db.conn, "Unplanned", None).unwrap();

    assert!(set_target_date(&db.conn, &a.id, Some("2026-7-20")).is_err());
    set_target_date(&db.conn, &a.id, Some("2026-07-20")).unwrap();

    let week = calendar_range(&db.conn, "2026-07-20", "2026-07-26").unwrap();
    assert_eq!(week.len(), 1);
    assert_eq!(week[0].code, "R0001");

    let tray = unscheduled(&db.conn).unwrap();
    assert_eq!(tray.len(), 1);
    assert_eq!(tray[0].id, b.id);

    set_target_date(&db.conn, &a.id, None).unwrap();
    assert_eq!(unscheduled(&db.conn).unwrap().len(), 2);
}

#[test]
fn create_codes_and_search() {
    let db = Db::open_in_memory().unwrap();
    let h = components::create(&db.conn, "hook", "Stop doing these 3 exercises", &["gym".into()], None).unwrap();
    let b = components::create(&db.conn, "body", "Here is why form beats weight…", &[], None).unwrap();
    assert_eq!(h.code, "HK0001");
    assert_eq!(b.code, "BD0001");

    let hooks = components::list(&db.conn, Some("hook"), false, None).unwrap();
    assert_eq!(hooks.len(), 1);

    let found = components::list(&db.conn, None, false, Some("exercises")).unwrap();
    assert_eq!(found.len(), 1);
    assert_eq!(found[0].id, h.id);

    components::update(&db.conn, &h.id, "Stop doing these 5 exercises", &["gym".into(), "myths".into()], None).unwrap();
    let found = components::list(&db.conn, None, false, Some("myths")).unwrap();
    assert_eq!(found.len(), 1, "tags are searchable after update");

    assert!(components::create(&db.conn, "banana", "x", &[], None).is_err());
}

#[test]
fn capture_promote_kill() {
    let db = Db::open_in_memory().unwrap();
    let a = ideas::create(&db.conn, "Why your hooks flop", None).unwrap();
    let b = ideas::create(&db.conn, "Morning routine myth", None).unwrap();

    let reel = ideas::promote(&db.conn, &a.id).unwrap();
    assert_eq!(reel.title, "Why your hooks flop");
    assert_eq!(reel.status, "idea");

    // promoted idea is no longer open, carries the reel link
    let open = ideas::list(&db.conn, Some("open")).unwrap();
    assert_eq!(open.len(), 1);
    let all = ideas::list(&db.conn, None).unwrap();
    assert!(all.iter().any(|i| i.reel_id.as_deref() == Some(reel.id.as_str())));

    // can't promote twice
    assert!(ideas::promote(&db.conn, &a.id).is_err());

    ideas::kill(&db.conn, &b.id).unwrap();
    assert!(ideas::list(&db.conn, Some("open")).unwrap().is_empty());
}

#[test]
fn crud_and_archive() {
    let db = Db::open_in_memory().unwrap();
    let p = pillars::create(&db.conn, "Gym myths", "moss", 30).unwrap();
    pillars::create(&db.conn, "Nutrition", "clay", 20).unwrap();

    assert_eq!(pillars::list(&db.conn, false).unwrap().len(), 2);
    pillars::update(&db.conn, &p.id, "Gym Myths", "teal", 25).unwrap();
    pillars::set_archived(&db.conn, &p.id, true).unwrap();
    assert_eq!(pillars::list(&db.conn, false).unwrap().len(), 1);
    assert_eq!(pillars::list(&db.conn, true).unwrap().len(), 2);

    // duplicate name refused by UNIQUE
    assert!(pillars::create(&db.conn, "Nutrition", "ochre", 5).is_err());
}

fn fixture(db: &Db) -> (String, String, String) {
    // shared hook + shared body across two reels; reel B adds its own CTA
    let hook = components::create(&db.conn, "hook", "Hook A", &[], None).unwrap();
    let body = components::create(&db.conn, "body", "Body core", &[], None).unwrap();
    let a = create(&db.conn, "Reel A", None).unwrap();
    let b = create(&db.conn, "Reel B", None).unwrap();
    set_blocks(&db.conn, &a.id, &[
        BlockInput { kind: "hook".into(), component_id: Some(hook.id.clone()), text: None, est_seconds: None },
        BlockInput { kind: "body".into(), component_id: Some(body.id.clone()), text: None, est_seconds: None },
    ]).unwrap();
    set_blocks(&db.conn, &b.id, &[
        BlockInput { kind: "hook".into(), component_id: Some(hook.id.clone()), text: None, est_seconds: None },
        BlockInput { kind: "body".into(), component_id: Some(body.id.clone()), text: None, est_seconds: None },
        BlockInput { kind: "cta".into(), component_id: None, text: Some("Follow me".into()), est_seconds: None },
    ]).unwrap();
    (a.id, b.id, hook.id)
}

#[test]
fn dedup_shot_list() {
    let db = Db::open_in_memory().unwrap();
    let (a, b, _) = fixture(&db);
    let batch = batches::create(&db.conn, "Studio day", None).unwrap();
    batches::add_reels(&db.conn, &batch.id, &[a.clone(), b.clone()]).unwrap();

    let d = batches::detail(&db.conn, &batch.id).unwrap();
    // 5 blocks across two reels collapse to 3 shots (hook, body shared; CTA own)
    assert_eq!(d.shots.len(), 3);
    let hook_shot = &d.shots[0];
    assert_eq!(hook_shot.used_by.len(), 2, "shared hook shows both reels");
    assert!(d.shots[2].clip_key.contains("-S03"), "standalone CTA keyed by reel-block");

    // both reels advanced to shotlisted
    assert_eq!(get_detail(&db.conn, &a).unwrap().status, "shotlisted");
    assert_eq!(get_detail(&db.conn, &b).unwrap().status, "shotlisted");

    // idempotent: re-adding creates nothing new
    batches::add_reels(&db.conn, &batch.id, &[a, b]).unwrap();
    assert_eq!(batches::detail(&db.conn, &batch.id).unwrap().shots.len(), 3);
}

#[test]
fn takes_selection_advances_reels() {
    let db = Db::open_in_memory().unwrap();
    let (a, b, _) = fixture(&db);
    let batch = batches::create(&db.conn, "Studio day", None).unwrap();
    batches::add_reels(&db.conn, &batch.id, &[a.clone(), b.clone()]).unwrap();
    let d = batches::detail(&db.conn, &batch.id).unwrap();

    // a root with one inbox clip per shot, each filed as that shot's take
    let root = roots::register_root(&db.conn, "root-1", "media", "/srv/media", "local", None).unwrap();
    for (i, shot) in d.shots.iter().enumerate() {
        let name = format!("clip{i}.mp4");
        let mut report = ScanReport::new();
        library::register_raw(&db.conn, &mut report, &root.id, &format!("00_INBOX/{name}"), &name, 12, &format!("fake video {i}"))
            .unwrap();
        let inbox = library::list_inbox(&db.conn, &root.id).unwrap();
        let asset = inbox.iter().find(|a| a.filename.contains(&format!("clip{i}"))).unwrap();
        let plan = library::plan_take(&db.conn, &shot.id, &asset.id).unwrap();
        let take = library::record_take(&db.conn, &plan, &shot.id, &asset.id, Some(4)).unwrap();
        batches::select_take(&db.conn, &shot.id, &take.id).unwrap();
    }

    // every block covered → both reels advanced to `shot`
    assert_eq!(get_detail(&db.conn, &a).unwrap().status, "shot");
    assert_eq!(get_detail(&db.conn, &b).unwrap().status, "shot");

    // canonical rename happened: B001_<clipkey>_T01.mp4 under 01_RAW/B001/
    let d = batches::detail(&db.conn, &batch.id).unwrap();
    let f = &d.shots[0].takes[0].filename;
    assert!(f.starts_with("B001_") && f.ends_with("_T01.mp4"), "got {f}");

    // a later batch skips material that already has a master take
    let c = create(&db.conn, "Reel C", None).unwrap();
    let hook_id = db
        .conn
        .query_row::<String, _, _>("SELECT id FROM components WHERE kind = 'hook'", [], |r| r.get(0))
        .unwrap();
    set_blocks(
        &db.conn,
        &c.id,
        &[BlockInput { kind: "hook".into(), component_id: Some(hook_id), text: None, est_seconds: None }],
    )
    .unwrap();
    let batch2 = batches::create(&db.conn, "Pickups", None).unwrap();
    batches::add_reels(&db.conn, &batch2.id, &[c.id.clone()]).unwrap();
    assert_eq!(batches::detail(&db.conn, &batch2.id).unwrap().shots.len(), 0, "hook already mastered");
}
