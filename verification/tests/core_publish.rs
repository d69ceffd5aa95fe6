use contentos_core::batches;
use contentos_core::components;
use contentos_core::davinci;
use contentos_core::db::SqlValue;
use contentos_core::jobs::{claim_next, complete, count_failed, enqueue, fail, list_recent, retry};
use contentos_core::library::{self, ScanReport};
use contentos_core::posts::{
    bulk_fill_schedule, ensure_posts, list_posts, prepare_export, set_post_status, update_post,
    BundleDraft, ExportStep,
};
use contentos_core::reels::{self, BlockInput};
use contentos_core::roots;
use contentos_core::{CoreError, Db};

fn json(s: &str) -> serde_json::Value {
    serde_json::from_str(s).unwrap()
}

/// A registered root without touching any folder.
fn root(db: &Db) -> String {
    roots::register_root(&db.conn, "root-1", "media", "/srv/media", "local", None).unwrap().id
}

/// Index an inbox file and file it as the next take of a shot, as the app
/// does after moving the file.
fn ingest(db: &Db, root_id: &str, shot_id: &str, inbox_name: &str, hash: &str) -> batches::TakeView {
    let mut report = ScanReport::new();
    let rel = format!("00_INBOX/{inbox_name}");
    library::register_raw(&db.conn, &mut report, root_id, &rel, inbox_name, 10, hash).unwrap();
    let asset = library::list_inbox(&db.conn, root_id)
        .unwrap()
        .into_iter()
        .find(|a| a.filename == inbox_name)
        .unwrap();
    let plan = library::plan_take(&db.conn, shot_id, &asset.id).unwrap();
    library::record_take(&db.conn, &plan, shot_id, &asset.id, None).unwrap()
}

/// One modular + standalone reel, shot and selected, ready for hand-off.
fn shot_ready(db: &Db) -> (String, String, String) {
    let hook = components::create(&db.conn, "hook", "Hook line", &[], None).unwrap();
    let reel = reels::create(&db.conn, "Gym myths #1", None).unwrap();
    reels::set_blocks(
        &db.conn,
        &reel.id,
        &[
            BlockInput { kind: "hook".into(), component_id: Some(hook.id), text: None, est_seconds: None },
            BlockInput { kind: "body".into(), component_id: None, text: Some("Body text".into()), est_seconds: None },
        ],
    )
    .unwrap();
    let root_id = root(db);
    let batch = batches::create(&db.conn, "Day 1", None).unwrap();
    batches::add_reels(&db.conn, &batch.id, &[reel.id.clone()]).unwrap();
    let detail = batches::detail(&db.conn, &batch.id).unwrap();
    for (i, shot) in detail.shots.iter().enumerate() {
        let take = ingest(db, &root_id, &shot.id, &format!("c{i}.mp4"), &format!("hash{i}"));
        batches::select_take(&db.conn, &shot.id, &take.id).unwrap();
    }
    (reel.id, batch.id, root_id)
}

/// Stage the hand-off and file a final, as the app does around the file moves.
fn edited(db: &Db) -> (String, String) {
    let (reel_id, batch_id, root_id) = shot_ready(db);
    let plan = davinci::plan_handoff(&db.conn, &batch_id).unwrap();
    davinci::finish_handoff(&db.conn, &plan).unwrap();
    let detail = reels::get_detail(&db.conn, &reel_id).unwrap();
    davinci::file_final(&db.conn, &root_id, &detail, "04_FINALS/2026-07/R0001_final.mp4", "R0001_final.mp4", 6)
        .unwrap();
    (reel_id, root_id)
}

#[test]
fn lifecycle_queued_running_done() {
    let db = Db::open_in_memory().unwrap();
    enqueue(&db.conn, "index_folder", &json(r#"{ "path": "00_INBOX" }"#)).unwrap();

    let job = claim_next(&db.conn).unwrap().unwrap();
    assert_eq!(job.status, "running");
    assert_eq!(job.attempts, 1);
    assert!(claim_next(&db.conn).unwrap().is_none()); // nothing else queued

    complete(&db.conn, &job.id).unwrap();
    let recent = list_recent(&db.conn, 10).unwrap();
    assert_eq!(recent[0].status, "done");
}

#[test]
fn failed_jobs_count_and_retry() {
    let db = Db::open_in_memory().unwrap();
    enqueue(&db.conn, "metricool_push", &json("{}")).unwrap();
    let job = claim_next(&db.conn).unwrap().unwrap();
    fail(&db.conn, &job.id, "429 rate limited").unwrap();
    assert_eq!(count_failed(&db.conn).unwrap(), 1);

    retry(&db.conn, &job.id).unwrap();
    assert_eq!(count_failed(&db.conn).unwrap(), 0);
    let again = claim_next(&db.conn).unwrap().unwrap();
    assert_eq!(again.attempts, 2);
}

#[test]
fn job_payload_round_trips_and_unknown_ids_are_not_found() {
    let db = Db::open_in_memory().unwrap();
    let job = enqueue(&db.conn, "index_folder", &json(r#"{"path":"00_INBOX","n":3}"#)).unwrap();
    assert_eq!(job.status, "queued");
    assert_eq!(job.attempts, 0);
    let listed = list_recent(&db.conn, 10).unwrap();
    assert_eq!(listed[0].payload, json(r#"{"path":"00_INBOX","n":3}"#));
    assert!(matches!(complete(&db.conn, "nope"), Err(CoreError::NotFound(m)) if m == "job nope"));
    // a job that has not failed cannot be retried
    assert!(matches!(retry(&db.conn, &job.id), Err(CoreError::NotFound(m)) if m == format!("failed job {}", job.id)));
}

#[test]
fn posts_lifecycle_and_reel_sync() {
    let db = Db::open_in_memory().unwrap();
    let (reel_id, _) = edited(&db);

    ensure_posts(&db.conn, &reel_id, &["instagram".into(), "tiktok".into()]).unwrap();
    ensure_posts(&db.conn, &reel_id, &["instagram".into()]).unwrap(); // idempotent
    let posts = list_posts(&db.conn, Some("draft")).unwrap();
    assert_eq!(posts.len(), 2);
    assert_eq!(posts[0].final_filename.as_deref(), Some("R0001_final.mp4"));

    // bulk fill from target date
    reels::set_target_date(&db.conn, &reel_id, Some("2026-07-20")).unwrap();
    let times = vec![
        ("instagram".to_string(), "09:00".to_string()),
        ("tiktok".to_string(), "12:30".to_string()),
    ];
    assert_eq!(bulk_fill_schedule(&db.conn, &times).unwrap(), 2);
    let posts = list_posts(&db.conn, None).unwrap();
    assert!(posts.iter().any(|p| p.scheduled_at.as_deref() == Some("2026-07-20T09:00")));

    // status sync: both scheduled → reel scheduled; one published → posted; all verified → verified
    for p in &posts {
        set_post_status(&db.conn, &p.id, "scheduled", None).unwrap();
    }
    assert_eq!(reels::get_detail(&db.conn, &reel_id).unwrap().status, "scheduled");
    set_post_status(&db.conn, &posts[0].id, "published", None).unwrap();
    assert_eq!(reels::get_detail(&db.conn, &reel_id).unwrap().status, "posted");
    set_post_status(&db.conn, &posts[0].id, "verified", None).unwrap();
    set_post_status(&db.conn, &posts[1].id, "verified", None).unwrap();
    assert_eq!(reels::get_detail(&db.conn, &reel_id).unwrap().status, "verified");
}

#[test]
fn csv_bundle_export() {
    let db = Db::open_in_memory().unwrap();
    let (reel_id, _) = edited(&db);

    ensure_posts(&db.conn, &reel_id, &["instagram".into(), "youtube".into()]).unwrap();
    let posts = list_posts(&db.conn, None).unwrap();
    // caption+time on IG; YT left incomplete on purpose
    let ig = posts.iter().find(|p| p.platform == "instagram").unwrap();
    let yt = posts.iter().find(|p| p.platform == "youtube").unwrap();
    update_post(
        &db.conn,
        &ig.id,
        Some("Stop believing this gym myth."),
        &["gym".into(), "#fitness".into()],
        Some("2026-07-20T09:00"),
    )
    .unwrap();

    let all = list_posts(&db.conn, None).unwrap();
    match prepare_export(&db.conn, &all, &ig.id).unwrap() {
        ExportStep::Ready(x) => {
            assert_eq!(x.label, "R0001 · instagram");
            assert_eq!(x.staged_name, "2026-07-20_0900_IG_R0001.mp4");
            assert!(x.csv_row.contains("2026-07-20,09:00,FALSE,TRUE,FALSE,FALSE"));
            assert!(x.csv_row.contains("#gym #fitness"));
            assert_eq!(x.final_rel, "04_FINALS/2026-07/R0001_final.mp4");
        },
        ExportStep::Skip(m) => panic!("instagram post skipped: {m}"),
    }
    match prepare_export(&db.conn, &all, &yt.id).unwrap() {
        ExportStep::Skip(m) => assert_eq!(m, "R0001 · youtube — no schedule time set"),
        ExportStep::Ready(_) => panic!("youtube post has no schedule"),
    }
    match prepare_export(&db.conn, &all, "missing").unwrap() {
        ExportStep::Skip(m) => assert_eq!(m, "post missing not found"),
        ExportStep::Ready(_) => panic!("unknown post"),
    }

    // the bundle: the instagram post goes in and is scheduled, youtube is left out
    let mut draft = BundleDraft::new();
    for id in [ig.id.clone(), yt.id.clone()] {
        match prepare_export(&db.conn, &all, &id).unwrap() {
            ExportStep::Skip(m) => draft.skip(m),
            ExportStep::Ready(x) => {
                set_post_status(&db.conn, &x.post_id, "scheduled", None).unwrap();
                draft.add(&x);
            },
        }
    }
    let (bundle, csv) = draft.finish("bundle".into()).unwrap();
    assert_eq!(bundle.exported, vec!["R0001 · instagram"]);
    assert_eq!(bundle.skipped.len(), 1, "youtube skipped with reason");
    assert!(csv.contains("2026-07-20,09:00,FALSE,TRUE,FALSE,FALSE"));
    assert!(csv.contains("#gym #fitness"));

    // exported post is now scheduled
    let ig_after = list_posts(&db.conn, Some("scheduled")).unwrap();
    assert_eq!(ig_after.len(), 1);

    // exporting nothing valid errors with reasons
    let all = list_posts(&db.conn, None).unwrap();
    let mut draft = BundleDraft::new();
    match prepare_export(&db.conn, &all, &yt.id).unwrap() {
        ExportStep::Skip(m) => draft.skip(m),
        ExportStep::Ready(_) => panic!("youtube post has no schedule"),
    }
    assert!(matches!(
        draft.finish("bundle".into()),
        Err(CoreError::Invalid(m)) if m == "nothing exported: R0001 · youtube — no schedule time set"
    ));
}

#[test]
fn post_inputs_are_checked() {
    let db = Db::open_in_memory().unwrap();
    let reel = reels::create(&db.conn, "Checks", None).unwrap();
    assert!(matches!(
        ensure_posts(&db.conn, &reel.id, &["instagram".into(), "myspace".into()]),
        Err(CoreError::Invalid(m)) if m == "unknown platform: myspace"
    ));
    ensure_posts(&db.conn, &reel.id, &["tiktok".into()]).unwrap();
    let p = &list_posts(&db.conn, None).unwrap()[0];
    assert!(matches!(
        update_post(&db.conn, &p.id, None, &[], Some("2026-07-20 09:00")),
        Err(CoreError::Invalid(m)) if m == "invalid schedule time (want YYYY-MM-DDTHH:MM): 2026-07-20 09:00"
    ));
    assert!(matches!(
        set_post_status(&db.conn, &p.id, "viral", None),
        Err(CoreError::Invalid(m)) if m == "invalid post status: viral"
    ));
    assert!(matches!(
        update_post(&db.conn, "nope", None, &[], None),
        Err(CoreError::NotFound(m)) if m == "post nope"
    ));
    // a failed post does not move the reel
    set_post_status(&db.conn, &p.id, "failed", Some("upload rejected")).unwrap();
    assert_eq!(reels::get_detail(&db.conn, &reel.id).unwrap().status, "idea");
    // hashtags written are read back
    update_post(&db.conn, &p.id, Some("c"), &["a".into(), "b c".into()], None).unwrap();
    assert_eq!(list_posts(&db.conn, None).unwrap()[0].hashtags, vec!["a".to_string(), "b c".to_string()]);
}

#[test]
fn handoff_stages_files_and_fcpxml() {
    let db = Db::open_in_memory().unwrap();
    let (reel_id, batch_id, _) = shot_ready(&db);

    let plan = davinci::plan_handoff(&db.conn, &batch_id).unwrap();
    assert_eq!(plan.batch_code, "B001");
    assert_eq!(plan.reels.len(), 1);
    assert_eq!(plan.reels[0].clips.len(), 2);
    assert_eq!(davinci::reel_folder(&plan.reels[0].detail), "R0001_gym-myths-1");
    assert_eq!(plan.reels[0].clips[0].dest_name, "01_HOOK_HK0001.mp4");
    assert_eq!(plan.reels[0].clips[1].dest_name, "02_BODY_S02.mp4");
    assert_eq!(davinci::script_file_name(&plan.reels[0].detail.code), "R0001_script.txt");

    assert!(davinci::fcpxml_fits(&plan.reels));
    let xml = davinci::build_fcpxml(&plan.batch_code, "/srv/media/02_HANDOFF/B001", &plan.reels);
    assert!(xml.contains("<project name=\"R0001_gym-myths-1\">"));
    assert!(xml.contains("01_HOOK_HK0001"));
    assert!(xml.matches("<asset-clip").count() == 2);
    assert!(xml.contains("width=\"1080\" height=\"1920\""));

    davinci::finish_handoff(&db.conn, &plan).unwrap();
    let reel_status: String = db.conn.query_row("SELECT status FROM reels", [], |r| r.get(0)).unwrap();
    assert_eq!(reel_status, "assembled");

    // planning again gives the same staging
    let plan2 = davinci::plan_handoff(&db.conn, &batch_id).unwrap();
    assert_eq!(plan2.reels.len(), 1);
    assert_eq!(reels::get_detail(&db.conn, &reel_id).unwrap().status, "assembled");
}

#[test]
fn export_matching_and_confirm() {
    let db = Db::open_in_memory().unwrap();
    let (reel_id, batch_id, root_id) = shot_ready(&db);
    let plan = davinci::plan_handoff(&db.conn, &batch_id).unwrap();
    davinci::finish_handoff(&db.conn, &plan).unwrap();

    let mut scan = davinci::ExportScan::new();
    for name in ["R0001_gym-myths-1.mp4", "random-clip.mp4"] {
        assert!(davinci::is_final_file(name));
        davinci::match_export(&db.conn, &mut scan, name).unwrap();
    }
    assert_eq!(scan.matches.len(), 1);
    assert_eq!(scan.matches[0].reel_code, "R0001");
    assert_eq!(scan.matches[0].rel_path, "03_EXPORTS/R0001_gym-myths-1.mp4");
    assert_eq!(scan.unmatched.len(), 1);

    let detail = reels::get_detail(&db.conn, &scan.matches[0].reel_id).unwrap();
    davinci::file_final(&db.conn, &root_id, &detail, "04_FINALS/2026-07/R0001_gym-myths-1.mp4", "R0001_gym-myths-1.mp4", 12)
        .unwrap();
    let (status, final_asset): (String, Option<String>) = db
        .conn
        .query_row("SELECT status, final_asset_id FROM reels WHERE code = 'R0001'", [], |r| Ok((r.get(0)?, r.get(1)?)))
        .unwrap();
    assert_eq!(status, "edited");
    assert!(final_asset.is_some());
    assert_eq!(reel_id, detail.id);
}

#[test]
fn add_list_remove_root() {
    let db = Db::open_in_memory().unwrap();
    roots::check_new_root("media", "local").unwrap();
    let root = roots::register_root(&db.conn, "id-1", "  media ", "/srv/media", "local", Some(1000)).unwrap();
    assert_eq!(root.name, "media");

    let listed = roots::registered_roots(&db.conn).unwrap();
    assert_eq!(listed.len(), 1);
    let live = roots::record_online(&db.conn, listed[0].clone(), true, Some(500)).unwrap();
    assert!(live.online);
    assert_eq!(live.free_bytes, Some(500));

    // duplicate registration is refused: the folder's marker names a registered root
    assert!(roots::root_registered(&db.conn, "id-1").unwrap());
    assert!(roots::marker_matches("id-1\n", "id-1"));

    roots::remove_root(&db.conn, &root.id).unwrap();
    assert!(roots::registered_roots(&db.conn).unwrap().is_empty());
}

#[test]
fn offline_root_is_reported() {
    let db = Db::open_in_memory().unwrap();
    roots::register_root(&db.conn, "id-1", "media", "/srv/media", "local", None).unwrap();
    let rec = roots::registered_roots(&db.conn).unwrap().remove(0);
    let listed = roots::record_online(&db.conn, rec, false, Some(42)).unwrap();
    assert!(!listed.online);
    assert_eq!(listed.free_bytes, None);
    let online: i64 = db.conn.query_row("SELECT online FROM storage_roots", [], |r| r.get(0)).unwrap();
    assert_eq!(online, 0);
}

#[test]
fn root_rules() {
    let db = Db::open_in_memory().unwrap();
    assert!(matches!(roots::check_new_root("media", "cloud"), Err(CoreError::Invalid(m)) if m == "invalid root kind: cloud"));
    assert!(matches!(roots::check_new_root("  ", "nas"), Err(CoreError::Invalid(m)) if m == "root name is required"));
    let root_id = root(&db);
    let mut report = ScanReport::new();
    library::register_raw(&db.conn, &mut report, &root_id, "00_INBOX/a.mp4", "a.mp4", 1, "h").unwrap();
    assert!(matches!(
        roots::remove_root(&db.conn, &root_id),
        Err(CoreError::Invalid(m)) if m == "cannot remove: 1 indexed files still reference this root"
    ));
    assert!(matches!(roots::remove_root(&db.conn, "nope"), Err(CoreError::NotFound(m)) if m == "storage root nope"));
    assert!(matches!(roots::repoint_root(&db.conn, "nope", "/x"), Err(CoreError::NotFound(m)) if m == "storage root nope"));
    roots::repoint_root(&db.conn, &root_id, "/mnt/nas/media").unwrap();
    assert_eq!(roots::registered_roots(&db.conn).unwrap()[0].path, "/mnt/nas/media");
    assert!(!roots::marker_matches("other-id", &root_id));
}

#[test]
fn scan_dedup_and_inbox() {
    let db = Db::open_in_memory().unwrap();
    let root_id = root(&db);
    let files = [("a.mp4", "video-a"), ("b.MOV", "video-b"), ("copy-of-a.mp4", "video-a"), ("notes.txt", "x")];
    let mut report = ScanReport::new();
    for (name, content) in files {
        let path = format!("/srv/media/00_INBOX/{name}");
        if !library::is_video(&path) {
            continue;
        }
        report.count_scanned();
        let rel = library::rel("/srv/media", &path);
        if library::is_indexed(&db.conn, &root_id, &rel).unwrap() {
            continue;
        }
        if library::check_duplicate(&db.conn, &mut report, content).unwrap() {
            continue;
        }
        library::register_raw(&db.conn, &mut report, &root_id, &rel, name, 7, content).unwrap();
    }
    assert_eq!(report.scanned, 3);
    assert_eq!(report.added, 2);
    assert_eq!(report.duplicates, 1);

    let inbox_assets = library::list_inbox(&db.conn, &root_id).unwrap();
    assert_eq!(inbox_assets.len(), 2);
    assert!(inbox_assets.iter().all(|a| a.kind == "raw"));
    assert!(library::is_indexed(&db.conn, &root_id, "00_INBOX/a.mp4").unwrap());
}

#[test]
fn takes_are_filed_under_the_batch() {
    let db = Db::open_in_memory().unwrap();
    let (_, batch_id, _) = shot_ready(&db);
    let d = batches::detail(&db.conn, &batch_id).unwrap();
    let f = &d.shots[0].takes[0].filename;
    assert!(f.starts_with("B001_") && f.ends_with("_T01.mp4"), "got {f}");
    assert!(d.shots.iter().all(|s| s.takes.iter().all(|t| t.selected == (s.selected_take_id.as_deref() == Some(t.id.as_str())))));
    assert!(d.shots[0].takes[0].selected);
    let rel: String = db
        .conn
        .query_row("SELECT rel_path FROM assets WHERE filename = ?1", [f], |r| r.get(0))
        .unwrap();
    assert_eq!(rel, format!("01_RAW/B001/{f}"));
    assert_eq!(library::take_name("B001", "HK0001", 3, "mov"), "B001_HK0001_T03.mov");
    assert!(matches!(library::take_exists("B001_X_T01.mp4"), CoreError::Invalid(m) if m == "B001_X_T01.mp4 already exists"));
}

#[test]
fn unknown_root_is_a_database_error() {
    let db = Db::open_in_memory().unwrap();
    assert!(matches!(davinci::root_folder(&db.conn, "nope"), Err(CoreError::Sqlite(_))));
    assert!(matches!(library::root_path(&db.conn, "nope"), Err(CoreError::NotFound(m)) if m == "storage root nope"));
    assert!(matches!(davinci::export_missing("03_EXPORTS/x.mp4"), CoreError::NotFound(m) if m == "export file 03_EXPORTS/x.mp4"));
    assert!(matches!(
        davinci::final_exists("R0001.mp4", "2026-07"),
        CoreError::Invalid(m) if m == "R0001.mp4 already exists in 04_FINALS/2026-07 — rename the export (e.g. _v2) first"
    ));
}

#[test]
fn rows_decode_column_by_column() {
    let t = |s: &str| SqlValue::Text(s.to_string());
    let row = vec![
        t("p1"), t("r1"), t("R0001"), t("Title"), t("edited"), SqlValue::Null, t("tiktok"), t("Caption"),
        t("[\"gym\",\"#fit\"]"), t("2026-07-20T09:00"), t("draft"), SqlValue::Null, t("R0001_final.mp4"),
    ];
    let p = contentos_core::posts::row_to_post(&row).unwrap();
    assert_eq!(p.hashtags, vec!["gym".to_string(), "#fit".to_string()]);
    assert_eq!(p.target_date, None);
    assert_eq!(p.final_filename.as_deref(), Some("R0001_final.mp4"));
    // a NULL where text is required is a database error
    let mut bad = row.clone();
    bad[0] = SqlValue::Null;
    assert!(matches!(contentos_core::posts::row_to_post(&bad), Err(CoreError::Sqlite(_))));
    // NULL hashtags read as none
    let mut none = row.clone();
    none[8] = SqlValue::Null;
    assert!(contentos_core::posts::row_to_post(&none).unwrap().hashtags.is_empty());
}

#[test]
fn take_rating_is_refused_before_anything_is_written() {
    let db = Db::open_in_memory().unwrap();
    let root_id = root(&db);
    let hook = components::create(&db.conn, "hook", "Hook line", &[], None).unwrap();
    let reel = reels::create(&db.conn, "Rated", None).unwrap();
    reels::set_blocks(
        &db.conn,
        &reel.id,
        &[BlockInput { kind: "hook".into(), component_id: Some(hook.id), text: None, est_seconds: None }],
    )
    .unwrap();
    let batch = batches::create(&db.conn, "Day 1", None).unwrap();
    batches::add_reels(&db.conn, &batch.id, &[reel.id.clone()]).unwrap();
    let shot = batches::detail(&db.conn, &batch.id).unwrap().shots[0].id.clone();
    let mut report = ScanReport::new();
    library::register_raw(&db.conn, &mut report, &root_id, "00_INBOX/a.mp4", "a.mp4", 10, "h").unwrap();
    let asset = library::list_inbox(&db.conn, &root_id).unwrap().remove(0);
    assert!(matches!(batches::check_rating(Some(9)), Err(CoreError::Invalid(m)) if m == "rating must be 1–5"));
    assert!(batches::check_rating(Some(5)).is_ok() && batches::check_rating(None).is_ok());
    let plan = library::plan_take(&db.conn, &shot, &asset.id).unwrap();
    assert!(matches!(
        library::record_take(&db.conn, &plan, &shot, &asset.id, Some(9)),
        Err(CoreError::Invalid(m)) if m == "rating must be 1–5"
    ));
    let takes: i64 = db.conn.query_row("SELECT COUNT(*) FROM takes", [], |r| r.get(0)).unwrap();
    assert_eq!(takes, 0);
    assert_eq!(library::list_inbox(&db.conn, &root_id).unwrap().len(), 1);
    let take = library::record_take(&db.conn, &plan, &shot, &asset.id, Some(3)).unwrap();
    assert_eq!(take.rating, Some(3));
}

#[test]
fn handoff_stages_exactly_the_ready_reels() {
    let db = Db::open_in_memory().unwrap();
    let (_, batch_id, _) = shot_ready(&db);
    // a second reel in the batch, still without takes
    let other = reels::create(&db.conn, "Later", None).unwrap();
    reels::set_blocks(
        &db.conn,
        &other.id,
        &[BlockInput { kind: "body".into(), component_id: None, text: Some("x".into()), est_seconds: None }],
    )
    .unwrap();
    batches::add_reels(&db.conn, &batch_id, &[other.id.clone()]).unwrap();
    let plan = davinci::plan_handoff(&db.conn, &batch_id).unwrap();
    assert_eq!(plan.reels.len(), 1);
    assert_eq!(plan.skipped, vec!["R0002 — status shotlisted, needs selected takes for every block"]);
    assert!(plan.reels[0].clips.iter().all(|c| c.src_root == "/srv/media"));
    assert_eq!(plan.root_path, "/srv/media");
    assert_eq!(davinci::reels_to_assemble(&plan), vec![plan.reels[0].detail.id.clone()]);
}

#[test]
fn handoff_without_ready_reels_or_reels_is_refused() {
    let db = Db::open_in_memory().unwrap();
    let batch = batches::create(&db.conn, "Empty", None).unwrap();
    assert!(matches!(
        davinci::plan_handoff(&db.conn, &batch.id),
        Err(CoreError::Invalid(m)) if m == "this batch has no reels — add reels to its shot list first"
    ));
    assert!(matches!(davinci::plan_handoff(&db.conn, "nope"), Err(CoreError::NotFound(m)) if m == "batch nope"));
    let reel = reels::create(&db.conn, "Not yet", None).unwrap();
    reels::set_blocks(
        &db.conn,
        &reel.id,
        &[BlockInput { kind: "body".into(), component_id: None, text: Some("x".into()), est_seconds: None }],
    )
    .unwrap();
    batches::add_reels(&db.conn, &batch.id, &[reel.id.clone()]).unwrap();
    assert!(matches!(
        davinci::plan_handoff(&db.conn, &batch.id),
        Err(CoreError::Invalid(m)) if m == "no reels in this batch are ready — every block needs a selected take"
    ));
    assert!(matches!(
        davinci::assemble_plan("B9".into(), vec![]),
        Err(CoreError::Invalid(m)) if m == "this batch has no reels — add reels to its shot list first"
    ));
}

#[test]
fn status_moves_are_decided_from_the_stored_status() {
    assert_eq!(reels::decide_status_move("shot", "shot", false).unwrap(), false);
    assert_eq!(reels::decide_status_move("shot", "assembled", false).unwrap(), true);
    assert!(matches!(
        reels::decide_status_move("idea", "posted", false),
        Err(CoreError::Invalid(m)) if m == "moving idea → posted skips pipeline stages; pass overrule to force it"
    ));
    assert_eq!(reels::decide_status_move("idea", "posted", true).unwrap(), true);
    assert_eq!(davinci::final_status_move("assembled"), Some("edited"));
    assert_eq!(davinci::final_status_move("posted"), None);
    assert_eq!(batches::reel_moves("scripted", &[true, false]), vec!["shotlisted"]);
    assert_eq!(batches::reel_moves("scripted", &[true, true]), vec!["shotlisted", "shot"]);
    assert_eq!(batches::reel_moves("shotlisted", &[true]), vec!["shot"]);
    assert!(batches::reel_moves("shotlisted", &[]).is_empty());
    assert!(batches::reel_moves("shot", &[true]).is_empty());
}

#[test]
fn exports_match_exactly_the_looked_up_reel() {
    let t = |s: &str| SqlValue::Text(s.to_string());
    let mut scan = davinci::ExportScan::new();
    davinci::apply_export_lookup(&mut scan, "R0009.mp4", "R0009", None).unwrap();
    assert_eq!(scan.unmatched, vec!["R0009.mp4 — no reel R0009 exists"]);
    davinci::apply_export_lookup(&mut scan, "R0001.mp4", "R0001", Some(vec![t("r1"), t("R0001"), t("T"), t("edited")]))
        .unwrap();
    assert_eq!(scan.matches.len(), 1);
    assert_eq!(scan.matches[0].reel_id, "r1");
    assert_eq!(scan.matches[0].reel_status, "edited");
    assert!(davinci::apply_export_lookup(&mut scan, "R0001.mp4", "R0001", Some(vec![t("r1")])).is_err());
}
