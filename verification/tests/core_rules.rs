use contentos_core::davinci::{ReelClips, StagedClip};
use contentos_core::reels::{BlockView, ReelDetail};
use contentos_core::hash::{hash_bytes, ContentHasher};
use contentos_core::davinci::{
    build_fcpxml, duration_warning, fcpxml_fits, file_url, frames, is_final_file,
    month_of, parse_reel_code, path_join, rational, xml_escape,
};
use contentos_core::library::{extension, file_name, is_video, rel};
use contentos_core::posts::{
    bundle_folder_name, bundle_stamp, caption_text, csv_quote, csv_row, is_platform, is_post_status,
    missing_final, nothing_exported, platform_short, split_schedule, staged_name, sync_target,
    time_for, timestamp_column,
};
use contentos_core::reels::Stage;
use contentos_core::CoreError;

fn v(items: &[&str]) -> Vec<String> {
    items.iter().map(|s| s.to_string()).collect()
}

#[test]
fn reel_sync_moves_only_forward() {
    // all scheduled → scheduled; one out → posted; all verified → verified
    assert_eq!(sync_target("edited", &v(&["scheduled", "pushed"])), Some(Stage::Scheduled));
    assert_eq!(sync_target("scheduled", &v(&["published", "scheduled"])), Some(Stage::Posted));
    assert_eq!(sync_target("posted", &v(&["verified", "verified"])), Some(Stage::Verified));
    // never backwards, never from archived/killed, nothing without posts
    assert_eq!(sync_target("verified", &v(&["scheduled"])), None);
    assert_eq!(sync_target("posted", &v(&["published"])), None);
    assert_eq!(sync_target("archived", &v(&["verified"])), None);
    assert_eq!(sync_target("killed", &v(&["published"])), None);
    assert_eq!(sync_target("edited", &v(&[])), None);
    // a draft among them holds the reel back
    assert_eq!(sync_target("edited", &v(&["scheduled", "draft"])), None);
    // moving to the target and syncing again changes nothing
    assert_eq!(sync_target("scheduled", &v(&["scheduled", "pushed"])), None);
}

#[test]
fn platforms_and_statuses() {
    assert_eq!(platform_short("instagram"), "IG");
    assert_eq!(platform_short("tiktok"), "TT");
    assert_eq!(platform_short("youtube"), "YT");
    assert_eq!(platform_short("vimeo"), "??");
    assert!(is_platform("tiktok") && !is_platform("TikTok"));
    assert!(is_post_status("canceled") && !is_post_status("cancelled"));
    assert_eq!(timestamp_column("published"), "published_at");
    assert_eq!(timestamp_column("verified"), "verified_at");
    assert_eq!(timestamp_column("pushed"), "pushed_at");
    assert_eq!(timestamp_column("scheduled"), "pushed_at");
    assert_eq!(timestamp_column("draft"), "");
    let times = vec![("instagram".to_string(), "09:00".to_string())];
    assert_eq!(time_for(&times, "instagram").as_deref(), Some("09:00"));
    assert_eq!(time_for(&times, "tiktok"), None);
}

#[test]
fn csv_pieces() {
    assert_eq!(csv_quote("say \"hi\""), "\"say \"\"hi\"\"\"");
    assert_eq!(csv_quote(""), "\"\"");
    assert_eq!(caption_text("Caption", &v(&["gym", "#fitness"])), "Caption\n\n#gym #fitness");
    assert_eq!(caption_text("Caption", &v(&[])), "Caption");
    assert_eq!(caption_text("C", &v(&[""])), "C\n\n#");
    assert_eq!(
        csv_row("Text", "2026-07-20", "09:00", "tiktok"),
        "\"Text\",2026-07-20,09:00,FALSE,FALSE,TRUE,FALSE\n"
    );
    assert_eq!(split_schedule("2026-07-20T09:00"), ("2026-07-20".to_string(), "09:00".to_string()));
    assert_eq!(split_schedule("2026-07-20"), ("2026-07-20".to_string(), "00:00".to_string()));
    assert_eq!(staged_name("2026-07-20", "09:00", "youtube", "R0007", "mov"), "2026-07-20_0900_YT_R0007.mov");
    assert_eq!(bundle_stamp("2026-07-20T09:15:00+02:00"), "20260720T0915");
    assert_eq!(bundle_folder_name("20260720T0915"), "bundle_20260720T0915");
    assert_eq!(missing_final("R0001 · tiktok", "04_FINALS/x.mp4"), "R0001 · tiktok — final file missing on disk (04_FINALS/x.mp4)");
    assert!(matches!(
        nothing_exported(&v(&["a", "b"])),
        CoreError::Invalid(m) if m == "nothing exported: a; b"
    ));
}

#[test]
fn paths_as_text() {
    assert_eq!(file_name("03_EXPORTS/R0001.mp4"), "R0001.mp4");
    assert_eq!(file_name("plain.mov"), "plain.mov");
    assert_eq!(extension("a.b.MP4").as_deref(), Some("MP4"));
    assert_eq!(extension(".hidden"), None);
    assert_eq!(extension("noext"), None);
    assert_eq!(extension("trailing.").as_deref(), Some(""));
    assert!(is_video("/media/00_INBOX/b.MOV"));
    assert!(is_video("clip.webm"));
    assert!(!is_video("/media/00_INBOX/notes.txt"));
    assert!(!is_video("/media/00_INBOX/.mp4"));
    assert_eq!(rel("/srv/media", "/srv/media/00_INBOX/a.mp4"), "00_INBOX/a.mp4");
    assert_eq!(rel("/srv/media/", "/srv/media/00_INBOX/a.mp4"), "00_INBOX/a.mp4");
    assert_eq!(rel("/srv/med", "/srv/media/00_INBOX/a.mp4"), "/srv/media/00_INBOX/a.mp4");
    assert_eq!(rel("C:\\media", "C:\\media\\00_INBOX\\a.mp4"), "C:/media/00_INBOX/a.mp4");
    assert_eq!(path_join("/srv", "x"), "/srv/x");
    assert_eq!(path_join("/srv/", "x"), "/srv/x");
    assert_eq!(path_join("", "x"), "x");
    assert!(is_final_file("R0001.MOV") && !is_final_file("R0001.mkv"));
    assert_eq!(month_of("2026-07-20T09:15:00+02:00"), "2026-07");
}

#[test]
fn timeline_numbers() {
    assert_eq!(frames(None), 1800);
    assert_eq!(frames(Some(1000)), 30);
    assert_eq!(frames(Some(1017)), 31); // 30.51 frames round up
    assert_eq!(frames(Some(16)), 0); // 0.48 frames round down
    assert_eq!(frames(Some(-1017)), -31);
    assert_eq!(rational(30), "3000/3000s");
    assert_eq!(rational(-2), "-200/3000s");
    assert_eq!(xml_escape("a&b<c>\"d\""), "a&amp;b&lt;c&gt;&quot;d&quot;");
    assert_eq!(file_url("/srv/my clips/#1?.mp4"), "file://localhost/srv/my%20clips/%231%3F.mp4");
    assert_eq!(file_url("C:\\x\\100%.mp4"), "file://localhost/C:/x/100%25.mp4");
    assert_eq!(
        duration_warning("R0001", "01_HOOK_HK0001.mp4"),
        "R0001/01_HOOK_HK0001.mp4 — unknown duration (ffprobe not available); timeline assumes 60s"
    );
    assert!(fcpxml_fits(&[]));
    let xml = build_fcpxml("B&1", "/h", &[]);
    assert!(xml.contains("<event name=\"B&amp;1\">"));
    assert!(xml.contains("frameDuration=\"100/3000s\""));
}

#[test]
fn reel_code_scan_any_name() {
    assert_eq!(parse_reel_code("naïve R0001.mov").as_deref(), Some("R0001"));
    // an R followed by four bytes that end inside a character is no code
    assert_eq!(parse_reel_code("R123é.mp4"), None);
    // and the scan goes on past it
    assert_eq!(parse_reel_code("R123é R0042.mp4").as_deref(), Some("R0042"));
}

#[test]
fn fcpxml_escapes_file_urls() {
    let detail = ReelDetail {
        id: "r".into(),
        code: "R0001".into(),
        title: "T".into(),
        slug: "t".into(),
        pillar_id: None,
        status: "shot".into(),
        notes: None,
        target_date: None,
        created_at: "c".into(),
        updated_at: "u".into(),
        blocks: vec![BlockView {
            id: "b".into(),
            position: 0,
            kind: "hook".into(),
            component_id: None,
            component_code: None,
            text: "x".into(),
            est_seconds: None,
        }],
    };
    let clip = StagedClip {
        ordinal: 1,
        kind: "HOOK".into(),
        clip_key: "S01".into(),
        asset_id: "a".into(),
        src_root: "/r".into(),
        src_rel: "x.mp4".into(),
        dest_name: "01_HOOK_S01.mp4".into(),
        duration_ms: Some(2000),
        filename: "x.mp4".into(),
    };
    let reels = vec![ReelClips { detail, clips: vec![clip] }];
    let xml = build_fcpxml("B001", "/media/Tom & Jerry/02_HANDOFF/B001", &reels);
    assert!(xml.contains("src=\"file://localhost/media/Tom%20&amp;%20Jerry/02_HANDOFF/B001/R0001_t/01_HOOK_S01.mp4\""));
    assert!(!xml.contains("Tom%20&%20"));
}

#[test]
fn content_hash_is_blake3_in_any_chunks() {
    assert_eq!(hash_bytes(b"abc"), "6437b3ac38465133ffb63b75273a8db548c558465d79db03fd359c6cd5bd9d85");
    let mut h = ContentHasher::new();
    h.feed(b"a");
    h.feed(b"bc");
    assert_eq!(h.hex(), hash_bytes(b"abc"));
    assert_eq!(hash_bytes(b"").len(), 64);
}
