use contentos_core::batches::{self, ShotKey};
use contentos_core::davinci;
use contentos_core::db::SqlValue;
use contentos_core::library;
use contentos_core::order::{order_by_key, sorted_distinct};
use contentos_core::reels::BlockView;
use contentos_core::CoreError;

fn t(s: &str) -> SqlValue {
    SqlValue::Text(s.to_string())
}

fn block(id: &str, position: i64, component: Option<(&str, &str)>) -> BlockView {
    BlockView {
        id: id.into(),
        position,
        kind: "body".into(),
        component_id: component.map(|(c, _)| c.to_string()),
        component_code: component.map(|(_, code)| code.to_string()),
        text: "x".into(),
        est_seconds: None,
    }
}

#[test]
fn records_are_put_in_order() {
    assert_eq!(order_by_key(&vec![3, 1, 2, 1]), vec![1, 3, 2, 0]);
    assert!(order_by_key(&vec![]).is_empty());
    let codes: Vec<String> = vec!["R0002".into(), "R0001".into(), "R0002".into()];
    assert_eq!(sorted_distinct(&codes), vec!["R0001".to_string(), "R0002".to_string()]);
}

#[test]
fn shots_are_built_from_their_rows() {
    let own = vec![
        t("s1"), SqlValue::Int(3), t("pending"), SqlValue::Null, SqlValue::Null, SqlValue::Null, SqlValue::Null,
        SqlValue::Null, t("reel-2"), SqlValue::Int(2), t("cta"), t("Follow"),
    ];
    let shot = batches::build_shot(&own, vec![], "R0002".into(), vec![]).unwrap();
    assert_eq!(shot.clip_key, "R0002-S03");
    assert_eq!(shot.used_by, vec!["R0002"]);
    assert_eq!(shot.kind, "cta");
    assert_eq!(shot.position, 3);
    let comp = vec![
        t("s2"), SqlValue::Int(1), t("recorded"), t("take-1"), t("c1"), t("HK0001"), t("hook"), t("Hook line"),
        SqlValue::Null, SqlValue::Null, SqlValue::Null, SqlValue::Null,
    ];
    let shot = batches::build_shot(&comp, vec!["R0001".into(), "R0002".into()], String::new(), vec![]).unwrap();
    assert_eq!(shot.clip_key, "HK0001");
    assert_eq!(shot.used_by, vec!["R0001", "R0002"]);
    assert_eq!(shot.selected_take_id.as_deref(), Some("take-1"));
    assert!(matches!(batches::build_shot(&vec![t("s3")], vec![], String::new(), vec![]), Err(CoreError::Sqlite(_))));
}

#[test]
fn reels_plan_their_shots_and_moves() {
    let blocks = vec![block("b1", 0, Some(("c1", "HK0001"))), block("b2", 1, None), block("b3", 2, Some(("c2", "BD0002")))];
    let mut present = vec![ShotKey::Component("c1".into())];
    let shots = batches::plan_reel_shots(&mut present, &blocks, &[false, false, true]);
    assert_eq!(shots.len(), 1);
    assert!(matches!(&shots[0], ShotKey::Block(b) if b == "b2"));
    // planning the same blocks again adds nothing
    assert!(batches::plan_reel_shots(&mut present, &blocks, &[false, false, true]).is_empty());
}

#[test]
fn block_takes_resolve_from_their_rows() {
    let b = block("b2", 1, None);
    assert!(matches!(davinci::take_source(&b), davinci::TakeSource::BlockShot(x) if x == "b2"));
    let c = block("b1", 0, Some(("c1", "HK0001")));
    assert!(matches!(davinci::take_source(&c), davinci::TakeSource::ComponentMaster(x) if x == "c1"));
    assert_eq!(davinci::selected_take_id(&None).unwrap(), None);
    assert_eq!(davinci::selected_take_id(&Some(vec![SqlValue::Null])).unwrap(), None);
    assert_eq!(davinci::selected_take_id(&Some(vec![t("take-9")])).unwrap().as_deref(), Some("take-9"));
    assert!(davinci::take_from_found(&b, &None).unwrap().is_none());
    let row = vec![t("root-1"), t("01_RAW/B001/x.mp4"), t("x.mp4"), SqlValue::Int(1500), t("asset-1")];
    let take = davinci::take_from_found(&b, &Some(row)).unwrap().unwrap();
    assert_eq!(take.clip_key, "S02");
    assert_eq!(take.rel_path, "01_RAW/B001/x.mp4");
    assert_eq!(take.duration_ms, Some(1500));
}

#[test]
fn take_numbers_follow_the_highest() {
    assert_eq!(library::next_take_number(&vec![]), Some(1));
    assert_eq!(library::next_take_number(&vec![1, 3, 2]), Some(4));
    assert_eq!(library::next_take_number(&vec![i64::MAX]), None);
    let plan = library::take_plan("B001".into(), "HK0001".into(), "/srv".into(), "00_INBOX/a.MOV".into(), 3);
    assert_eq!(plan.new_name, "B001_HK0001_T03.mov");
    assert_eq!(plan.new_rel, "01_RAW/B001/B001_HK0001_T03.mov");
}
