use contentos_core::davinci::parse_reel_code;
use contentos_core::reels::slugify;
use contentos_core::search::to_match_query;

#[test]
fn slugs() {
    assert_eq!(slugify("Gym Myths #3 — Cardio!?"), "gym-myths-3-cardio");
    assert_eq!(slugify("???"), "reel");
}

#[test]
fn match_query_escapes_quotes() {
    assert_eq!(to_match_query("hook \"quoted\""), "\"hook\"* \"\"\"quoted\"\"\"*");
}

#[test]
fn reel_code_parsing() {
    assert_eq!(parse_reel_code("R0142_gym-myths_FINAL.mp4"), Some("R0142".into()));
    assert_eq!(parse_reel_code("final R0001.mov"), Some("R0001".into()));
    assert_eq!(parse_reel_code("R01423-not-a-code.mp4"), None);
    assert_eq!(parse_reel_code("no-code.mp4"), None);
}

#[test]
fn string_lists_are_written_as_serde_json_does() {
    let items: Vec<String> = vec!["a\"b".into(), "c\\d\n".into(), "\u{1}".into(), "é".into()];
    assert_eq!(
        contentos_core::json::json_string_list(&items),
        "[\"a\\\"b\",\"c\\\\d\\n\",\"\\u0001\",\"é\"]"
    );
    assert_eq!(contentos_core::json::json_string_list(&[]), "[]");
}

#[test]
fn new_ids_are_hyphenated_v4_uuids() {
    let id = contentos_core::ids::new_id();
    assert_eq!(id.len(), 36);
    for (i, c) in id.chars().enumerate() {
        if [8, 13, 18, 23].contains(&i) {
            assert_eq!(c, '-');
        } else {
            assert!(c.is_ascii_digit() || ('a'..='f').contains(&c));
        }
    }
    assert_eq!(id.as_bytes()[14], b'4');
}
