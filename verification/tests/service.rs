use leaderboard_lambda::rows::RawRow;
use leaderboard_lambda::service::{handle_request, Config};
use leaderboard_lambda::ScoreEntry;

fn names_scores(entries: &[ScoreEntry]) -> Vec<(String, u32, usize)> {
    entries.iter().map(|e| (e.name.clone(), e.score, e.level)).collect()
}

#[test]
fn submit_then_read_scenario() {
    let mut store: Vec<RawRow> = Vec::new();

    let out = handle_request(&mut store, b"{\"name\": \"Ada\", \"score\": 120, \"level\": 2}")
        .expect("valid submission");
    assert_eq!(store.len(), 1);
    assert_eq!(names_scores(&out), [("Ada".to_string(), 120, 2)]);

    let out = handle_request(&mut store, b"{\"name\": \"\", \"score\": 0, \"level\": 2}")
        .expect("pure read");
    assert_eq!(store.len(), 1, "an empty-name submission must not write");
    assert_eq!(names_scores(&out), [("Ada".to_string(), 120, 2)]);
}

#[test]
fn every_valid_submission_appends_a_fresh_row() {
    let mut store: Vec<RawRow> = Vec::new();
    handle_request(&mut store, b"{\"name\":\"Ada\",\"score\":120,\"level\":2}").unwrap();
    let out = handle_request(&mut store, b"{\"name\":\"Ada\",\"score\":120,\"level\":2}").unwrap();
    assert_eq!(store.len(), 2, "duplicates are separate rows");
    assert_eq!(out.len(), 2);
}

#[test]
fn empty_name_store_count_unchanged() {
    let mut store = vec![
        ScoreEntry::add("Ada".to_string(), 120, 2).to_row(),
        ScoreEntry::add("Bo".to_string(), 7, 1).to_row(),
    ];
    let out = handle_request(&mut store, b"{\"name\":\"\",\"score\":0,\"level\":1}")
        .expect("pure read");
    assert_eq!(store.len(), 2);
    assert_eq!(
        names_scores(&out),
        [("Ada".to_string(), 120, 2), ("Bo".to_string(), 7, 1)]
    );
}

#[test]
fn malformed_body_rejected_without_write() {
    let mut store = vec![ScoreEntry::add("Ada".to_string(), 120, 2).to_row()];
    let out = handle_request(&mut store, b"{\"name\": 5, \"score\": \"x\"}");
    assert!(out.is_none(), "malformed input gets the invalid-input answer");
    assert_eq!(store.len(), 1, "the store is never written on rejection");
}

#[test]
fn consecutive_reads_identical() {
    let mut store = vec![
        ScoreEntry::add("Ada".to_string(), 120, 2).to_row(),
        ScoreEntry::add("Bo".to_string(), 7, 1).to_row(),
    ];
    let read = b"{\"name\":\"\",\"score\":0,\"level\":0}";
    let first = handle_request(&mut store, read).expect("read");
    let second = handle_request(&mut store, read).expect("read");
    assert_eq!(names_scores(&first), names_scores(&second));
}

#[test]
fn corrupt_row_does_not_fail_the_read() {
    let mut store = vec![ScoreEntry::add("Ada".to_string(), 120, 2).to_row()];
    store.push(RawRow { name: Some("broken".to_string()), score: None, level: Some("1".to_string()) });
    let out = handle_request(&mut store, b"{\"name\":\"\",\"score\":0,\"level\":0}")
        .expect("the read must survive a corrupt row");
    assert_eq!(names_scores(&out), [("Ada".to_string(), 120, 2)]);
}

#[test]
fn configured_table_name_kept() {
    let config = Config::new(Some("scores".to_string()));
    assert_eq!(config.table_name, "scores");
}

#[test]
fn absent_table_name_falls_back() {
    let config = Config::new(None);
    assert_eq!(config.table_name, "default_table");
}
