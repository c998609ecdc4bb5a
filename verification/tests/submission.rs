use leaderboard_lambda::submission::{parse_submission, plan_request, RequestPlan};

#[test]
fn valid_submission_parsed() {
    let body = b"{\"name\":\"Ada\",\"score\":120,\"level\":2}";
    let entry = parse_submission(body).expect("valid body");
    assert_eq!(entry.name, "Ada");
    assert_eq!(entry.score, 120);
    assert_eq!(entry.level, 2);
}

#[test]
fn valid_submission_planned_as_write() {
    let body = b"{\"name\":\"Ada\",\"score\":120,\"level\":2}";
    match plan_request(body) {
        RequestPlan::Serve { write: Some(entry) } => {
            assert_eq!(entry.name, "Ada");
            assert_eq!(entry.score, 120);
            assert_eq!(entry.level, 2);
        }
        _ => panic!("expected a write plan"),
    }
}

#[test]
fn empty_name_planned_as_pure_read() {
    let body = b"{\"name\":\"\",\"score\":0,\"level\":2}";
    match plan_request(body) {
        RequestPlan::Serve { write: None } => {}
        _ => panic!("expected a pure read plan"),
    }
}

#[test]
fn zero_score_and_level_accepted() {
    let body = b"{\"name\":\"Bo\",\"score\":0,\"level\":0}";
    let entry = parse_submission(body).expect("zeros are allowed");
    assert_eq!(entry.score, 0);
    assert_eq!(entry.level, 0);
}

#[test]
fn extra_members_ignored() {
    let body = b"{\"name\":\"Bo\",\"score\":1,\"level\":3,\"extra\":true}";
    let entry = parse_submission(body).expect("extra members are ignored");
    assert_eq!(entry.name, "Bo");
    assert_eq!(entry.score, 1);
    assert_eq!(entry.level, 3);
}

#[test]
fn member_order_irrelevant() {
    let body = b"{\"level\":4,\"score\":9,\"name\":\"Eve\"}";
    let entry = parse_submission(body).expect("order does not matter");
    assert_eq!(entry.name, "Eve");
    assert_eq!(entry.score, 9);
    assert_eq!(entry.level, 4);
}

#[test]
fn wrong_types_rejected() {
    let body = b"{\"name\": 5, \"score\": \"x\", \"level\": 2}";
    assert!(parse_submission(body).is_none());
    assert!(matches!(plan_request(body), RequestPlan::Reject));
}

#[test]
fn empty_body_rejected() {
    assert!(matches!(plan_request(b""), RequestPlan::Reject));
}

#[test]
fn invalid_json_rejected() {
    assert!(matches!(plan_request(b"{\"name\":"), RequestPlan::Reject));
}

#[test]
fn non_object_rejected() {
    assert!(matches!(plan_request(b"5"), RequestPlan::Reject));
    assert!(matches!(plan_request(b"[1,2,3]"), RequestPlan::Reject));
    assert!(matches!(plan_request(b"\"name\""), RequestPlan::Reject));
}

#[test]
fn missing_member_rejected() {
    assert!(parse_submission(b"{\"name\":\"a\",\"score\":1}").is_none());
    assert!(parse_submission(b"{\"score\":1,\"level\":2}").is_none());
}

#[test]
fn negative_score_rejected() {
    assert!(parse_submission(b"{\"name\":\"a\",\"score\":-1,\"level\":2}").is_none());
}

#[test]
fn fractional_score_rejected() {
    assert!(parse_submission(b"{\"name\":\"a\",\"score\":1.5,\"level\":2}").is_none());
}

#[test]
fn score_above_limit_rejected() {
    assert!(parse_submission(b"{\"name\":\"a\",\"score\":4294967296,\"level\":2}").is_none());
}

#[test]
fn score_at_limit_accepted() {
    let entry = parse_submission(b"{\"name\":\"a\",\"score\":4294967295,\"level\":2}")
        .expect("limit value fits");
    assert_eq!(entry.score, u32::MAX);
}
