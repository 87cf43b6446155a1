use leaderboard::api::{details, leaders, record, record_options, RecordBody};
use leaderboard::store::Leaderboard;

fn body_str(body: &[u8]) -> String {
    String::from_utf8(body.to_vec()).unwrap()
}

fn has_header(r: &leaderboard::api::Response, name: &str, value: &str) -> bool {
    r.headers.iter().any(|(k, v)| *k == name && *v == value)
}

fn submit_entry(board: &mut Leaderboard, score: i32, summary: &str, details: &str) {
    let r = record(
        board,
        Some(RecordBody { score, summary: summary.to_owned(), details: details.to_owned() }),
    );
    assert_eq!(r.status, 200);
    assert!(r.body.is_empty());
}

#[test]
fn two_submissions_rank_by_score() {
    let mut board = Leaderboard::new();
    submit_entry(&mut board, 42, "run A", "full log A");
    submit_entry(&mut board, 100, "run B", "full log B");
    let r = leaders(&board, Some("0"), Some("2"));
    assert_eq!(r.status, 200);
    assert_eq!(
        body_str(&r.body),
        "[{\"place\":0,\"id\":1,\"score\":100,\"summary\":\"run B\",\"createdAt\":\"1\"},\
         {\"place\":1,\"id\":0,\"score\":42,\"summary\":\"run A\",\"createdAt\":\"0\"}]"
    );
}

#[test]
fn details_of_submitted_entry() {
    let mut board = Leaderboard::new();
    submit_entry(&mut board, 42, "run A", "full log A");
    submit_entry(&mut board, 100, "run B", "full log B");
    // run B was the second submission, so it took id 1
    let r = details(&board, Some("1"));
    assert_eq!(r.status, 200);
    assert_eq!(body_str(&r.body), "{\"details\":\"full log B\"}");
}

#[test]
fn details_of_unknown_id_is_not_found() {
    let mut board = Leaderboard::new();
    submit_entry(&mut board, 42, "run A", "full log A");
    let r = details(&board, Some("999999"));
    assert_eq!(r.status, 404);
    assert!(r.body.is_empty());
}

#[test]
fn malformed_submission_creates_no_row() {
    let mut board = Leaderboard::new();
    submit_entry(&mut board, 1, "one", "first");
    let before = leaders(&board, None, None);
    let r = record(&mut board, None);
    assert_eq!(r.status, 400);
    assert!(r.body.is_empty());
    let after = leaders(&board, None, None);
    assert_eq!(body_str(&before.body), body_str(&after.body));
}

#[test]
fn listing_respects_offset_and_limit() {
    let mut board = Leaderboard::new();
    submit_entry(&mut board, 10, "a", "da");
    submit_entry(&mut board, 30, "b", "db");
    submit_entry(&mut board, 20, "c", "dc");
    submit_entry(&mut board, 40, "d", "dd");
    let r = leaders(&board, Some("1"), Some("2"));
    assert_eq!(r.status, 200);
    // full ranking: d(40), b(30), c(20), a(10); the page skips d
    assert_eq!(
        body_str(&r.body),
        "[{\"place\":1,\"id\":1,\"score\":30,\"summary\":\"b\",\"createdAt\":\"1\"},\
         {\"place\":2,\"id\":2,\"score\":20,\"summary\":\"c\",\"createdAt\":\"2\"}]"
    );
}

#[test]
fn equal_scores_rank_earlier_submission_first() {
    let mut board = Leaderboard::new();
    submit_entry(&mut board, 7, "first", "d1");
    submit_entry(&mut board, 7, "second", "d2");
    let r = leaders(&board, None, None);
    assert_eq!(
        body_str(&r.body),
        "[{\"place\":0,\"id\":0,\"score\":7,\"summary\":\"first\",\"createdAt\":\"0\"},\
         {\"place\":1,\"id\":1,\"score\":7,\"summary\":\"second\",\"createdAt\":\"1\"}]"
    );
}

#[test]
fn empty_board_lists_empty_array() {
    let board = Leaderboard::new();
    let r = leaders(&board, None, None);
    assert_eq!(r.status, 200);
    assert_eq!(body_str(&r.body), "[]");
}

#[test]
fn offset_beyond_end_lists_empty_array() {
    let mut board = Leaderboard::new();
    submit_entry(&mut board, 1, "a", "d");
    let r = leaders(&board, Some("5"), None);
    assert_eq!(r.status, 200);
    assert_eq!(body_str(&r.body), "[]");
}

#[test]
fn malformed_offset_is_client_error() {
    let board = Leaderboard::new();
    let r = leaders(&board, Some("abc"), None);
    assert_eq!(r.status, 400);
    assert!(r.body.is_empty());
}

#[test]
fn negative_limit_is_client_error() {
    let board = Leaderboard::new();
    let r = leaders(&board, None, Some("-1"));
    assert_eq!(r.status, 400);
    assert!(r.body.is_empty());
}

#[test]
fn missing_id_is_client_error() {
    let board = Leaderboard::new();
    let r = details(&board, None);
    assert_eq!(r.status, 400);
    assert!(r.body.is_empty());
}

#[test]
fn malformed_id_is_client_error() {
    let board = Leaderboard::new();
    let r = details(&board, Some("12x"));
    assert_eq!(r.status, 400);
    assert!(r.body.is_empty());
}

#[test]
fn every_response_carries_the_allow_origin_header() {
    let mut board = Leaderboard::new();
    submit_entry(&mut board, 5, "s", "d");
    let responses = vec![
        leaders(&board, None, None),
        leaders(&board, Some("bad"), None),
        details(&board, Some("0")),
        details(&board, Some("77")),
        details(&board, None),
        record(&mut board, Some(RecordBody {
            score: 1,
            summary: "x".to_owned(),
            details: "y".to_owned(),
        })),
        record(&mut board, None),
        record_options(),
    ];
    for r in responses {
        assert!(has_header(&r, "Access-Control-Allow-Origin", "*"));
        assert!(has_header(&r, "Access-Control-Allow-Headers", "Content-Type"));
    }
}

#[test]
fn preflight_response_permits_post() {
    let r = record_options();
    assert_eq!(r.status, 200);
    assert!(r.body.is_empty());
    assert!(has_header(&r, "Access-Control-Allow-Methods", "OPTIONS, POST"));
}

#[test]
fn read_responses_permit_get() {
    let board = Leaderboard::new();
    let r = leaders(&board, None, None);
    assert!(has_header(&r, "Access-Control-Allow-Methods", "GET"));
    assert!(has_header(&r, "Content-Type", "application/json"));
}

#[test]
fn negative_score_serializes_with_sign() {
    let mut board = Leaderboard::new();
    submit_entry(&mut board, -5, "low", "d");
    let r = leaders(&board, None, None);
    assert_eq!(
        body_str(&r.body),
        "[{\"place\":0,\"id\":0,\"score\":-5,\"summary\":\"low\",\"createdAt\":\"0\"}]"
    );
}

#[test]
fn detail_text_returns_byte_for_byte() {
    let mut board = Leaderboard::new();
    let text = "line one\nline two\t\"quoted\" \\slash\\ and unicode: \u{00e9}\u{4e16}";
    submit_entry(&mut board, 3, "s", text);
    let r = details(&board, Some("0"));
    assert_eq!(r.status, 200);
    assert_eq!(
        body_str(&r.body),
        "{\"details\":\"line one\\nline two\\t\\\"quoted\\\" \\\\slash\\\\ \
         and unicode: \u{00e9}\u{4e16}\"}"
    );
}

#[test]
fn control_characters_escape_as_hex() {
    let mut board = Leaderboard::new();
    submit_entry(&mut board, 1, "s", "a\u{01}b\u{1f}c");
    let r = details(&board, Some("0"));
    assert_eq!(body_str(&r.body), "{\"details\":\"a\\u0001b\\u001fc\"}");
}
