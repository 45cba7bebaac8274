use jiji_forge::codec::Json;
use jiji_forge::github::{
    comment_path, comments_path, merge_path, pull_path, pulls_path, rerun_path,
    api_message, classify_http_failure, closed_prs_path, first_merged_pr, graphql_answer, graphql_failure,
    parse_comments, parse_viewer, read_answer, workflow_runs_path,
};
use jiji_forge::pr::PrState;

fn json(text: &str) -> Json {
    read_answer("GET", "test", 200, text).expect("test JSON parses")
}

#[test]
fn http_failures_classify_by_status_and_message() {
    let unauthorized = classify_http_failure(401, r#"{"message":"Bad credentials"}"#);
    assert_eq!(unauthorized.code(), "auth_failed");
    assert!(unauthorized.message().contains("Bad credentials"));

    let limited = classify_http_failure(403, r#"{"message":"API rate limit exceeded for user"}"#);
    assert_eq!(limited.code(), "rate_limited");

    let forbidden = classify_http_failure(403, r#"{"message":"Resource not accessible by personal access token"}"#);
    assert_eq!(forbidden.code(), "auth_failed");

    assert_eq!(classify_http_failure(404, r#"{"message":"Not Found"}"#).code(), "not_found");
    assert_eq!(classify_http_failure(502, "oops").code(), "api_failed");
}

#[test]
fn api_message_prefers_json_message_and_truncates() {
    assert_eq!(api_message(r#"{"message":"Bad credentials"}"#), "Bad credentials");
    assert_eq!(api_message("plain text"), "plain text");
    assert_eq!(api_message(""), "(empty answer)");
    let long = api_message(&format!(r#"{{"message":"{}"}}"#, "x".repeat(500)));
    assert!(long.len() < 320);
    assert!(long.ends_with('…'));
}

#[test]
fn graphql_failures_map_not_found_and_rate_limit() {
    let not_found = graphql_failure(&json(
        r#"{
        "data": { "repository": null },
        "errors": [ { "type": "NOT_FOUND", "message": "Could not resolve to a Repository" } ]
    }"#,
    ))
    .unwrap();
    assert_eq!(not_found.code(), "not_found");

    let limited =
        graphql_failure(&json(r#"{ "errors": [ { "type": "RATE_LIMITED", "message": "API rate limit exceeded" } ] }"#))
            .unwrap();
    assert_eq!(limited.code(), "rate_limited");

    let generic = graphql_failure(&json(r#"{ "errors": [ { "message": "Something went wrong" } ] }"#)).unwrap();
    assert_eq!(generic.code(), "api_failed");
    assert!(generic.message().contains("Something went wrong"));

    assert!(graphql_failure(&json(r#"{ "data": {} }"#)).is_none());
    assert!(graphql_failure(&json(r#"{ "data": {}, "errors": [] }"#)).is_none());
}

#[test]
fn failure_messages_are_exact() {
    assert_eq!(classify_http_failure(502, "oops").message(), "GitHub request failed: HTTP 502: oops");
    assert_eq!(
        classify_http_failure(429, r#"{"message":"slow down"}"#).message(),
        "GitHub request failed: HTTP 429: slow down"
    );
    assert_eq!(classify_http_failure(429, r#"{"message":"Secondary RATE LIMIT hit"}"#).code(), "rate_limited");
    assert_eq!(classify_http_failure(500, "  \n ").message(), "GitHub request failed: HTTP 500: (empty answer)");
    let joined = graphql_failure(&json(
        r#"{ "errors": [ { "message": "one" }, { "type": "X" }, { "message": "two", "type": "RATE_LIMITED" } ] }"#,
    ))
    .unwrap();
    assert_eq!(joined.message(), "GitHub rate limit exceeded: one; two");
    let bare = graphql_failure(&json(r#"{ "errors": [ { "type": "NOT_FOUND" } ] }"#)).unwrap();
    assert_eq!(bare.message(), "Not found on GitHub: unspecified GraphQL error");
}

#[test]
fn truncation_stops_at_a_character_boundary() {
    // 299 ASCII bytes then a 2-byte character: it does not fit in 300.
    let text = format!("{}é tail", "a".repeat(299));
    let cut = api_message(&text);
    assert_eq!(cut, format!("{}…", "a".repeat(299)));
    // Exactly 300 bytes stays whole.
    let exact = "b".repeat(300);
    assert_eq!(api_message(&exact), exact);
}

#[test]
fn rest_answers_unwrap_or_explain() {
    assert!(matches!(read_answer("POST", "x", 204, "  ").unwrap(), Json::Null));
    let ok = read_answer("GET", "user", 200, r#"{"login":"octo"}"#).unwrap();
    assert_eq!(parse_viewer(&ok).unwrap(), "octo");
    let bad = read_answer("GET", "user", 200, "{nope").unwrap_err();
    assert!(bad.message().starts_with("GitHub request failed: GET user answered malformed JSON: "), "{}", bad.message());
    assert_eq!(read_answer("GET", "user", 401, "").unwrap_err().code(), "auth_failed");
    assert_eq!(parse_viewer(&json("{}")).unwrap_err().message(), "GitHub request failed: user answer carried no login");
}

#[test]
fn graphql_answers_unwrap_data() {
    let data = graphql_answer(200, r#"{"data":{"viewer":{"login":"octo"}}}"#).unwrap();
    assert_eq!(data.get("viewer").get("login").str_value(), Some("octo"));
    let missing = graphql_answer(200, r#"{"other":1}"#).unwrap();
    assert!(missing.is_null());
    let failed = graphql_answer(200, r#"{"data":null,"errors":[{"type":"NOT_FOUND","message":"gone"}]}"#).unwrap_err();
    assert_eq!(failed.message(), "Not found on GitHub: gone");
    assert_eq!(graphql_answer(404, r#"{"message":"Not Found"}"#).unwrap_err().code(), "not_found");
    assert!(graphql_answer(200, "").unwrap_err().message().contains("GraphQL answered malformed JSON"));
}

#[test]
fn comments_skip_entries_without_ids() {
    let comments = parse_comments(&json(r#"[ { "id": 5, "body": "hi" }, { "body": "no id" }, { "id": 6 } ]"#)).unwrap();
    assert_eq!(comments, vec![(5, "hi".to_string()), (6, String::new())]);
    assert_eq!(
        parse_comments(&json("{}")).unwrap_err().message(),
        "GitHub request failed: comments answer was not a list"
    );
}

fn rest_pr(number: u64, state: &str, merged_at: &str) -> String {
    format!(
        r#"{{ "number": {number}, "title": "t", "html_url": "u{number}", "state": "{state}", "merged_at": {merged_at},
             "head": {{ "ref": "feature", "sha": "s" }}, "base": {{ "ref": "main" }} }}"#
    )
}

#[test]
fn the_first_merged_closed_pr_wins() {
    let answer = json(&format!(
        "[{}, {}, {}]",
        rest_pr(3, "closed", "null"),
        rest_pr(2, "closed", r#""2026-01-01T00:00:00Z""#),
        rest_pr(1, "closed", r#""2025-01-01T00:00:00Z""#)
    ));
    let found = first_merged_pr(&answer).unwrap().unwrap();
    assert_eq!(found.number, 2);
    assert_eq!(found.state, PrState::Merged);
    assert!(first_merged_pr(&json(&format!("[{}]", rest_pr(3, "closed", "null")))).unwrap().is_none());
    assert!(first_merged_pr(&json("[]")).unwrap().is_none());
    assert_eq!(first_merged_pr(&json("{}")).unwrap_err().code(), "api_failed");
}

#[test]
fn query_strings_are_form_encoded() {
    assert_eq!(workflow_runs_path("o", "r", "abc123"), "repos/o/r/actions/runs?head_sha=abc123&per_page=100");
    assert_eq!(
        closed_prs_path("o", "r", "feat/x y"),
        "repos/o/r/pulls?head=o%3Afeat%2Fx+y&state=closed&per_page=30"
    );
    assert_eq!(closed_prs_path("o", "r", "é*-._"), "repos/o/r/pulls?head=o%3A%C3%A9*-._&state=closed&per_page=30");
}

#[test]
fn rest_paths_are_spelled_out() {
    assert_eq!(pulls_path("o", "r"), "repos/o/r/pulls");
    assert_eq!(pull_path("o", "r", 42), "repos/o/r/pulls/42");
    assert_eq!(merge_path("o", "r", 7), "repos/o/r/pulls/7/merge");
    assert_eq!(comments_path("o", "r", 0), "repos/o/r/issues/0/comments");
    assert_eq!(comment_path("o", "r", 123456789), "repos/o/r/issues/comments/123456789");
    assert_eq!(rerun_path("o", "r", 18446744073709551615), "repos/o/r/actions/runs/18446744073709551615/rerun-failed-jobs");
}
