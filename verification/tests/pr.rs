use jiji_forge::codec::Json;
use jiji_forge::github::read_answer;
use jiji_forge::pr::{parse_open_prs, parse_rest_pr, prs_by_branch, ChecksRollup, PrState, RepoPrState, ReviewDecision};
use serde_json::Value;

fn node(number: u64, overrides: &str) -> Value {
    let mut base: Value = serde_json::from_str(&format!(
        r#"{{
            "number": {number},
            "title": "PR {number}",
            "url": "https://github.com/o/r/pull/{number}",
            "isDraft": false,
            "state": "OPEN",
            "baseRefName": "main",
            "headRefName": "branch-{number}",
            "headRefOid": "aaaabbbbccccddddeeeeffff0000111122223333",
            "headRepositoryOwner": {{ "login": "o" }},
            "reviewDecision": null,
            "commits": {{ "nodes": [ {{ "commit": {{ "statusCheckRollup": null }} }} ] }}
        }}"#
    ))
    .unwrap();
    let over: Value = serde_json::from_str(overrides).unwrap();
    base.as_object_mut().unwrap().extend(over.as_object().unwrap().clone());
    base
}

fn data(nodes: Vec<Value>, has_next: bool) -> Json {
    let nodes: Vec<String> = nodes.iter().map(|n| n.to_string()).collect();
    let text = format!(
        r#"{{ "repository": {{ "pullRequests": {{ "pageInfo": {{ "hasNextPage": {has_next} }}, "nodes": [{}] }} }} }}"#,
        nodes.join(",")
    );
    json(&text)
}

fn json(text: &str) -> Json {
    read_answer("GET", "test", 200, text).expect("test JSON parses")
}

#[test]
fn parses_the_full_state_matrix() {
    let report = parse_open_prs(&data(
        vec![
            node(1, r#"{ "reviewDecision": "APPROVED", "commits": { "nodes": [ { "commit": { "statusCheckRollup": { "state": "SUCCESS" } } } ] } }"#),
            node(2, r#"{ "reviewDecision": "CHANGES_REQUESTED", "commits": { "nodes": [ { "commit": { "statusCheckRollup": { "state": "FAILURE" } } } ] } }"#),
            node(3, r#"{ "reviewDecision": "REVIEW_REQUIRED", "isDraft": true, "commits": { "nodes": [ { "commit": { "statusCheckRollup": { "state": "PENDING" } } } ] } }"#),
            node(4, r#"{ "commits": { "nodes": [ { "commit": { "statusCheckRollup": { "state": "ERROR" } } } ] } }"#),
            node(5, r#"{ "commits": { "nodes": [] } }"#),
        ],
        false,
    ))
    .unwrap();

    assert_eq!(report.prs.len(), 5);
    assert!(!report.truncated);
    let p = &report.prs;
    assert_eq!((p[0].review, p[0].checks), (ReviewDecision::Approved, ChecksRollup::Passing));
    assert_eq!((p[1].review, p[1].checks), (ReviewDecision::ChangesRequested, ChecksRollup::Failing));
    assert_eq!((p[2].review, p[2].checks), (ReviewDecision::ReviewRequired, ChecksRollup::Pending));
    assert!(p[2].is_draft);
    assert_eq!((p[3].review, p[3].checks), (ReviewDecision::NoDecision, ChecksRollup::Failing));
    // No commits/rollup at all reads as "no checks configured".
    assert_eq!(p[4].checks, ChecksRollup::NoChecks);
    assert_eq!(p[0].head_branch, "branch-1");
    assert_eq!(p[0].base_branch, "main");
    assert_eq!(p[0].head_commit, "aaaabbbbccccddddeeeeffff0000111122223333");
}

#[test]
fn truncation_and_missing_repository_surface() {
    let report = parse_open_prs(&data(vec![], true)).unwrap();
    assert!(report.truncated);
    assert!(report.prs.is_empty());

    let err = parse_open_prs(&json(r#"{ "repository": null }"#)).unwrap_err();
    assert_eq!(err.code(), "not_found");
}

#[test]
fn malformed_nodes_are_refused_not_skipped() {
    let mut broken = node(7, "{}");
    broken.as_object_mut().unwrap().remove("headRefName");
    let err = parse_open_prs(&data(vec![broken], false)).unwrap_err();
    assert_eq!(err.code(), "api_failed");
    assert!(err.message().contains("#7"), "{}", err.message());
}

#[test]
fn branch_map_excludes_forks_and_keeps_first_per_branch() {
    let report = parse_open_prs(&data(
        vec![
            node(1, r#"{ "headRefName": "feature" }"#),
            // Same branch, different base: the earlier (newest) PR wins.
            node(2, r#"{ "headRefName": "feature", "baseRefName": "dev" }"#),
            // Cross-fork PR: excluded even though the branch name matches.
            node(3, r#"{ "headRefName": "other", "headRepositoryOwner": { "login": "someone-else" } }"#),
            // Deleted fork: no head owner, excluded.
            node(4, r#"{ "headRefName": "ghost", "headRepositoryOwner": null }"#),
            // Owner login comparison is case-insensitive.
            node(5, r#"{ "headRefName": "cased", "headRepositoryOwner": { "login": "O" } }"#),
        ],
        false,
    ))
    .unwrap();

    let map = prs_by_branch(&report.prs, "o");
    assert_eq!(map.len(), 2);
    assert_eq!(map.get("feature").unwrap().number, 1);
    assert_eq!(map.get("cased").unwrap().number, 5);
    assert!(!map.contains_key("other"));
    assert!(!map.contains_key("ghost"));
}

#[test]
fn repo_pr_state_carries_the_same_attachment_view() {
    let report = parse_open_prs(&data(
        vec![
            node(1, r#"{ "headRefName": "feature" }"#),
            node(2, r#"{ "headRefName": "fork-branch", "headRepositoryOwner": { "login": "someone-else" } }"#),
        ],
        false,
    ))
    .unwrap();

    let state = RepoPrState::new(report.clone(), "o");
    assert_eq!(state.report, report);
    assert_eq!(state.by_branch.len(), 1);
    assert_eq!(*state.by_branch.get("feature").unwrap(), report.prs[0]);
    assert!(!state.by_branch.contains_key("fork-branch"));
}

#[test]
fn unknown_pr_states_are_refused_with_their_spelling() {
    let err = parse_open_prs(&data(vec![node(8, r#"{ "state": "DRAFTY" }"#)], false)).unwrap_err();
    assert_eq!(
        err.message(),
        "GitHub request failed: unexpected GitHub answer: pull request #8 has unexpected state Some(\"DRAFTY\")"
    );
    let err = parse_open_prs(&json(r#"{ "repository": { "pullRequests": {} } }"#)).unwrap_err();
    assert_eq!(err.message(), "GitHub request failed: unexpected GitHub answer: pullRequests.nodes missing");
}

#[test]
fn bodies_ride_along_when_answered() {
    let report = parse_open_prs(&data(vec![node(1, r#"{ "body": "hello" }"#), node(2, "{}")], false)).unwrap();
    assert_eq!(report.prs[0].body.as_deref(), Some("hello"));
    assert_eq!(report.prs[1].body, None);
}

fn rest(overrides: &str) -> Json {
    let mut base: Value = serde_json::from_str(
        r#"{
            "number": 12,
            "title": "feat: thing",
            "html_url": "https://github.com/o/r/pull/12",
            "state": "open",
            "merged_at": null,
            "draft": false,
            "head": { "ref": "feature", "sha": "abc", "repo": { "owner": { "login": "o" } } },
            "base": { "ref": "main" },
            "body": "desc"
        }"#,
    )
    .unwrap();
    let over: Value = serde_json::from_str(overrides).unwrap();
    base.as_object_mut().unwrap().extend(over.as_object().unwrap().clone());
    json(&base.to_string())
}

#[test]
fn rest_prs_read_merge_time_as_merged() {
    let pr = parse_rest_pr(&rest("{}")).unwrap();
    assert_eq!(pr.number, 12);
    assert_eq!(pr.state, PrState::Open);
    assert_eq!(pr.url, "https://github.com/o/r/pull/12");
    assert_eq!(pr.head_branch, "feature");
    assert_eq!(pr.head_commit, "abc");
    assert_eq!(pr.head_owner.as_deref(), Some("o"));
    assert_eq!(pr.base_branch, "main");
    assert_eq!(pr.body.as_deref(), Some("desc"));
    assert_eq!(pr.review, ReviewDecision::NoDecision);
    assert_eq!(pr.checks, ChecksRollup::NoChecks);

    let merged = parse_rest_pr(&rest(r#"{ "state": "closed", "merged_at": "2026-07-01T00:00:00Z" }"#)).unwrap();
    assert_eq!(merged.state, PrState::Merged);
    let closed = parse_rest_pr(&rest(r#"{ "state": "closed" }"#)).unwrap();
    assert_eq!(closed.state, PrState::Closed);
    let fork_gone = parse_rest_pr(&rest(r#"{ "head": { "ref": "x", "sha": "y", "repo": null } }"#)).unwrap();
    assert_eq!(fork_gone.head_owner, None);

    let err = parse_rest_pr(&rest(r#"{ "head": { "sha": "y" } }"#)).unwrap_err();
    assert_eq!(err.message(), "GitHub request failed: unexpected GitHub answer: pull request #12 missing head.ref");
}
