use jiji_forge::autoland::{note_merged, AutoLandState};
use jiji_forge::ci::{rerunnable_runs, WorkflowRun};
use jiji_forge::comment::{is_stack_comment, render_stack_comment, StackDataItem, StackEntry};
use jiji_forge::github::api_message;
use jiji_forge::remote::detect_github_repo;
use jiji_forge::reconcile::{
    extract_managed_body, fingerprint, plan_pr_text, rebuild_body, reconcile_text, stored_body_fp, stored_title_fp,
    wrap_managed_body,
    TextReconcile, DESCRIPTION_END, DESCRIPTION_START,
};
use jiji_forge::ship::{plan_ship, ShipAction};
use jiji_forge::submit::derive_title_body;
use jiji_forge::snapshot::{BookmarkState, GraphNode, NodeKind, RepoSnapshot, SyncState};
use jiji_forge::template::{new_pr_body, PrTemplate};

#[test]
fn a_written_body_reads_back_its_commit_text() {
    for body in ["", "One line.", "Two\n\nparagraphs, with `code` and <b>html</b>."] {
        let wrapped = wrap_managed_body(body, "feat: title");
        assert_eq!(extract_managed_body(&wrapped), Some(body));
    }
}

#[test]
fn a_body_holding_the_closing_sentinel_does_not_round_trip() {
    let body = format!("before {DESCRIPTION_END} after");
    let wrapped = wrap_managed_body(&body, "t");
    assert_eq!(extract_managed_body(&wrapped), Some("before"));
}

#[test]
fn an_in_step_pr_plans_nothing() {
    let body = "The form.\n\nWith validation.";
    let plan = plan_pr_text("auth: login", &wrap_managed_body(body, "auth: login"), "auth: login", body);
    assert_eq!(plan.title, None);
    assert_eq!(plan.body, None);
    assert!(!plan.seed);
    assert!(plan.warnings.is_empty());
}

#[test]
fn an_update_reads_back_what_it_wrote() {
    let body = format!("Intro by hand.\n\n{}\n\nOutro by hand.", wrap_managed_body("old", "t"));
    let rebuilt = rebuild_body(&body, "new text", &fingerprint("new text"), Some(&fingerprint("t")));
    assert_eq!(extract_managed_body(&rebuilt), Some("new text"));
    assert!(rebuilt.starts_with("Intro by hand.\n\n"));
    assert!(rebuilt.ends_with("\n\nOutro by hand."));
}

#[test]
fn the_three_way_decision_on_concrete_texts() {
    let base = fingerprint("base");
    assert_eq!(reconcile_text(Some(&base), "same", "same"), TextReconcile::InSync);
    assert_eq!(reconcile_text(Some(&base), "base", "moved"), TextReconcile::Update);
    assert_eq!(reconcile_text(Some(&base), "edited", "base"), TextReconcile::Leave);
    assert_eq!(reconcile_text(Some(&base), "edited", "moved"), TextReconcile::Conflict);
    assert_eq!(reconcile_text(None, "a", "b"), TextReconcile::Conflict);
}

#[test]
fn a_moved_commit_updates_an_untouched_pr() {
    let plan = plan_pr_text("t", &wrap_managed_body("old text", "t"), "t", "new text");
    assert_eq!(plan.title, None);
    assert_eq!(extract_managed_body(plan.body.as_deref().unwrap()), Some("new text"));
    assert!(!plan.seed);
    assert!(plan.warnings.is_empty());
}

#[test]
fn a_hand_edit_is_left_alone() {
    let written = wrap_managed_body("what jiji wrote", "t");
    let edited = written.replace("what jiji wrote", "what a human wrote");
    let plan = plan_pr_text("t", &edited, "t", "what jiji wrote");
    assert_eq!(plan.title, None);
    assert_eq!(plan.body, None);
    assert!(plan.warnings.is_empty());
}

#[test]
fn the_template_survives_later_rewrites() {
    let template = PrTemplate { path: "PULL_REQUEST_TEMPLATE.md".into(), text: "## Checklist\n- [x] tests\n".into() };
    let body = new_pr_body("first", "t", Some(&template));
    assert_eq!(extract_managed_body(&body), Some("first"));
    let rebuilt = rebuild_body(&body, "second", &fingerprint("second"), None);
    assert!(rebuilt.ends_with("\n\n## Checklist\n- [x] tests"));
    assert!(rebuilt.starts_with(DESCRIPTION_START));
    assert_eq!(extract_managed_body(&rebuilt), Some("second"));
}

#[test]
fn a_moved_title_updates_an_untouched_pr() {
    let plan = plan_pr_text("old title", &wrap_managed_body("body", "old title"), "new title", "body");
    assert_eq!(plan.title.as_deref(), Some("new title"));
    assert_eq!(extract_managed_body(plan.body.as_deref().unwrap()), Some("body"));
    assert!(plan.warnings.is_empty());
}

#[test]
fn rendered_comments_are_recognized() {
    let live = [StackEntry { bookmark: "a".into(), number: None, url: None }];
    let fossils = [StackDataItem { bookmark: "b".into(), number: 1, url: "u".into() }];
    assert!(is_stack_comment(&render_stack_comment(&live, &fossils, None)));
    assert!(is_stack_comment(&render_stack_comment(&[], &[], Some("a"))));
}

#[test]
fn recording_a_merge_twice_keeps_one_entry() {
    let mut state = AutoLandState::queued("auth");
    note_merged(&mut state, 1, "u1", "auth");
    note_merged(&mut state, 1, "u1-again", "auth");
    note_merged(&mut state, 2, "u2", "profile");
    assert_eq!(state.merged.iter().map(|m| m.number).collect::<Vec<_>>(), vec![1, 2]);
    assert_eq!(state.merged[0].url, "u1");
}

#[test]
fn error_messages_stay_short() {
    for text in ["x".repeat(1000), "é".repeat(400), "😀".repeat(200)] {
        assert!(api_message(&text).len() <= 303);
    }
}

fn run(id: u64, workflow_id: u64, conclusion: &str) -> WorkflowRun {
    WorkflowRun {
        id,
        workflow_id,
        name: format!("wf-{workflow_id}"),
        status: "completed".into(),
        conclusion: Some(conclusion.into()),
    }
}

#[test]
fn one_rerun_per_workflow() {
    let runs = vec![run(5, 1, "failure"), run(4, 1, "failure"), run(3, 2, "timed_out"), run(2, 2, "failure")];
    let picked: Vec<u64> = rerunnable_runs(&runs).iter().map(|r| r.id).collect();
    assert_eq!(picked, vec![5, 3]);
}

fn node(id: &str, kind: NodeKind, parents: &[&str]) -> GraphNode {
    GraphNode {
        id: id.into(),
        change_id: id.into(),
        description: format!("feat: {id}"),
        kind,
        parents: parents.iter().map(|p| p.to_string()).collect(),
        bookmarks: vec![],
        is_empty: false,
        has_conflict: false,
        is_divergent: false,
    }
}

#[test]
fn shipping_twice_only_pushes_what_is_unpushed() {
    let mut snap = RepoSnapshot {
        repo_path: "/r".into(),
        trunk_bookmark: "main".into(),
        working_copy: String::new(),
        nodes: vec![node("b2", NodeKind::Mutable, &["b1"]), node("b1", NodeKind::Mutable, &["t0"]), node("t0", NodeKind::Immutable, &[])],
        bookmarks: vec![BookmarkState {
            name: "main".into(),
            target: "b2".into(),
            remote: Some("origin".into()),
            sync: SyncState::Ahead,
            is_trunk: true,
            is_local: true,
        }],
        conflicts: vec![],
    };
    let plan = plan_ship(&snap, None, "origin", "b2").unwrap();
    assert_eq!(plan.actions, vec![ShipAction::PushTrunk { bookmark: "main".into(), remote: "origin".into() }]);
    snap.bookmarks[0].sync = SyncState::Synced;
    assert!(plan_ship(&snap, None, "origin", "b2").unwrap().actions.is_empty());
}

#[test]
fn detection_picks_the_best_ranked_github_remote() {
    let remotes = [
        ("beta", "https://github.com/beta/r.git"),
        ("origin", "https://gitlab.com/o/r.git"),
        ("alpha", "git@github.com:alpha/r.git"),
        ("upstream", "https://example.com/u/r.git"),
        ("gamma", "https://github.com/gamma/r"),
    ];
    let picked = detect_github_repo(&remotes).unwrap();
    assert_eq!(picked.remote, "alpha");
    assert_eq!(picked.owner, "alpha");
    let none = [("origin", "https://gitlab.com/o/r.git"), ("mirror", "not a url")];
    assert!(detect_github_repo(&none).is_none());
}

#[test]
fn derived_bodies_come_trimmed() {
    for description in [
        "title\n\n  indented body line\n\n\n",
        "  title  \n\n\tbody\n\nSigned-off-by: A <a@e.c>\n  \n",
        "title only",
        "",
        "title\n\n\n   \n",
    ] {
        let (_, body) = derive_title_body(description, "fallback");
        assert_eq!(body.trim(), body, "{description:?}");
    }
}

#[test]
fn an_untrimmed_body_reads_back_trimmed() {
    let wrapped = wrap_managed_body("\n  The body.\n\nTwo paragraphs.  \n\n", "feat: thing");
    assert_eq!(extract_managed_body(&wrapped), Some("The body.\n\nTwo paragraphs."));
}

#[test]
fn both_fingerprints_read_back_after_a_wrap() {
    let body = "The body.\n\nTwo paragraphs.";
    let wrapped = wrap_managed_body(body, "feat: thing");
    assert_eq!(stored_body_fp(&wrapped), Some(fingerprint(body).as_str()));
    assert_eq!(stored_title_fp(&wrapped), Some(fingerprint("feat: thing").as_str()));
    assert_eq!(stored_body_fp("no markers here"), None);
    assert_eq!(stored_title_fp("no markers here"), None);
}

#[test]
fn a_hand_edited_section_is_kept_when_the_commit_moves_too() {
    let written = "What Jiji wrote.";
    let on_github = wrap_managed_body(written, "t").replace(written, "Edited by hand.");
    let plan = plan_pr_text("t", &on_github, "t", "The commit moved.");
    assert!(!plan.seed);
    match plan.body {
        None => {},
        Some(b) => assert_eq!(extract_managed_body(&b), Some("Edited by hand.")),
    }
    assert_eq!(extract_managed_body(&on_github), Some("Edited by hand."));
}

#[test]
fn a_kept_hand_edit_reads_back_and_keeps_the_leading_text() {
    let written = "What Jiji wrote.";
    let on_github = format!("Intro by hand.\n\n{}", wrap_managed_body(written, "t").replace(written, "Edited by hand."));
    // The title moved while nobody touched it, so the body is rewritten
    // only to record the new title's fingerprint.
    let plan = plan_pr_text("t", &on_github, "t2", written);
    let rewritten = plan.body.expect("the title fingerprint is recorded");
    assert!(rewritten.starts_with("Intro by hand.\n\n"));
    assert_eq!(extract_managed_body(&rewritten), Some("Edited by hand."));
    assert_eq!(stored_body_fp(&rewritten), stored_body_fp(&on_github));
}
