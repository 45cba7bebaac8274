use jiji_forge::reconcile::{
    extract_managed_body, fingerprint, plan_pr_text, rebuild_body, stored_body_fp,
    stored_title_fp, wrap_managed_body, TextPlan, TextWarning, BODY_FP_PREFIX,
    DESCRIPTION_END, DESCRIPTION_START,
};

#[test]
fn fingerprint_is_pinned_forever() {
    // FNV-1a 64's standard test vector: the algorithm must never
    // change, or every fingerprinted PR reads as conflicted.
    assert_eq!(fingerprint("hello world"), "779a65e7023cd2e7");
    assert_eq!(fingerprint(""), "cbf29ce484222325");
}

#[test]
fn wrap_extract_and_fingerprints_round_trip() {
    let wrapped = wrap_managed_body("The body.\n\nTwo paragraphs.", "feat: thing");
    assert_eq!(
        extract_managed_body(&wrapped),
        Some("The body.\n\nTwo paragraphs.")
    );
    assert_eq!(
        stored_body_fp(&wrapped),
        Some(fingerprint("The body.\n\nTwo paragraphs.").as_str())
    );
    assert_eq!(
        stored_title_fp(&wrapped),
        Some(fingerprint("feat: thing").as_str())
    );
}

#[test]
fn rebuild_preserves_user_text_around_the_section() {
    let body = format!(
        "User intro.\n\n{}\n\nUser outro.",
        wrap_managed_body("old text", "old title")
    );
    let rebuilt = rebuild_body(&body, "new text", &fingerprint("new text"), None);
    assert!(rebuilt.starts_with("User intro.\n\n"));
    assert!(rebuilt.ends_with("\n\nUser outro."));
    assert_eq!(extract_managed_body(&rebuilt), Some("new text"));
    assert_eq!(stored_body_fp(&rebuilt), Some(fingerprint("new text").as_str()));
    // The old title fingerprint line is gone, not duplicated.
    assert_eq!(stored_title_fp(&rebuilt), None);
    assert_eq!(rebuilt.matches(BODY_FP_PREFIX).count(), 1);
}

#[test]
fn commit_moved_updates_and_pr_edited_leaves() {
    let on_github = wrap_managed_body("first draft", "feat: thing");

    // The commit body moved; the PR is untouched → update.
    let plan = plan_pr_text("feat: thing", &on_github, "feat: thing", "second draft");
    assert_eq!(plan.title, None);
    assert!(!plan.seed);
    assert!(plan.warnings.is_empty());
    let new_body = plan.body.expect("body updates");
    assert_eq!(extract_managed_body(&new_body), Some("second draft"));

    // The user edited the PR; the commit is unchanged → leave silently.
    let hand_edited = rebuild_body(
        &on_github,
        "their careful rewrite",
        &fingerprint("first draft"),
        Some(&fingerprint("feat: thing")),
    );
    let plan = plan_pr_text("feat: thing", &hand_edited, "feat: thing", "first draft");
    assert_eq!(plan, TextPlan::default());
}

#[test]
fn both_moved_is_a_conflict_not_a_guess() {
    let on_github = rebuild_body(
        &wrap_managed_body("base text", "t"),
        "their rewrite",
        &fingerprint("base text"),
        Some(&fingerprint("t")),
    );
    let plan = plan_pr_text("t", &on_github, "t", "my rewrite");
    assert_eq!(plan.body, None);
    assert_eq!(
        plan.warnings,
        vec![TextWarning::BodyConflict { unfingerprinted: false }]
    );

    // Markers without a fingerprint and drifted: ownership unknown.
    let stripped = format!("{DESCRIPTION_START}\nsomething\n{DESCRIPTION_END}");
    let plan = plan_pr_text("t", &stripped, "t", "my rewrite");
    assert_eq!(plan.body, None);
    assert_eq!(
        plan.warnings,
        vec![TextWarning::BodyConflict { unfingerprinted: true }]
    );
}

#[test]
fn markers_without_fingerprint_backfill_when_matching() {
    let stripped = format!("{DESCRIPTION_START}\nthe text\n{DESCRIPTION_END}");
    let plan = plan_pr_text("t", &stripped, "t", "the text");
    assert!(plan.seed);
    let body = plan.body.expect("seeding writes");
    assert_eq!(extract_managed_body(&body), Some("the text"));
    assert_eq!(stored_body_fp(&body), Some(fingerprint("the text").as_str()));
}

#[test]
fn markerless_bodies_adopt_only_when_nothing_could_be_lost() {
    // Empty body: take the commit's text outright (not a seed — the
    // description visibly fills in).
    let plan = plan_pr_text("feat: t", "", "feat: t", "The commit body.");
    assert!(!plan.seed);
    let body = plan.body.expect("empty bodies fill in");
    assert_eq!(extract_managed_body(&body), Some("The commit body."));

    // Byte-identical body: adopt quietly.
    let plan = plan_pr_text("feat: t", "The commit body.", "feat: t", "The commit body.");
    assert!(plan.seed);
    assert!(plan.body.is_some());

    // Anything else markerless is the user's: silence, not a warning.
    let plan = plan_pr_text("feat: t", "Hand-written.", "feat: t", "The commit body.");
    assert_eq!(plan, TextPlan::default());

    // Empty on both sides: nothing to manage yet.
    let plan = plan_pr_text("feat: t", "", "feat: t", "");
    assert_eq!(plan, TextPlan::default());
}

#[test]
fn titles_reconcile_through_their_own_fingerprint() {
    let on_github = wrap_managed_body("body", "old title");

    // Commit title moved, PR title untouched → update, body rewrites
    // to carry the new title fingerprint.
    let plan = plan_pr_text("old title", &on_github, "new title", "body");
    assert_eq!(plan.title.as_deref(), Some("new title"));
    assert!(!plan.seed);
    let body = plan.body.expect("fingerprint block rewrites");
    assert_eq!(extract_managed_body(&body), Some("body"));
    assert_eq!(stored_title_fp(&body), Some(fingerprint("new title").as_str()));

    // User retitled, commit unchanged → respected silently.
    let plan = plan_pr_text("their title", &on_github, "old title", "body");
    assert_eq!(plan, TextPlan::default());

    // Both moved → conflict warning, no update.
    let plan = plan_pr_text("their title", &on_github, "new title", "body");
    assert_eq!(plan.title, None);
    assert_eq!(plan.warnings, vec![TextWarning::TitleConflict]);

    // No stored fingerprint and titles differ → drift warning only.
    let plan = plan_pr_text("hand title", "", "commit title", "");
    assert_eq!(plan.title, None);
    assert_eq!(plan.warnings, vec![TextWarning::TitleDrift]);
}

#[test]
fn title_update_preserves_a_hand_edited_body() {
    // The user rewrote the managed body (Leave) while the commit's
    // title moved: the title updates, their body text stays, and the
    // stored body fingerprint survives so the body verdict never
    // flips to "Jiji wrote this".
    let base = wrap_managed_body("base text", "old title");
    let hand_edited = rebuild_body(
        &base,
        "their rewrite",
        &fingerprint("base text"),
        Some(&fingerprint("old title")),
    );
    let plan = plan_pr_text("old title", &hand_edited, "new title", "base text");
    assert_eq!(plan.title.as_deref(), Some("new title"));
    let body = plan.body.expect("rewrites for the title fingerprint");
    assert_eq!(extract_managed_body(&body), Some("their rewrite"));
    assert_eq!(stored_body_fp(&body), Some(fingerprint("base text").as_str()));
    assert_eq!(stored_title_fp(&body), Some(fingerprint("new title").as_str()));
    assert!(plan.warnings.is_empty());
}

#[test]
fn adopting_with_a_drifted_title_does_not_claim_it() {
    // Empty body fills in, but the hand-written title stays unclaimed:
    // no title fingerprint is recorded, so later runs keep warning
    // instead of overwriting it.
    let plan = plan_pr_text("hand title", "", "commit title", "The body.");
    let body = plan.body.expect("empty body fills in");
    assert_eq!(stored_title_fp(&body), None);
    assert_eq!(plan.warnings, vec![TextWarning::TitleDrift]);
}
