use jiji_forge::reconcile::{extract_managed_body, plan_pr_text, stored_body_fp, wrap_managed_body};
use jiji_forge::template::{new_pr_body, pr_template_candidates, PrTemplate};

#[test]
fn candidates_probe_github_locations_in_precedence_order() {
    let candidates = pr_template_candidates();
    assert_eq!(candidates[0], ".github/PULL_REQUEST_TEMPLATE.md");
    assert!(candidates.contains(&"PULL_REQUEST_TEMPLATE.md".to_owned()));
    assert!(candidates.contains(&"docs/pull_request_template.txt".to_owned()));
    assert!(candidates.contains(&".github/pull_request_template".to_owned()));
    // `.github/` outranks the root, which outranks `docs/`.
    let pos = |path: &str| candidates.iter().position(|c| c == path).unwrap();
    assert!(pos(".github/pull_request_template.md") < pos("PULL_REQUEST_TEMPLATE.md"));
    assert!(pos("pull_request_template.md") < pos("docs/PULL_REQUEST_TEMPLATE.md"));
}

#[test]
fn template_rides_below_the_managed_section() {
    let template = PrTemplate {
        path: ".github/PULL_REQUEST_TEMPLATE.md".into(),
        text: "## Checklist\n- [ ] tests\n".into(),
    };
    let body = new_pr_body("The commit body.", "feat: thing", Some(&template));
    assert_eq!(extract_managed_body(&body), Some("The commit body."));
    assert!(body.ends_with("## Checklist\n- [ ] tests"));
    // The fingerprint covers only the managed text, so the template is
    // user-space from birth.
    assert_eq!(
        stored_body_fp(&body),
        Some(jiji_forge::reconcile::fingerprint("The commit body.").as_str())
    );

    // No template (or a blank one) leaves the plain managed body.
    assert_eq!(
        new_pr_body("b", "t", None),
        wrap_managed_body("b", "t")
    );
    let blank = PrTemplate { path: "x".into(), text: "  \n".into() };
    assert_eq!(
        new_pr_body("b", "t", Some(&blank)),
        wrap_managed_body("b", "t")
    );
}

#[test]
fn later_reconciles_never_touch_the_filled_in_template() {
    let template = PrTemplate {
        path: "PULL_REQUEST_TEMPLATE.md".into(),
        text: "## Checklist\n- [ ] tests".into(),
    };
    let body = new_pr_body("first draft", "feat: t", Some(&template));
    // The author fills the checklist in on GitHub.
    let on_github = body.replace("- [ ] tests", "- [x] tests");

    // The commit body moves; the managed section updates and the
    // filled-in checklist survives verbatim.
    let plan = plan_pr_text("feat: t", &on_github, "feat: t", "second draft");
    let new_body = plan.body.expect("commit moved, body updates");
    assert_eq!(extract_managed_body(&new_body), Some("second draft"));
    assert!(new_body.ends_with("## Checklist\n- [x] tests"));
    assert!(plan.warnings.is_empty());
}
