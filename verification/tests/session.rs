use jiji_forge::auth::TokenSource;
use jiji_forge::autoland::{
    already_running, dismiss_check, initial_job_state, job_status, AutoLandMerged, AutoLandPhase, AutoLandRecord,
    AutoLandState, AUTOLAND_RECORD_VERSION,
};
use jiji_forge::error::{BackendError, ForgeError};
use jiji_forge::land::{same_land_actions, LandAction, LandPlan, MergeMethod};
use jiji_forge::remote::{ForgeProvider, ForgeRepo};
use jiji_forge::session::{
    assemble_status, confirm_land, confirm_submit, keychain_host, login_token, open_repo_path, ForgeState,
};
use jiji_forge::ship::trunk_target;
use jiji_forge::snapshot::{BookmarkState, RepoSnapshot, SyncState};
use jiji_forge::submit::{find_stack_comment, SubmitAction, SubmitPlan};

fn record(head: &str, phase: AutoLandPhase) -> AutoLandRecord {
    AutoLandRecord {
        version: AUTOLAND_RECORD_VERSION,
        repo_path: "/tmp/repo".into(),
        state: AutoLandState {
            phase,
            rounds: 2,
            merged: vec![AutoLandMerged {
                number: 100,
                url: "https://github.com/o/r/pull/100".into(),
                bookmark: "profile".into(),
            }],
            ..AutoLandState::queued(head)
        },
        saved_at_ms: 1,
    }
}

fn waiting() -> AutoLandPhase {
    AutoLandPhase::Waiting { attention: false, reasons: vec!["GitHub is driving the merge now".into()] }
}

#[test]
fn a_matching_live_record_resumes_and_anything_else_starts_fresh() {
    let resumed = initial_job_state(Some(record("auth", waiting())), "/tmp/repo", "auth");
    assert_eq!(resumed.rounds, 2);
    assert_eq!(resumed.merged.len(), 1);
    assert!(matches!(&resumed.phase, AutoLandPhase::Waiting { reasons, .. } if reasons[0].contains("Sizing up")));

    for (prior, repo, head) in [
        (Some(record("auth", waiting())), "/elsewhere", "auth"),
        (Some(record("auth", waiting())), "/tmp/repo", "profile"),
        (Some(record("auth", AutoLandPhase::Done)), "/tmp/repo", "auth"),
        (None, "/tmp/repo", "auth"),
    ] {
        let fresh = initial_job_state(prior, repo, head);
        assert_eq!(fresh.rounds, 0);
        assert!(fresh.merged.is_empty());
        assert_eq!(fresh.head_bookmark, head);
    }
}

#[test]
fn status_is_live_only_while_a_thread_drives_an_unfinished_job() {
    assert!(job_status(Some(record("auth", waiting())), true).unwrap().live);
    assert!(!job_status(Some(record("auth", waiting())), false).unwrap().live);
    assert!(!job_status(Some(record("auth", AutoLandPhase::Stopped)), true).unwrap().live);
    assert!(job_status(None, true).is_none());
}

#[test]
fn running_jobs_refuse_dismissal_and_a_second_start() {
    let live = record("auth", waiting());
    let err = dismiss_check(Some(&live), true).unwrap_err();
    assert_eq!(err.code, "autoland_running");
    assert_eq!(err.message, "The auto-land job is still running — stop it before dismissing");
    assert!(dismiss_check(Some(&live), false).is_ok());
    assert!(dismiss_check(Some(&record("auth", AutoLandPhase::Done)), true).is_ok());
    assert!(dismiss_check(None, true).is_ok());

    let refusal = already_running(Some(&live));
    assert_eq!(refusal.code, "autoland_running");
    assert_eq!(
        refusal.message,
        "An auto-land job for \u{201c}auth\u{201d} is already running — stop it before queueing another stack"
    );
    assert_eq!(
        already_running(None).message,
        "An auto-land job for \u{201c}\u{201d} is already running — stop it before queueing another stack"
    );
}

#[test]
fn login_tokens_are_trimmed_and_blank_ones_refused() {
    assert_eq!(login_token("  ghp_abc \n").unwrap(), "ghp_abc");
    let err = login_token(" \t").unwrap_err();
    assert!(matches!(&err, ForgeError::AuthFailed(m) if m == "no token was entered"));
}

fn repo() -> ForgeRepo {
    ForgeRepo {
        provider: ForgeProvider::GitHub,
        remote: "origin".into(),
        host: "company.github.com".into(),
        owner: "o".into(),
        name: "r".into(),
    }
}

#[test]
fn status_reports_the_login_only_for_the_verified_source() {
    let mut forge = ForgeState::new();
    forge.remember(TokenSource::Keychain, "octo".into());
    let status = assemble_status(Some(repo()), Some(TokenSource::Keychain), &forge);
    assert_eq!(status.auth.login.as_deref(), Some("octo"));
    assert_eq!(status.repo.unwrap().host, "company.github.com");
    let other = assemble_status(None, Some(TokenSource::Environment), &forge);
    assert_eq!(other.auth.login, None);
    let none = assemble_status(None, None, &forge);
    assert_eq!(none.auth.source, None);
    assert_eq!(none.auth.login, None);
}

#[test]
fn keychain_entries_key_off_the_forge_host() {
    assert_eq!(keychain_host(Some(&repo())), "company.github.com");
    assert_eq!(keychain_host(None), "github.com");
}

fn snap(bookmarks: Vec<BookmarkState>) -> RepoSnapshot {
    RepoSnapshot {
        repo_path: "/tmp/repo".into(),
        trunk_bookmark: "main".into(),
        working_copy: String::new(),
        nodes: vec![],
        bookmarks,
        conflicts: vec![],
    }
}

fn bm(name: &str, target: &str, is_trunk: bool) -> BookmarkState {
    BookmarkState {
        name: name.into(),
        target: target.into(),
        remote: None,
        sync: SyncState::LocalOnly,
        is_trunk,
        is_local: true,
    }
}

#[test]
fn open_repo_path_and_trunk_target_answer_or_explain() {
    let s = snap(vec![bm("feature", "f1", false), bm("main", "m1", true)]);
    assert_eq!(open_repo_path(Some(&s)).unwrap(), "/tmp/repo");
    let err = open_repo_path(None).unwrap_err();
    assert_eq!((err.code.as_str(), err.message.as_str()), ("no_repo_open", "No repository is currently open"));
    assert_eq!(trunk_target(&s).unwrap(), "m1");
    assert_eq!(
        trunk_target(&snap(vec![bm("feature", "f1", false)])).unwrap_err(),
        BackendError::MutationFailed("the repository has no trunk bookmark to rebase onto".into())
    );
}

#[test]
fn the_first_stack_comment_is_found_by_its_sentinel() {
    let comments = vec![
        (1, "looks good".to_string()),
        (2, "<!-- jiji:stack-info -->\nfirst".to_string()),
        (3, "<!-- jiji:stack-info -->\nsecond".to_string()),
    ];
    let found = find_stack_comment(comments).unwrap();
    assert_eq!(found.id, 2);
    assert!(found.body.ends_with("first"));
    assert!(find_stack_comment(vec![(1, "nope".to_string())]).is_none());
}

fn land_plan(actions: Vec<LandAction>) -> LandPlan {
    LandPlan {
        head_bookmark: "auth".into(),
        remote: "origin".into(),
        base_branch: "main".into(),
        segments: vec![],
        actions,
        blockers: vec![],
        warnings: vec![],
    }
}

#[test]
fn confirmed_plans_run_only_while_fresh_plans_agree() {
    let a = vec![
        LandAction::MergePr { number: 1, bookmark: "auth".into(), method: MergeMethod::Squash, expected_head: "f".into() },
        LandAction::PushStack { bookmarks: vec!["profile".into()] },
    ];
    let mut b = a.clone();
    assert!(same_land_actions(&a, &b));
    assert!(confirm_land(&land_plan(a.clone()), &land_plan(b.clone())).is_ok());
    b[1] = LandAction::PushStack { bookmarks: vec!["profile".into(), "extra".into()] };
    assert!(!same_land_actions(&a, &b));
    let err = confirm_land(&land_plan(a), &land_plan(b)).unwrap_err();
    assert_eq!(err.code, "plan_stale");
    assert_eq!(
        err.message,
        "The stack or its pull requests changed since this plan was made; review the updated plan and land again"
    );

    let plan = |actions: Vec<SubmitAction>| SubmitPlan {
        head_bookmark: "auth".into(),
        remote: "origin".into(),
        base_branch: "main".into(),
        segments: vec![],
        actions,
        blockers: vec![],
        warnings: vec![],
        stack_comment_preview: None,
        pr_template_path: None,
    };
    let x = vec![SubmitAction::UpdatePrText {
        number: 7,
        bookmark: "auth".into(),
        title: None,
        body: "b".into(),
        seed: false,
    }];
    let y = vec![SubmitAction::UpdatePrText {
        number: 7,
        bookmark: "auth".into(),
        title: Some("t".into()),
        body: "b".into(),
        seed: false,
    }];
    assert!(confirm_submit(&plan(x.clone()), &plan(x.clone())).is_ok());
    let err = confirm_submit(&plan(x), &plan(y)).unwrap_err();
    assert!(err.message.ends_with("publish again"));
}
