use std::cell::RefCell;
use std::collections::HashMap;

use jiji_forge::comment::{render_stack_comment, StackDataItem, StackEntry};
use jiji_forge::error::{BackendError, ForgeError};
use jiji_forge::pr::{ChecksRollup, PrState, PrStateReport, PrSummary, RepoPrState, ReviewDecision};
use jiji_forge::reconcile::{extract_managed_body, fingerprint, stored_body_fp, wrap_managed_body, DESCRIPTION_START};
use jiji_forge::remote::{ForgeProvider, ForgeRepo};
use jiji_forge::snapshot::{BookmarkState, ConflictItem, GraphNode, NodeKind, RepoSnapshot, SyncState};
use jiji_forge::submit::{
    comment_action, derive_title_body, execute_submit, plan_submit, strip_trailers, ExistingComment,
    StackCommentSource, SubmitAction, SubmitForge, SubmitPlan, SubmitStepStatus, SubmitVcs,
};
use jiji_forge::template::PrTemplate;

struct NoComments;

impl StackCommentSource for NoComments {
    fn stack_comment(&self, _number: u64) -> Result<Option<ExistingComment>, ForgeError> {
        Ok(None)
    }
}

struct StubComments(HashMap<u64, ExistingComment>);

impl StackCommentSource for StubComments {
    fn stack_comment(&self, number: u64) -> Result<Option<ExistingComment>, ForgeError> {
        Ok(self.0.get(&number).cloned())
    }
}

fn node(id: &str, description: &str, kind: NodeKind, parents: &[&str], bookmarks: &[&str]) -> GraphNode {
    GraphNode {
        id: id.into(),
        change_id: id.into(),
        description: description.into(),
        kind,
        parents: parents.iter().map(|p| p.to_string()).collect(),
        bookmarks: bookmarks.iter().map(|b| b.to_string()).collect(),
        is_empty: false,
        has_conflict: false,
        is_divergent: false,
    }
}

fn bookmark(name: &str, target: &str, sync: SyncState, is_trunk: bool) -> BookmarkState {
    BookmarkState {
        name: name.into(),
        target: target.into(),
        remote: if sync != SyncState::LocalOnly { Some("origin".into()) } else { None },
        sync,
        is_trunk,
        is_local: true,
    }
}

fn snapshot(nodes: Vec<GraphNode>, bookmarks: Vec<BookmarkState>) -> RepoSnapshot {
    RepoSnapshot {
        repo_path: "/tmp/repo".into(),
        trunk_bookmark: "main".into(),
        working_copy: nodes.first().map(|n| n.id.clone()).unwrap_or_default(),
        nodes,
        bookmarks,
        conflicts: vec![],
    }
}

fn open_pr(number: u64, head: &str, base: &str) -> PrSummary {
    PrSummary {
        number,
        title: format!("PR {number}"),
        url: format!("https://github.com/o/r/pull/{number}"),
        state: PrState::Open,
        is_draft: false,
        head_branch: head.into(),
        head_commit: "feedface".into(),
        head_owner: Some("o".into()),
        base_branch: base.into(),
        body: None,
        review: ReviewDecision::NoDecision,
        checks: ChecksRollup::NoChecks,
    }
}

fn text_pr(number: u64, head: &str, base: &str, title: &str, commit_body: &str) -> PrSummary {
    PrSummary { title: title.into(), body: Some(wrap_managed_body(commit_body, title)), ..open_pr(number, head, base) }
}

fn pr_state(prs: Vec<PrSummary>, truncated: bool) -> RepoPrState {
    RepoPrState::new(PrStateReport { prs, truncated }, "o")
}

fn forge_repo() -> ForgeRepo {
    ForgeRepo {
        provider: ForgeProvider::GitHub,
        remote: "origin".into(),
        host: "github.com".into(),
        owner: "o".into(),
        name: "r".into(),
    }
}

fn stack_snapshot() -> RepoSnapshot {
    snapshot(
        vec![
            node("b1", "profile: avatars\n\nWith uploads.", NodeKind::WorkingCopy, &["a2"], &["profile"]),
            node("a2", "auth: sessions", NodeKind::Mutable, &["a1"], &[]),
            node("a1", "auth: login flow\n\nThe form.\n\nCo-authored-by: X <x@e.c>", NodeKind::Mutable, &["m"], &["auth"]),
            node("m", "release", NodeKind::Immutable, &[], &["main"]),
        ],
        vec![
            bookmark("main", "m", SyncState::Synced, true),
            bookmark("auth", "a2", SyncState::LocalOnly, false),
            bookmark("profile", "b1", SyncState::Ahead, false),
        ],
    )
}

fn set_body(prs: &mut RepoPrState, branch: &str, body: &str) {
    for pr in prs.report.prs.iter_mut() {
        if pr.head_branch == branch {
            pr.body = Some(body.into());
        }
    }
    prs.by_branch.set_body(branch, Some(body.into()));
}

#[test]
fn plans_pushes_creations_retargets_text_and_comments_in_order() {
    let mut snap = stack_snapshot();
    snap.bookmarks[1].target = "a2".into();
    snap.nodes[1].bookmarks = vec!["auth".into()];
    snap.nodes[2].bookmarks = vec![];
    let prs = pr_state(vec![open_pr(7, "profile", "main")], false);

    let plan = plan_submit(&snap, &prs, &forge_repo(), "profile", &NoComments, None).unwrap();
    assert_eq!(plan.base_branch, "main");
    assert_eq!(plan.remote, "origin");
    assert!(plan.blockers.is_empty(), "{:?}", plan.blockers);

    let segs: Vec<(&str, &str, usize)> =
        plan.segments.iter().map(|s| (s.bookmark.as_str(), s.base.as_str(), s.change_ids.len())).collect();
    assert_eq!(segs, vec![("auth", "main", 2), ("profile", "auth", 1)]);
    assert_eq!(plan.segments[0].change_ids, vec!["a1", "a2"], "bottom-first");
    assert_eq!(plan.segments[0].title, "auth: login flow");
    assert_eq!(plan.segments[1].pr.as_ref().unwrap().number, 7);

    assert_eq!(plan.actions.len(), 7, "{:?}", plan.actions);
    assert_eq!(
        plan.actions[..4].to_vec(),
        vec![
            SubmitAction::Push { bookmark: "auth".into(), create: true },
            SubmitAction::Push { bookmark: "profile".into(), create: false },
            SubmitAction::CreatePr {
                bookmark: "auth".into(),
                base: "main".into(),
                title: "auth: login flow".into(),
                body: wrap_managed_body("The form.", "auth: login flow"),
            },
            SubmitAction::RetargetPr { number: 7, bookmark: "profile".into(), from_base: "main".into(), to_base: "auth".into() },
        ]
    );
    let SubmitAction::UpdatePrText { number, title, body, seed, .. } = &plan.actions[4] else {
        panic!("expected UpdatePrText, got {:?}", plan.actions[4]);
    };
    assert_eq!(*number, 7);
    assert_eq!(*title, None);
    assert!(!seed);
    assert_eq!(extract_managed_body(body), Some("With uploads."));
    assert_eq!(stored_body_fp(body), Some(fingerprint("With uploads.").as_str()));
    assert!(plan.warnings.iter().any(|w| w.contains("PR 7") && w.contains("title")), "{:?}", plan.warnings);
    assert_eq!(
        plan.actions[5..].to_vec(),
        vec![
            SubmitAction::SyncStackComment { bookmark: "auth".into(), number: None, create: true },
            SubmitAction::SyncStackComment { bookmark: "profile".into(), number: Some(7), create: true },
        ]
    );
    let preview = plan.stack_comment_preview.as_deref().expect("preview renders");
    assert!(preview.contains("1. `auth`"), "created PRs render plain: {preview}");
    assert!(preview.contains("[`profile`]"), "existing PRs link: {preview}");
}

#[test]
fn new_pr_bodies_fold_in_the_repo_template() {
    let snap = stack_snapshot();
    let prs = pr_state(vec![], false);
    let template = PrTemplate { path: ".github/PULL_REQUEST_TEMPLATE.md".into(), text: "## Checklist\n- [ ] tests\n".into() };
    let plan = plan_submit(&snap, &prs, &forge_repo(), "profile", &NoComments, Some(&template)).unwrap();
    assert_eq!(plan.pr_template_path.as_deref(), Some(".github/PULL_REQUEST_TEMPLATE.md"));
    let bodies: Vec<&str> = plan
        .actions
        .iter()
        .filter_map(|a| match a {
            SubmitAction::CreatePr { body, .. } => Some(body.as_str()),
            _ => None,
        })
        .collect();
    assert_eq!(bodies.len(), 2);
    for body in bodies {
        assert!(body.starts_with(DESCRIPTION_START), "{body}");
        assert!(body.ends_with("## Checklist\n- [ ] tests"), "{body}");
    }
}

#[test]
fn update_only_plans_leave_the_template_out() {
    let mut snap = stack_snapshot();
    snap.bookmarks[1].target = "a2".into();
    snap.nodes[1].bookmarks = vec!["auth".into()];
    snap.nodes[2].bookmarks = vec![];
    let prs = pr_state(
        vec![
            text_pr(6, "auth", "main", "auth: login flow", "The form."),
            text_pr(7, "profile", "auth", "profile: avatars", "With uploads."),
        ],
        false,
    );
    let template = PrTemplate { path: "PULL_REQUEST_TEMPLATE.md".into(), text: "T".into() };
    let plan = plan_submit(&snap, &prs, &forge_repo(), "profile", &NoComments, Some(&template)).unwrap();
    assert!(plan.actions.iter().all(|a| !matches!(a, SubmitAction::CreatePr { .. })), "{:?}", plan.actions);
    assert_eq!(plan.pr_template_path, None);
}

fn consistent_stack() -> (RepoSnapshot, RepoPrState, StubComments) {
    let mut snap = stack_snapshot();
    snap.bookmarks[1].sync = SyncState::Synced;
    snap.bookmarks[1].remote = Some("origin".into());
    snap.bookmarks[2].sync = SyncState::Synced;
    let prs = pr_state(
        vec![
            text_pr(6, "auth", "main", "auth: login flow", "The form."),
            PrSummary { title: "auth: sessions".into(), ..open_pr(7, "profile", "auth") },
        ],
        false,
    );
    let entries = vec![
        StackEntry { bookmark: "auth".into(), number: Some(6), url: Some("https://github.com/o/r/pull/6".into()) },
        StackEntry { bookmark: "profile".into(), number: Some(7), url: Some("https://github.com/o/r/pull/7".into()) },
    ];
    let comments = StubComments(HashMap::from([
        (6, ExistingComment { id: 60, body: render_stack_comment(&entries, &[], Some("auth")) }),
        (7, ExistingComment { id: 70, body: render_stack_comment(&entries, &[], Some("profile")) }),
    ]));
    (snap, prs, comments)
}

#[test]
fn consistent_stacks_plan_nothing() {
    let (snap, prs, comments) = consistent_stack();
    let plan = plan_submit(&snap, &prs, &forge_repo(), "profile", &comments, None).unwrap();
    assert!(plan.actions.is_empty(), "{:?}", plan.actions);
    assert!(plan.blockers.is_empty());
    assert!(plan.warnings.is_empty(), "{:?}", plan.warnings);
    assert_eq!(plan.stack_comment_preview, None);
    assert_eq!(plan.segments.len(), 2);
}

#[test]
fn stale_pr_text_updates_and_hand_edits_are_respected() {
    let (mut snap, prs, comments) = consistent_stack();
    snap.nodes[2].description = "auth: login flow\n\nThe form, now with validation.".into();
    let plan = plan_submit(&snap, &prs, &forge_repo(), "profile", &comments, None).unwrap();
    let updates: Vec<_> = plan
        .actions
        .iter()
        .filter_map(|a| match a {
            SubmitAction::UpdatePrText { number, body, seed, title, .. } => Some((*number, body.clone(), *seed, title.clone())),
            _ => None,
        })
        .collect();
    assert_eq!(updates.len(), 1, "{:?}", plan.actions);
    let (number, body, seed, title) = &updates[0];
    assert_eq!(*number, 6);
    assert!(!seed);
    assert_eq!(*title, None, "the title did not move");
    assert_eq!(extract_managed_body(body), Some("The form, now with validation."));

    let (snap, mut prs, _) = consistent_stack();
    let hand_edited = wrap_managed_body("The form.", "auth: login flow").replace("The form.", "My hand-written description.");
    set_body(&mut prs, "auth", &hand_edited);
    let (_, _, comments) = consistent_stack();
    let plan = plan_submit(&snap, &prs, &forge_repo(), "profile", &comments, None).unwrap();
    assert!(plan.actions.is_empty(), "{:?}", plan.actions);
    assert!(plan.warnings.is_empty(), "{:?}", plan.warnings);

    let (mut snap, mut prs, _) = consistent_stack();
    snap.nodes[2].description = "auth: login flow\n\nRewritten in the commit.".into();
    let hand_edited = wrap_managed_body("The form.", "auth: login flow").replace("The form.", "Rewritten on GitHub.");
    set_body(&mut prs, "auth", &hand_edited);
    let (_, _, comments) = consistent_stack();
    let plan = plan_submit(&snap, &prs, &forge_repo(), "profile", &comments, None).unwrap();
    assert!(!plan.actions.iter().any(|a| matches!(a, SubmitAction::UpdatePrText { .. })), "{:?}", plan.actions);
    assert!(plan.warnings.iter().any(|w| w.contains("#6") && w.contains("both changed")), "{:?}", plan.warnings);
}

#[test]
fn titles_update_through_their_fingerprint() {
    let (mut snap, prs, comments) = consistent_stack();
    snap.nodes[2].description = "auth: login and signup flow\n\nThe form.".into();
    let plan = plan_submit(&snap, &prs, &forge_repo(), "profile", &comments, None).unwrap();
    let update = plan
        .actions
        .iter()
        .find_map(|a| match a {
            SubmitAction::UpdatePrText { number: 6, title, body, seed, .. } => Some((title.clone(), body.clone(), *seed)),
            _ => None,
        })
        .expect("the title update plans");
    assert_eq!(update.0.as_deref(), Some("auth: login and signup flow"));
    assert!(!update.2);
    assert_eq!(extract_managed_body(&update.1), Some("The form."));
}

#[test]
fn identical_markerless_bodies_adopt_quietly() {
    let (snap, mut prs, comments) = consistent_stack();
    set_body(&mut prs, "auth", "The form.");
    let plan = plan_submit(&snap, &prs, &forge_repo(), "profile", &comments, None).unwrap();
    let seed = plan
        .actions
        .iter()
        .find_map(|a| match a {
            SubmitAction::UpdatePrText { number: 6, seed, body, .. } => Some((*seed, body.clone())),
            _ => None,
        })
        .expect("adoption plans a seed write");
    assert!(seed.0, "nothing visible changes");
    assert_eq!(extract_managed_body(&seed.1), Some("The form."));

    let (snap, mut prs, comments) = consistent_stack();
    set_body(&mut prs, "auth", "A description someone wrote by hand.");
    let plan = plan_submit(&snap, &prs, &forge_repo(), "profile", &comments, None).unwrap();
    assert!(plan.actions.is_empty(), "{:?}", plan.actions);
    assert!(plan.warnings.is_empty(), "{:?}", plan.warnings);
}

#[test]
fn stack_comments_sync_only_when_stale() {
    let (snap, prs, mut comments) = consistent_stack();
    comments.0.get_mut(&7).unwrap().body = "someone touched this".into();
    let plan = plan_submit(&snap, &prs, &forge_repo(), "profile", &comments, None).unwrap();
    assert_eq!(plan.actions, vec![SubmitAction::SyncStackComment { bookmark: "profile".into(), number: Some(7), create: false }]);
    assert!(plan.stack_comment_preview.is_some());

    let (snap, prs, _) = consistent_stack();
    let plan = plan_submit(&snap, &prs, &forge_repo(), "profile", &NoComments, None).unwrap();
    let syncs: Vec<_> = plan.actions.iter().filter(|a| matches!(a, SubmitAction::SyncStackComment { .. })).collect();
    assert_eq!(syncs.len(), 2, "{:?}", plan.actions);
    assert!(matches!(*syncs[0], SubmitAction::SyncStackComment { number: Some(6), create: true, .. }));

    let (mut snap, mut prs, _) = consistent_stack();
    snap.bookmarks.remove(1);
    snap.nodes[2].bookmarks = vec![];
    prs.report.prs.remove(0);
    prs.by_branch.remove("auth");
    let plan = plan_submit(&snap, &prs, &forge_repo(), "profile", &NoComments, None).unwrap();
    assert!(!plan.actions.iter().any(|a| matches!(a, SubmitAction::SyncStackComment { .. })), "{:?}", plan.actions);

    let entries = vec![StackEntry { bookmark: "profile".into(), number: Some(7), url: Some("https://github.com/o/r/pull/7".into()) }];
    let previous = render_stack_comment(
        &[
            StackEntry { bookmark: "auth".into(), number: Some(6), url: Some("https://github.com/o/r/pull/6".into()) },
            entries[0].clone(),
        ],
        &[],
        Some("profile"),
    );
    let comments = StubComments(HashMap::from([(7, ExistingComment { id: 70, body: previous })]));
    let plan = plan_submit(&snap, &prs, &forge_repo(), "profile", &comments, None).unwrap();
    let syncs: Vec<_> = plan.actions.iter().filter(|a| matches!(a, SubmitAction::SyncStackComment { .. })).collect();
    assert_eq!(syncs, vec![&SubmitAction::SyncStackComment { bookmark: "profile".into(), number: Some(7), create: false }]);
}

#[test]
fn unpresentable_changes_block_only_pushing_segments() {
    let mut snap = stack_snapshot();
    snap.nodes[1].description = String::new();
    snap.nodes[0].has_conflict = true;
    let prs = pr_state(vec![], false);
    let plan = plan_submit(&snap, &prs, &forge_repo(), "profile", &NoComments, None).unwrap();
    assert_eq!(plan.blockers.len(), 2, "{:?}", plan.blockers);
    assert!(plan.blockers[0].contains("no description"), "{:?}", plan.blockers);
    assert!(plan.blockers[1].contains("has conflicts"), "{:?}", plan.blockers);

    let mut synced = stack_snapshot();
    synced.nodes[2].description = String::new();
    synced.bookmarks[1].sync = SyncState::Synced;
    synced.bookmarks[1].remote = Some("origin".into());
    synced.bookmarks[2].sync = SyncState::Synced;
    let plan = plan_submit(&synced, &prs, &forge_repo(), "profile", &NoComments, None).unwrap();
    assert!(plan.blockers.is_empty(), "{:?}", plan.blockers);
}

#[test]
fn empty_segments_skip_but_still_base_the_stack() {
    let mut snap = stack_snapshot();
    snap.nodes[1].is_empty = true;
    snap.nodes[2].is_empty = true;
    let prs = pr_state(vec![], true);
    let plan = plan_submit(&snap, &prs, &forge_repo(), "profile", &NoComments, None).unwrap();
    assert!(plan.actions.iter().all(|a| !matches!(a, SubmitAction::Push { bookmark, .. } if bookmark == "auth")));
    assert_eq!(
        plan.actions
            .iter()
            .find_map(|a| match a {
                SubmitAction::CreatePr { bookmark, base, .. } if bookmark == "profile" => Some(base.clone()),
                _ => None,
            })
            .unwrap(),
        "auth"
    );
    assert!(plan.warnings.iter().any(|w| w.contains("empty")), "{:?}", plan.warnings);
    assert!(plan.warnings.iter().any(|w| w.contains("100 most recently")), "truncation warned: {:?}", plan.warnings);
}

#[test]
fn conflicted_bookmarks_block_and_bad_targets_refuse() {
    let mut snap = stack_snapshot();
    snap.conflicts.push(ConflictItem { id: "bookmark-profile".into() });
    let prs = pr_state(vec![], false);
    let plan = plan_submit(&snap, &prs, &forge_repo(), "profile", &NoComments, None).unwrap();
    assert!(plan.blockers.iter().any(|b| b.contains("is conflicted")), "{:?}", plan.blockers);

    let snap = stack_snapshot();
    let err = plan_submit(&snap, &prs, &forge_repo(), "nope", &NoComments, None).unwrap_err();
    assert_eq!(err.code(), "plan_failed");
    let err = plan_submit(&snap, &prs, &forge_repo(), "main", &NoComments, None).unwrap_err();
    assert!(err.message().contains("trunk"), "{}", err.message());
    let mut on_trunk = stack_snapshot();
    on_trunk.bookmarks.push(bookmark("old", "m", SyncState::LocalOnly, false));
    on_trunk.nodes[3].bookmarks.push("old".into());
    let err = plan_submit(&on_trunk, &prs, &forge_repo(), "old", &NoComments, None).unwrap_err();
    assert!(err.message().contains("immutable"), "{}", err.message());
}

#[test]
fn shared_change_bookmarks_collapse_into_one_segment() {
    let mut snap = stack_snapshot();
    snap.bookmarks.push(bookmark("auth-alias", "a2", SyncState::LocalOnly, false));
    snap.bookmarks[1].target = "a2".into();
    snap.nodes[1].bookmarks = vec!["auth".into(), "auth-alias".into()];
    snap.nodes[2].bookmarks = vec![];
    let prs = pr_state(vec![open_pr(9, "auth-alias", "main")], false);
    let plan = plan_submit(&snap, &prs, &forge_repo(), "profile", &NoComments, None).unwrap();
    assert_eq!(plan.segments.len(), 2);
    assert_eq!(plan.segments[0].bookmark, "auth-alias");
    assert!(plan.warnings.iter().any(|w| w.contains("same change")), "{:?}", plan.warnings);
    assert_eq!(plan.segments[1].base, "auth-alias");
}

#[derive(Default)]
struct StubVcs {
    calls: RefCell<Vec<(Vec<String>, String)>>,
    fail: bool,
}

impl SubmitVcs for StubVcs {
    fn push_bookmarks(&self, bookmarks: &[String], remote: &str) -> Result<String, BackendError> {
        self.calls.borrow_mut().push((bookmarks.to_vec(), remote.to_owned()));
        if self.fail {
            Err(BackendError::MutationFailed("remote moved".into()))
        } else {
            Ok(format!("Pushed {} bookmarks to {remote}", bookmarks.len()))
        }
    }
}

#[derive(Default)]
struct StubForge {
    log: RefCell<Vec<String>>,
    fail_create: Option<String>,
    comments: RefCell<HashMap<u64, ExistingComment>>,
}

impl StackCommentSource for StubForge {
    fn stack_comment(&self, number: u64) -> Result<Option<ExistingComment>, ForgeError> {
        Ok(self.comments.borrow().get(&number).cloned())
    }
}

impl SubmitForge for StubForge {
    fn create_pr(&self, title: &str, _body: &str, head: &str, base: &str) -> Result<PrSummary, ForgeError> {
        if self.fail_create.as_deref() == Some(head) {
            return Err(ForgeError::Api("boom".into()));
        }
        self.log.borrow_mut().push(format!("create {head}->{base}: {title}"));
        Ok(open_pr(42, head, base))
    }

    fn update_pr_base(&self, number: u64, base: &str) -> Result<(), ForgeError> {
        self.log.borrow_mut().push(format!("retarget #{number}->{base}"));
        Ok(())
    }

    fn update_pr_text(&self, number: u64, title: Option<&str>, _body: &str) -> Result<(), ForgeError> {
        self.log.borrow_mut().push(format!("text #{number} title:{}", title.unwrap_or("unchanged")));
        Ok(())
    }

    fn create_comment(&self, number: u64, body: &str) -> Result<(), ForgeError> {
        self.log.borrow_mut().push(format!("comment-create #{number}"));
        self.comments.borrow_mut().insert(number, ExistingComment { id: number * 10, body: body.to_owned() });
        Ok(())
    }

    fn update_comment(&self, comment_id: u64, _body: &str) -> Result<(), ForgeError> {
        self.log.borrow_mut().push(format!("comment-update id:{comment_id}"));
        Ok(())
    }
}

fn plan_with_all_action_kinds() -> SubmitPlan {
    let mut snap = stack_snapshot();
    snap.bookmarks[1].target = "a2".into();
    snap.nodes[1].bookmarks = vec!["auth".into()];
    snap.nodes[2].bookmarks = vec![];
    let prs = pr_state(vec![open_pr(7, "profile", "main")], false);
    plan_submit(&snap, &prs, &forge_repo(), "profile", &NoComments, None).unwrap()
}

#[test]
fn execute_batches_pushes_then_walks_pr_actions() {
    let plan = plan_with_all_action_kinds();
    let vcs = StubVcs::default();
    let forge = StubForge::default();
    let outcome = execute_submit(&plan, &vcs, &forge).unwrap();
    assert!(!outcome.failed);
    assert!(outcome.steps.iter().all(|s| s.status == SubmitStepStatus::Done));
    assert_eq!(vcs.calls.borrow().as_slice(), &[(vec!["auth".to_owned(), "profile".to_owned()], "origin".to_owned())]);
    assert_eq!(
        forge.log.borrow().as_slice(),
        &[
            "create auth->main: auth: login flow".to_owned(),
            "retarget #7->auth".to_owned(),
            "text #7 title:unchanged".to_owned(),
            "comment-create #42".to_owned(),
            "comment-create #7".to_owned(),
        ]
    );
    let created = outcome.steps.iter().find(|s| matches!(s.action, SubmitAction::CreatePr { .. })).unwrap();
    assert_eq!(created.pr.as_ref().unwrap().number, 42);
    let comments = forge.comments.borrow();
    let on_created = &comments[&42].body;
    assert!(on_created.contains("**`auth` \u{2190} this PR**"), "{on_created}");
    assert!(on_created.contains("[`profile`](https://github.com/o/r/pull/7)"));
    let on_existing = &comments[&7].body;
    assert!(on_existing.contains("[`auth`](https://github.com/o/r/pull/42)"));
    assert!(on_existing.contains("**`profile` \u{2190} this PR**"));
}

#[test]
fn comment_steps_merge_fossils_and_skip_current_comments() {
    let (snap, prs, _) = consistent_stack();
    let previous_with_fossil = {
        let entries = vec![
            StackEntry { bookmark: "landed".into(), number: Some(4), url: Some("https://github.com/o/r/pull/4".into()) },
            StackEntry { bookmark: "auth".into(), number: Some(6), url: Some("https://github.com/o/r/pull/6".into()) },
        ];
        render_stack_comment(&entries, &[], Some("auth"))
    };
    let comments = StubComments(HashMap::from([(6, ExistingComment { id: 60, body: previous_with_fossil.clone() })]));
    let plan = plan_submit(&snap, &prs, &forge_repo(), "profile", &comments, None).unwrap();

    let forge = StubForge::default();
    forge.comments.borrow_mut().insert(6, ExistingComment { id: 60, body: previous_with_fossil });
    let vcs = StubVcs::default();
    let outcome = execute_submit(&plan, &vcs, &forge).unwrap();
    assert!(!outcome.failed);
    let log = forge.log.borrow();
    assert!(log.iter().any(|l| l == "comment-update id:60"), "{log:?}");
    assert!(log.iter().any(|l| l == "comment-create #7"), "{log:?}");
    let update_step = outcome
        .steps
        .iter()
        .find(|s| matches!(s.action, SubmitAction::SyncStackComment { number: Some(6), .. }))
        .unwrap();
    assert!(update_step.detail.as_deref().unwrap().contains("Updated"));

    let fresh = StubComments(forge.comments.borrow().clone());
    let replan_comments = {
        let mut map = fresh.0;
        let entries = vec![
            StackEntry { bookmark: "auth".into(), number: Some(6), url: Some("https://github.com/o/r/pull/6".into()) },
            StackEntry { bookmark: "profile".into(), number: Some(7), url: Some("https://github.com/o/r/pull/7".into()) },
        ];
        let fossils = vec![StackDataItem { bookmark: "landed".into(), number: 4, url: "https://github.com/o/r/pull/4".into() }];
        map.insert(6, ExistingComment { id: 60, body: render_stack_comment(&entries, &fossils, Some("auth")) });
        StubComments(map)
    };
    let plan = plan_submit(&snap, &prs, &forge_repo(), "profile", &replan_comments, None).unwrap();
    assert!(plan.actions.is_empty(), "{:?}", plan.actions);
}

#[test]
fn execute_stops_at_the_first_failure() {
    let plan = plan_with_all_action_kinds();
    let vcs = StubVcs { fail: true, ..Default::default() };
    let forge = StubForge::default();
    let outcome = execute_submit(&plan, &vcs, &forge).unwrap();
    assert!(outcome.failed);
    for step in &outcome.steps {
        match step.action {
            SubmitAction::Push { .. } => {
                assert_eq!(step.status, SubmitStepStatus::Failed);
                assert!(step.detail.as_deref().unwrap().contains("remote moved"));
            }
            _ => assert_eq!(step.status, SubmitStepStatus::Skipped),
        }
    }
    assert!(forge.log.borrow().is_empty());

    let vcs = StubVcs::default();
    let forge = StubForge { fail_create: Some("auth".into()), ..Default::default() };
    let outcome = execute_submit(&plan, &vcs, &forge).unwrap();
    assert!(outcome.failed);
    let statuses: Vec<SubmitStepStatus> = outcome.steps.iter().map(|s| s.status).collect();
    assert_eq!(
        statuses,
        vec![
            SubmitStepStatus::Done,
            SubmitStepStatus::Done,
            SubmitStepStatus::Failed,
            SubmitStepStatus::Skipped,
            SubmitStepStatus::Skipped,
            SubmitStepStatus::Skipped,
            SubmitStepStatus::Skipped,
        ]
    );

    let mut blocked = plan_with_all_action_kinds();
    blocked.blockers.push("something is wrong".into());
    let err = execute_submit(&blocked, &vcs, &forge).unwrap_err();
    assert_eq!(err.code(), "plan_failed");
    assert_eq!(err.message(), "Cannot submit this stack: the plan has blockers: something is wrong");
}

#[test]
fn titles_and_bodies_derive_from_the_bottom_change() {
    let (title, body) = derive_title_body(
        "feat: thing\n\nBody line.\n\nCo-authored-by: A <a@e.c>\nSigned-off-by: B <b@e.c>",
        "fallback",
    );
    assert_eq!(title, "feat: thing");
    assert_eq!(body, "Body line.");
    let (_, body) = derive_title_body("t\n\nReviewed-by: A <a@e.c>\n\nMore prose.", "fallback");
    assert_eq!(body, "Reviewed-by: A <a@e.c>\n\nMore prose.");
    let (title, body) = derive_title_body("", "fallback");
    assert_eq!(title, "fallback");
    assert_eq!(body, "");
}

#[test]
fn trailer_blocks_drop_only_at_the_end() {
    assert_eq!(strip_trailers("Prose.\n\nChange-Id: I123\n"), "Prose.");
    assert_eq!(strip_trailers("Prose.\nNot-a-trailer: x"), "Prose.\nNot-a-trailer: x");
    assert_eq!(strip_trailers("Prose.\nSigned-off-by:   "), "Prose.\nSigned-off-by:");
    assert_eq!(strip_trailers(""), "");
}

#[test]
fn comment_actions_follow_the_existing_comment() {
    let entries = vec![
        StackEntry { bookmark: "a".into(), number: Some(1), url: Some("u1".into()) },
        StackEntry { bookmark: "b".into(), number: Some(2), url: Some("u2".into()) },
    ];
    let current = render_stack_comment(&entries, &[], Some("a"));
    let same = ExistingComment { id: 10, body: current };
    assert_eq!(comment_action(&entries, "a", Some(1), false, 2, Some(&same)), None);
    let stale = ExistingComment { id: 10, body: "old".into() };
    assert_eq!(
        comment_action(&entries, "a", Some(1), false, 2, Some(&stale)),
        Some(SubmitAction::SyncStackComment { bookmark: "a".into(), number: Some(1), create: false })
    );
    assert_eq!(comment_action(&entries, "a", Some(1), false, 1, None), None);
    assert_eq!(
        comment_action(&entries, "a", Some(1), true, 1, None),
        Some(SubmitAction::SyncStackComment { bookmark: "a".into(), number: Some(1), create: true })
    );
    assert_eq!(
        comment_action(&entries, "b", None, true, 2, None),
        Some(SubmitAction::SyncStackComment { bookmark: "b".into(), number: None, create: true })
    );
}

#[test]
fn submit_warnings_come_in_order_with_exact_wording() {
    let mut snap = stack_snapshot();
    snap.bookmarks.push(bookmark("auth-alias", "a2", SyncState::LocalOnly, false));
    snap.bookmarks.push(bookmark("zeta", "a2", SyncState::LocalOnly, false));
    snap.bookmarks[1].target = "a2".into();
    snap.bookmarks[2].sync = SyncState::Behind;
    snap.nodes[1].bookmarks = vec!["zeta".into(), "auth".into(), "auth-alias".into()];
    snap.nodes[2].bookmarks = vec![];
    let prs = pr_state(vec![text_pr(9, "auth-alias", "main", "auth: login flow", "The form.")], true);
    let plan = plan_submit(&snap, &prs, &forge_repo(), "profile", &NoComments, None).unwrap();
    assert_eq!(plan.segments[0].bookmark, "auth-alias");
    assert_eq!(
        plan.warnings,
        vec![
            "auth-alias and auth and zeta point at the same change; publishing through \u{201c}auth-alias\u{201d}"
                .to_string(),
            "GitHub answered only the 100 most recently updated open PRs; an existing PR past that may be missed and recreated"
                .to_string(),
            "\u{201c}profile\u{201d} is behind its remote; the push moves the remote branch backwards".to_string(),
        ]
    );
}
