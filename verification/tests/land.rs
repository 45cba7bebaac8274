use std::cell::RefCell;
use std::collections::HashMap;

use jiji_forge::github::read_answer;
use jiji_forge::error::{BackendError, ForgeError};
use jiji_forge::land::{
    execute_land, merge_gate, parse_pr_land_state, plan_land, queue_gate, retarget_gate, LandAction, LandForge,
    LandPlan, LandSegmentStatus, LandVcs, MergeMethod, Mergeable, PrLandState, StepGate,
};
use jiji_forge::pr::{ChecksRollup, PrState, PrStateReport, PrSummary, RepoPrState, ReviewDecision};
use jiji_forge::remote::{ForgeProvider, ForgeRepo};
use jiji_forge::snapshot::{BookmarkState, GraphNode, NodeKind, RepoSnapshot, SyncState};
use jiji_forge::submit::SubmitStepStatus;

fn node(id: &str, description: &str, kind: NodeKind, parents: &[&str], bookmarks: &[&str]) -> GraphNode {
    GraphNode {
        id: id.into(),
        change_id: id.into(),
        description: description.into(),
        kind,
        parents: parents.iter().map(|p| p.to_string()).collect(),
        bookmarks: bookmarks.iter().map(|b| b.to_string()).collect(),
        is_empty: false,
        has_conflict: false,
        is_divergent: false,
    }
}

fn bookmark(name: &str, target: &str, sync: SyncState, is_trunk: bool) -> BookmarkState {
    BookmarkState {
        name: name.into(),
        target: target.into(),
        remote: if sync != SyncState::LocalOnly { Some("origin".into()) } else { None },
        sync,
        is_trunk,
        is_local: true,
    }
}

fn snapshot(nodes: Vec<GraphNode>, bookmarks: Vec<BookmarkState>) -> RepoSnapshot {
    RepoSnapshot {
        repo_path: "/tmp/repo".into(),
        trunk_bookmark: "main".into(),
        working_copy: nodes.first().map(|n| n.id.clone()).unwrap_or_default(),
        nodes,
        bookmarks,
        conflicts: vec![],
    }
}

fn open_pr(number: u64, head: &str, base: &str) -> PrSummary {
    PrSummary {
        number,
        title: format!("PR {number}"),
        url: format!("https://github.com/o/r/pull/{number}"),
        state: PrState::Open,
        is_draft: false,
        head_branch: head.into(),
        head_commit: "feedface".into(),
        head_owner: Some("o".into()),
        base_branch: base.into(),
        body: None,
        review: ReviewDecision::NoDecision,
        checks: ChecksRollup::NoChecks,
    }
}

fn merged_pr(number: u64, head: &str) -> PrSummary {
    PrSummary { state: PrState::Merged, ..open_pr(number, head, "main") }
}

fn pr_state(prs: Vec<PrSummary>, truncated: bool) -> RepoPrState {
    RepoPrState::new(PrStateReport { prs, truncated }, "o")
}

fn forge_repo() -> ForgeRepo {
    ForgeRepo {
        provider: ForgeProvider::GitHub,
        remote: "origin".into(),
        host: "github.com".into(),
        owner: "o".into(),
        name: "r".into(),
    }
}

fn ready_state() -> PrLandState {
    PrLandState {
        node_id: "NODE1".into(),
        state: PrState::Open,
        is_draft: false,
        mergeable: Mergeable::Mergeable,
        review: ReviewDecision::Approved,
        checks: ChecksRollup::Passing,
        base_branch: "main".into(),
        head_commit: "feedface".into(),
        auto_merge_enabled: false,
        in_merge_queue: false,
        auto_merge_allowed: true,
        queue_on_base: false,
        allows_squash: true,
        allows_merge: true,
        allows_rebase: true,
    }
}

/// main(m) ── a1 ── a2 (auth, synced) ── b1 (profile, ahead, @).
fn land_snapshot() -> RepoSnapshot {
    snapshot(
        vec![
            node("b1", "profile: avatars", NodeKind::WorkingCopy, &["a2"], &["profile"]),
            node("a2", "auth: sessions", NodeKind::Mutable, &["a1"], &["auth"]),
            node("a1", "auth: login flow", NodeKind::Mutable, &["m"], &[]),
            node("m", "release", NodeKind::Immutable, &[], &["main"]),
        ],
        vec![
            bookmark("main", "m", SyncState::Synced, true),
            bookmark("auth", "a2", SyncState::Synced, false),
            bookmark("profile", "b1", SyncState::Ahead, false),
        ],
    )
}

#[derive(Default)]
struct StubLandForge {
    merged: HashMap<String, PrSummary>,
    states: HashMap<u64, PrLandState>,
    merge_fails: bool,
    merged_despite_error: bool,
    calls: RefCell<Vec<String>>,
    bases: RefCell<Vec<String>>,
}

impl LandForge for StubLandForge {
    fn find_merged_pr(&self, branch: &str) -> Result<Option<PrSummary>, ForgeError> {
        self.calls.borrow_mut().push(format!("find_merged:{branch}"));
        Ok(self.merged.get(branch).cloned())
    }
    fn pr_land_state(&self, number: u64, base: &str) -> Result<PrLandState, ForgeError> {
        self.calls.borrow_mut().push(format!("land_state:{number}"));
        self.bases.borrow_mut().push(base.to_owned());
        let mut state = self
            .states
            .get(&number)
            .cloned()
            .ok_or_else(|| ForgeError::Api(format!("no stub state for #{number}")))?;
        if self.merged_despite_error && self.calls.borrow().len() > 2 {
            state.state = PrState::Merged;
        }
        Ok(state)
    }
    fn merge_pr(&self, number: u64, method: MergeMethod, _expected_head: &str) -> Result<(), ForgeError> {
        self.calls.borrow_mut().push(format!("merge:{number}:{}", method.rest_name()));
        if self.merge_fails || self.merged_despite_error {
            Err(ForgeError::Api("HTTP 405: merge refused".into()))
        } else {
            Ok(())
        }
    }
    fn enable_auto_merge(&self, node_id: &str, method: MergeMethod) -> Result<(), ForgeError> {
        self.calls.borrow_mut().push(format!("auto_merge:{node_id}:{}", method.rest_name()));
        Ok(())
    }
    fn enqueue_pr(&self, node_id: &str) -> Result<(), ForgeError> {
        self.calls.borrow_mut().push(format!("enqueue:{node_id}"));
        Ok(())
    }
    fn update_pr_base(&self, number: u64, base: &str) -> Result<(), ForgeError> {
        self.calls.borrow_mut().push(format!("retarget:{number}:{base}"));
        Ok(())
    }
}

struct StubVcs {
    post: RepoSnapshot,
    calls: RefCell<Vec<String>>,
}

impl StubVcs {
    fn new(post: RepoSnapshot) -> Self {
        Self { post, calls: RefCell::new(vec![]) }
    }
}

impl LandVcs for StubVcs {
    fn git_fetch(&self, remote: &str) -> Result<String, BackendError> {
        self.calls.borrow_mut().push(format!("fetch:{remote}"));
        Ok("Fetched from origin".into())
    }
    fn snapshot(&self) -> Result<RepoSnapshot, BackendError> {
        Ok(self.post.clone())
    }
    fn rebase_onto_trunk(&self, root_change: &str) -> Result<String, BackendError> {
        self.calls.borrow_mut().push(format!("rebase:{root_change}"));
        Ok(format!("Rebased {root_change} onto main"))
    }
    fn push_bookmarks(&self, bookmarks: &[String], remote: &str) -> Result<String, BackendError> {
        self.calls.borrow_mut().push(format!("push:{}:{remote}", bookmarks.join(",")));
        Ok("Pushed".into())
    }
    fn delete_bookmark(&self, name: &str) -> Result<String, BackendError> {
        self.calls.borrow_mut().push(format!("delete:{name}"));
        Ok(format!("Deleted {name}"))
    }
    fn abandon_changes(&self, change_ids: &[String]) -> Result<String, BackendError> {
        self.calls.borrow_mut().push(format!("abandon:{}", change_ids.join(",")));
        Ok("Abandoned".into())
    }
}

fn json(text: &str) -> jiji_forge::codec::Json {
    read_answer("GET", "test", 200, text).expect("test JSON parses")
}

#[test]
fn ready_candidate_plans_merge_and_full_reconcile() {
    let snap = land_snapshot();
    let prs = pr_state(vec![open_pr(1, "auth", "main"), open_pr(7, "profile", "auth")], false);
    let mut forge = StubLandForge::default();
    forge.states.insert(1, ready_state());

    let plan = plan_land(&snap, &prs, &forge_repo(), "profile", &forge).unwrap();
    assert!(plan.blockers.is_empty(), "{:?}", plan.blockers);
    assert_eq!(
        plan.actions,
        vec![
            LandAction::MergePr {
                number: 1,
                bookmark: "auth".into(),
                method: MergeMethod::Squash,
                expected_head: "feedface".into(),
            },
            LandAction::FetchRemote { remote: "origin".into() },
            LandAction::RebaseOntoTrunk { root_change: "b1".into(), moves: 1 },
            LandAction::PushStack { bookmarks: vec!["profile".into()] },
            LandAction::RetargetPr { number: 7, bookmark: "profile".into(), to_base: "main".into() },
            LandAction::CleanupBookmark { bookmark: "auth".into() },
            LandAction::AbandonLanded { bookmark: "auth".into(), change_ids: vec!["a2".into(), "a1".into()] },
        ]
    );
    assert_eq!(plan.segments.len(), 2);
    assert_eq!(plan.segments[0].status, LandSegmentStatus::Landing);
    assert_eq!(plan.segments[1].status, LandSegmentStatus::Stacked);
    // Only the candidate was asked for fresh state.
    assert_eq!(forge.calls.borrow().as_slice(), ["land_state:1"]);
}

#[test]
fn merged_bottom_plans_reconcile_only() {
    let snap = land_snapshot();
    // auth has no open PR — it merged on GitHub.
    let prs = pr_state(vec![open_pr(7, "profile", "auth")], false);
    let mut forge = StubLandForge::default();
    forge.merged.insert("auth".into(), merged_pr(1, "auth"));

    let plan = plan_land(&snap, &prs, &forge_repo(), "profile", &forge).unwrap();
    assert!(plan.blockers.is_empty(), "{:?}", plan.blockers);
    assert_eq!(
        plan.actions,
        vec![
            LandAction::FetchRemote { remote: "origin".into() },
            LandAction::RebaseOntoTrunk { root_change: "b1".into(), moves: 1 },
            LandAction::PushStack { bookmarks: vec!["profile".into()] },
            LandAction::RetargetPr { number: 7, bookmark: "profile".into(), to_base: "main".into() },
            LandAction::CleanupBookmark { bookmark: "auth".into() },
            LandAction::AbandonLanded { bookmark: "auth".into(), change_ids: vec!["a2".into(), "a1".into()] },
        ]
    );
    assert_eq!(
        plan.segments[0].status,
        LandSegmentStatus::Merged { number: 1, url: "https://github.com/o/r/pull/1".into() }
    );
    // The PR above stays put this run.
    assert_eq!(plan.segments[1].status, LandSegmentStatus::Stacked);
    assert_eq!(forge.calls.borrow().as_slice(), ["find_merged:auth"]);
}

#[test]
fn whole_stack_merged_plans_cleanup_only() {
    let snap = land_snapshot();
    let prs = pr_state(vec![], false);
    let mut forge = StubLandForge::default();
    forge.merged.insert("auth".into(), merged_pr(1, "auth"));
    forge.merged.insert("profile".into(), merged_pr(7, "profile"));

    let plan = plan_land(&snap, &prs, &forge_repo(), "profile", &forge).unwrap();
    assert!(plan.blockers.is_empty(), "{:?}", plan.blockers);
    assert_eq!(
        plan.actions,
        vec![
            LandAction::FetchRemote { remote: "origin".into() },
            LandAction::CleanupBookmark { bookmark: "auth".into() },
            LandAction::CleanupBookmark { bookmark: "profile".into() },
            LandAction::AbandonLanded { bookmark: "auth".into(), change_ids: vec!["a2".into(), "a1".into()] },
            LandAction::AbandonLanded { bookmark: "profile".into(), change_ids: vec!["b1".into()] },
        ]
    );
    // The working copy sits on the landed head; the plan says so.
    assert!(plan.warnings.iter().any(|w| w.contains("working copy")), "{:?}", plan.warnings);
}

#[test]
fn missing_pr_above_merged_bottom_reconciles_with_a_warning() {
    let mut snap = land_snapshot();
    // profile never got a PR.
    snap.bookmarks[2].sync = SyncState::LocalOnly;
    snap.bookmarks[2].remote = None;
    let prs = pr_state(vec![], false);
    let mut forge = StubLandForge::default();
    forge.merged.insert("auth".into(), merged_pr(1, "auth"));

    let plan = plan_land(&snap, &prs, &forge_repo(), "profile", &forge).unwrap();
    assert!(plan.blockers.is_empty(), "{:?}", plan.blockers);
    assert_eq!(
        plan.actions,
        vec![
            LandAction::FetchRemote { remote: "origin".into() },
            LandAction::RebaseOntoTrunk { root_change: "b1".into(), moves: 1 },
            LandAction::CleanupBookmark { bookmark: "auth".into() },
            LandAction::AbandonLanded { bookmark: "auth".into(), change_ids: vec!["a2".into(), "a1".into()] },
        ]
    );
    assert!(plan.warnings.iter().any(|w| w.contains("no pull request yet")), "{:?}", plan.warnings);
    assert_eq!(plan.segments[1].status, LandSegmentStatus::Stacked);
}

#[test]
fn no_pr_at_the_bottom_blocks() {
    let snap = land_snapshot();
    let prs = pr_state(vec![], false);
    let forge = StubLandForge::default();

    let plan = plan_land(&snap, &prs, &forge_repo(), "profile", &forge).unwrap();
    assert!(plan.actions.is_empty());
    assert!(
        plan.blockers.iter().any(|b| b.message.contains("has no pull request") && !b.wait),
        "{:?}",
        plan.blockers
    );
    assert_eq!(plan.segments[0].status, LandSegmentStatus::Waiting);
}

#[test]
fn pending_checks_prefer_auto_merge_when_the_repo_allows() {
    let snap = land_snapshot();
    let prs = pr_state(vec![open_pr(1, "auth", "main"), open_pr(7, "profile", "auth")], false);
    let mut forge = StubLandForge::default();
    forge.states.insert(1, PrLandState { checks: ChecksRollup::Pending, ..ready_state() });

    let plan = plan_land(&snap, &prs, &forge_repo(), "profile", &forge).unwrap();
    assert!(plan.blockers.is_empty(), "{:?}", plan.blockers);
    assert_eq!(
        plan.actions,
        vec![LandAction::EnableAutoMerge { number: 1, bookmark: "auth".into(), method: MergeMethod::Squash }]
    );
    assert!(plan.warnings.iter().any(|w| w.contains("auto-merge")), "{:?}", plan.warnings);

    // With auto-merge disabled on the repo, the same state blocks.
    let mut forge = StubLandForge::default();
    forge.states.insert(
        1,
        PrLandState { checks: ChecksRollup::Pending, auto_merge_allowed: false, ..ready_state() },
    );
    let plan = plan_land(&snap, &prs, &forge_repo(), "profile", &forge).unwrap();
    assert!(plan.actions.is_empty());
    // A pending-checks wait is transient.
    assert!(
        plan.blockers.iter().any(|b| b.message.contains("checks are still running") && b.wait),
        "{:?}",
        plan.blockers
    );
}

#[test]
fn queue_protected_trunk_enqueues() {
    let snap = land_snapshot();
    let prs = pr_state(vec![open_pr(1, "auth", "main"), open_pr(7, "profile", "auth")], false);
    let mut forge = StubLandForge::default();
    forge.states.insert(1, PrLandState { queue_on_base: true, ..ready_state() });

    let plan = plan_land(&snap, &prs, &forge_repo(), "profile", &forge).unwrap();
    assert_eq!(plan.actions, vec![LandAction::EnqueuePr { number: 1, bookmark: "auth".into() }]);
    assert!(plan.warnings.iter().any(|w| w.contains("merge queue")), "{:?}", plan.warnings);
}

#[test]
fn blocked_states_plan_nothing_and_say_why() {
    let snap = land_snapshot();
    let prs = pr_state(vec![open_pr(1, "auth", "main"), open_pr(7, "profile", "auth")], false);
    // The `wait` flag marks the one condition GitHub clears by itself
    // (mergeability still computing); everything else needs the user.
    for (state, needle, wait) in [
        (PrLandState { mergeable: Mergeable::Conflicting, ..ready_state() }, "merge conflicts", false),
        (PrLandState { mergeable: Mergeable::Unknown, ..ready_state() }, "still working out", true),
        (PrLandState { is_draft: true, ..ready_state() }, "still a draft", false),
        (PrLandState { review: ReviewDecision::ChangesRequested, ..ready_state() }, "changes were requested", false),
        (PrLandState { checks: ChecksRollup::Failing, ..ready_state() }, "checks are failing", false),
        (PrLandState { base_branch: "old-base".into(), ..ready_state() }, "still targets", false),
    ] {
        let mut forge = StubLandForge::default();
        forge.states.insert(1, state);
        let plan = plan_land(&snap, &prs, &forge_repo(), "profile", &forge).unwrap();
        assert!(plan.actions.is_empty(), "{needle}: {:?}", plan.actions);
        assert!(
            plan.blockers.iter().any(|b| b.message.contains(needle) && b.wait == wait),
            "{needle}: {:?}",
            plan.blockers
        );
        assert_eq!(plan.segments[0].status, LandSegmentStatus::Waiting);
    }
}

#[test]
fn out_of_sync_bookmark_blocks_the_merge() {
    let mut snap = land_snapshot();
    snap.bookmarks[1].sync = SyncState::Ahead;
    let prs = pr_state(vec![open_pr(1, "auth", "main"), open_pr(7, "profile", "auth")], false);
    let mut forge = StubLandForge::default();
    forge.states.insert(1, ready_state());

    let plan = plan_land(&snap, &prs, &forge_repo(), "profile", &forge).unwrap();
    assert!(plan.actions.is_empty());
    assert!(
        plan.blockers.iter().any(|b| b.message.contains("GitHub branch differ") && !b.wait),
        "{:?}",
        plan.blockers
    );
}

#[test]
fn automation_already_running_plans_nothing() {
    let snap = land_snapshot();
    let prs = pr_state(vec![open_pr(1, "auth", "main"), open_pr(7, "profile", "auth")], false);
    let mut forge = StubLandForge::default();
    forge.states.insert(1, PrLandState { auto_merge_enabled: true, ..ready_state() });

    let plan = plan_land(&snap, &prs, &forge_repo(), "profile", &forge).unwrap();
    assert!(plan.actions.is_empty());
    assert!(plan.blockers.is_empty(), "{:?}", plan.blockers);
    assert!(plan.warnings.iter().any(|w| w.contains("auto-merge is already enabled")), "{:?}", plan.warnings);
    assert_eq!(plan.segments[0].status, LandSegmentStatus::Landing);
}

#[test]
fn merge_commit_landing_skips_the_abandon() {
    let snap = land_snapshot();
    let prs = pr_state(vec![open_pr(1, "auth", "main"), open_pr(7, "profile", "auth")], false);
    let mut forge = StubLandForge::default();
    forge.states.insert(1, PrLandState { allows_squash: false, allows_rebase: false, ..ready_state() });

    let plan = plan_land(&snap, &prs, &forge_repo(), "profile", &forge).unwrap();
    assert!(matches!(plan.actions[0], LandAction::MergePr { method: MergeMethod::Merge, .. }));
    assert!(
        !plan.actions.iter().any(|a| matches!(a, LandAction::AbandonLanded { .. })),
        "a merge-commit landing keeps the local changes as trunk ancestry: {:?}",
        plan.actions
    );
    assert!(plan.actions.iter().any(|a| matches!(a, LandAction::CleanupBookmark { .. })));
}

/// The world after a squash merge landed and the fetch imported it.
fn post_fetch_snapshot() -> RepoSnapshot {
    snapshot(
        vec![
            node("b1", "profile: avatars", NodeKind::WorkingCopy, &["a2"], &["profile"]),
            node("a2", "auth: sessions", NodeKind::Mutable, &["a1"], &["auth"]),
            node("a1", "auth: login flow", NodeKind::Mutable, &["m"], &[]),
            node("s", "auth (squash)", NodeKind::Immutable, &["m"], &["main"]),
            node("m", "release", NodeKind::Immutable, &[], &[]),
        ],
        vec![
            bookmark("main", "s", SyncState::Synced, true),
            bookmark("auth", "a2", SyncState::Synced, false),
            bookmark("profile", "b1", SyncState::Ahead, false),
        ],
    )
}

fn ready_plan(forge: &StubLandForge) -> LandPlan {
    let snap = land_snapshot();
    let prs = pr_state(vec![open_pr(1, "auth", "main"), open_pr(7, "profile", "auth")], false);
    plan_land(&snap, &prs, &forge_repo(), "profile", forge).unwrap()
}

#[test]
fn execute_runs_merge_and_reconcile_in_order() {
    let mut forge = StubLandForge::default();
    forge.states.insert(1, ready_state());
    forge.states.insert(7, PrLandState { base_branch: "auth".into(), ..ready_state() });
    let plan = ready_plan(&forge);
    forge.calls.borrow_mut().clear();
    let vcs = StubVcs::new(post_fetch_snapshot());

    let outcome = execute_land(&plan, &vcs, &forge).unwrap();
    assert!(!outcome.failed, "{:?}", outcome.steps);
    assert!(outcome.steps.iter().all(|s| s.status == SubmitStepStatus::Done));
    assert_eq!(forge.calls.borrow().as_slice(), ["land_state:1", "merge:1:squash", "land_state:7", "retarget:7:main",]);
    assert_eq!(
        vcs.calls.borrow().as_slice(),
        ["fetch:origin", "rebase:b1", "push:profile:origin", "delete:auth", "push:auth:origin", "abandon:a2,a1",]
    );
}

#[test]
fn execute_adapts_when_github_already_cleaned_up() {
    let mut forge = StubLandForge::default();
    forge.states.insert(1, ready_state());
    let plan = {
        // Plan from the merged-bottom flavor.
        let snap = land_snapshot();
        let prs = pr_state(vec![open_pr(7, "profile", "auth")], false);
        let mut planning = StubLandForge::default();
        planning.merged.insert("auth".into(), merged_pr(1, "auth"));
        plan_land(&snap, &prs, &forge_repo(), "profile", &planning).unwrap()
    };
    let post = snapshot(
        vec![
            node("b1", "profile: avatars", NodeKind::WorkingCopy, &["s"], &["profile"]),
            node("s", "auth (squash)", NodeKind::Immutable, &["m"], &["main"]),
            node("m", "release", NodeKind::Immutable, &[], &[]),
        ],
        vec![bookmark("main", "s", SyncState::Synced, true), bookmark("profile", "b1", SyncState::Ahead, false)],
    );
    let mut forge = forge;
    forge.states.insert(7, PrLandState { base_branch: "main".into(), ..ready_state() });
    let vcs = StubVcs::new(post);

    let outcome = execute_land(&plan, &vcs, &forge).unwrap();
    assert!(!outcome.failed, "{:?}", outcome.steps);
    assert!(outcome.steps.iter().all(|s| s.status == SubmitStepStatus::Done));
    assert_eq!(vcs.calls.borrow().as_slice(), ["fetch:origin", "push:profile:origin"]);
    let details: Vec<&str> = outcome.steps.iter().filter_map(|s| s.detail.as_deref()).collect();
    assert!(details.iter().any(|d| d.contains("already on the new trunk")), "{details:?}");
    assert!(details.iter().any(|d| d.contains("already retargeted")), "{details:?}");
    assert!(details.iter().any(|d| d.contains("already gone")), "{details:?}");
    assert!(details.iter().any(|d| d.contains("already part of trunk")), "{details:?}");
}

#[test]
fn execute_stops_when_the_merge_refuses() {
    let mut forge = StubLandForge::default();
    forge.states.insert(1, ready_state());
    let plan = ready_plan(&forge);
    forge.calls.borrow_mut().clear();
    // The candidate's checks flipped to failing between confirm and run.
    forge.states.insert(1, PrLandState { checks: ChecksRollup::Failing, ..ready_state() });
    let vcs = StubVcs::new(post_fetch_snapshot());

    let outcome = execute_land(&plan, &vcs, &forge).unwrap();
    assert!(outcome.failed);
    assert_eq!(outcome.steps[0].status, SubmitStepStatus::Failed);
    assert!(outcome.steps[0].detail.as_deref().unwrap().contains("no longer ready"));
    assert!(outcome.steps[1..].iter().all(|s| s.status == SubmitStepStatus::Skipped));
    assert!(vcs.calls.borrow().is_empty(), "nothing local ran");
}

#[test]
fn execute_believes_the_pr_over_a_merge_error() {
    let mut forge = StubLandForge::default();
    forge.states.insert(1, ready_state());
    forge.states.insert(7, PrLandState { base_branch: "main".into(), ..ready_state() });
    let plan = ready_plan(&forge);
    forge.calls.borrow_mut().clear();
    forge.merged_despite_error = true;
    let vcs = StubVcs::new(post_fetch_snapshot());

    let outcome = execute_land(&plan, &vcs, &forge).unwrap();
    assert!(!outcome.failed, "{:?}", outcome.steps);
    assert!(outcome.steps[0].detail.as_deref().unwrap().contains("the merge went through"));
}

#[test]
fn execute_refuses_plans_with_blockers() {
    let snap = land_snapshot();
    let prs = pr_state(vec![], false);
    let forge = StubLandForge::default();
    let plan = plan_land(&snap, &prs, &forge_repo(), "profile", &forge).unwrap();
    assert!(!plan.blockers.is_empty());
    let vcs = StubVcs::new(land_snapshot());
    let err = execute_land(&plan, &vcs, &forge).unwrap_err();
    assert!(err.message().contains("blockers"));
}

#[test]
fn parse_pr_land_state_reads_the_full_shape() {
    let data = json(
        r#"{
        "repository": {
            "autoMergeAllowed": true,
            "squashMergeAllowed": true,
            "mergeCommitAllowed": false,
            "rebaseMergeAllowed": false,
            "mergeQueue": { "id": "Q_1" },
            "pullRequest": {
                "id": "PR_node1",
                "state": "OPEN",
                "isDraft": false,
                "mergeable": "MERGEABLE",
                "reviewDecision": "APPROVED",
                "isInMergeQueue": false,
                "autoMergeRequest": null,
                "baseRefName": "main",
                "headRefOid": "abc123",
                "commits": { "nodes": [ { "commit": { "statusCheckRollup": { "state": "SUCCESS" } } } ] }
            }
        }
    }"#,
    );
    let state = parse_pr_land_state(&data, 5).unwrap();
    assert_eq!(state.node_id, "PR_node1");
    assert_eq!(state.state, PrState::Open);
    assert_eq!(state.mergeable, Mergeable::Mergeable);
    assert_eq!(state.review, ReviewDecision::Approved);
    assert_eq!(state.checks, ChecksRollup::Passing);
    assert_eq!(state.base_branch, "main");
    assert_eq!(state.head_commit, "abc123");
    assert!(!state.auto_merge_enabled);
    assert!(!state.in_merge_queue);
    assert!(state.auto_merge_allowed);
    assert!(state.queue_on_base);
    assert!(state.allows_squash);
    assert!(!state.allows_merge);
    assert!(!state.allows_rebase);

    // No rollup, auto-merge on, no queue on the base branch.
    let data = json(
        r#"{
        "repository": {
            "autoMergeAllowed": false,
            "squashMergeAllowed": true,
            "mergeCommitAllowed": true,
            "rebaseMergeAllowed": true,
            "mergeQueue": null,
            "pullRequest": {
                "id": "PR_node2",
                "state": "MERGED",
                "isDraft": false,
                "mergeable": "UNKNOWN",
                "reviewDecision": null,
                "isInMergeQueue": false,
                "autoMergeRequest": { "enabledAt": "2026-07-01T00:00:00Z" },
                "baseRefName": "main",
                "headRefOid": "def456",
                "commits": { "nodes": [ { "commit": { "statusCheckRollup": null } } ] }
            }
        }
    }"#,
    );
    let state = parse_pr_land_state(&data, 6).unwrap();
    assert_eq!(state.state, PrState::Merged);
    assert_eq!(state.mergeable, Mergeable::Unknown);
    assert_eq!(state.review, ReviewDecision::NoDecision);
    assert_eq!(state.checks, ChecksRollup::NoChecks);
    assert!(state.auto_merge_enabled);
    assert!(!state.queue_on_base);

    // A missing PR is the not-found story, not a parse error.
    let data = json(r#"{ "repository": { "pullRequest": null } }"#);
    assert!(matches!(parse_pr_land_state(&data, 9).unwrap_err(), ForgeError::NotFound(_)));
}

#[test]
fn the_merge_gate_only_lets_a_ready_unmoved_pr_through() {
    let ready = ready_state();
    assert_eq!(merge_gate(7, &ready, "main", "feedface"), StepGate::Proceed);
    assert_eq!(
        merge_gate(7, &ready, "main", "0ld"),
        StepGate::Refused("#7's branch moved since this plan was made \u{2014} review the fresh plan and land again".into())
    );
    let merged = PrLandState { state: PrState::Merged, ..ready_state() };
    assert_eq!(merge_gate(7, &merged, "main", "0ld"), StepGate::Settled("#7 was already merged on GitHub; reconciling".into()));
    let waiting = PrLandState { checks: ChecksRollup::Pending, review: ReviewDecision::ReviewRequired, ..ready_state() };
    assert_eq!(
        merge_gate(7, &waiting, "main", "feedface"),
        StepGate::Refused(
            "#7 is no longer ready to merge: #7's checks are still running; #7 still needs an approving review".into()
        )
    );
    let blocked = PrLandState { is_draft: true, checks: ChecksRollup::Failing, ..ready_state() };
    assert_eq!(
        merge_gate(7, &blocked, "main", "feedface"),
        StepGate::Refused(
            "#7 is no longer ready to merge: #7 is still a draft \u{2014} mark it ready for review on GitHub first; #7's checks are failing"
                .into()
        )
    );
    let queued = PrLandState { in_merge_queue: true, ..ready_state() };
    assert!(matches!(merge_gate(7, &queued, "main", "feedface"), StepGate::Refused(_)));
}

#[test]
fn the_queue_and_retarget_gates_skip_what_github_already_did() {
    let ready = ready_state();
    assert_eq!(queue_gate(3, &ready, false), StepGate::Proceed);
    assert_eq!(queue_gate(3, &ready, true), StepGate::Proceed);
    let enabled = PrLandState { auto_merge_enabled: true, ..ready_state() };
    assert_eq!(queue_gate(3, &enabled, false), StepGate::Settled("auto-merge is already enabled on #3".into()));
    let queued = PrLandState { in_merge_queue: true, ..ready_state() };
    assert_eq!(queue_gate(3, &queued, true), StepGate::Settled("#3 is already in the merge queue".into()));
    let merged = PrLandState { state: PrState::Merged, ..ready_state() };
    assert_eq!(
        queue_gate(3, &merged, true),
        StepGate::Settled("#3 already merged on GitHub \u{2014} run Land again to reconcile".into())
    );

    assert_eq!(retarget_gate(4, &ready, "feature"), StepGate::Proceed);
    assert_eq!(retarget_gate(4, &ready, "main"), StepGate::Settled("GitHub already retargeted #4 onto main".into()));
    let closed = PrLandState { state: PrState::Closed, ..ready_state() };
    assert_eq!(retarget_gate(4, &closed, "feature"), StepGate::Settled("#4 is no longer open; leaving its base alone".into()));
}

#[test]
fn land_warnings_come_with_exact_wording() {
    let snap = land_snapshot();
    let prs = pr_state(vec![open_pr(1, "auth", "main"), open_pr(7, "profile", "auth")], true);
    let mut forge = StubLandForge::default();
    forge.states.insert(
        1,
        PrLandState { checks: ChecksRollup::Pending, review: ReviewDecision::ReviewRequired, ..ready_state() },
    );
    let plan = plan_land(&snap, &prs, &forge_repo(), "profile", &forge).unwrap();
    assert_eq!(
        plan.warnings,
        vec![
            "GitHub answered only the 100 most recently updated open PRs; a stack PR past that may read as missing"
                .to_string(),
            "#1's checks are still running; #1 still needs an approving review \u{2014} auto-merge hands the wait to GitHub"
                .to_string(),
        ]
    );

    let prs = pr_state(vec![open_pr(1, "auth", "main"), open_pr(7, "profile", "auth")], false);
    let mut forge = StubLandForge::default();
    forge.states.insert(1, PrLandState { queue_on_base: true, ..ready_state() });
    let plan = plan_land(&snap, &prs, &forge_repo(), "profile", &forge).unwrap();
    assert_eq!(
        plan.warnings,
        vec![
            "\u{201c}main\u{201d} is protected by a merge queue; GitHub lands #1 from here \u{2014} run Land again afterwards to reconcile"
                .to_string()
        ]
    );
}

#[test]
fn planning_asks_the_candidate_against_trunk() {
    let snap = land_snapshot();
    let prs = pr_state(vec![open_pr(1, "auth", "main"), open_pr(7, "profile", "auth")], false);
    let mut forge = StubLandForge::default();
    forge.states.insert(1, ready_state());
    plan_land(&snap, &prs, &forge_repo(), "profile", &forge).unwrap();
    assert_eq!(forge.bases.borrow().as_slice(), ["main"]);
}

#[test]
fn a_failed_land_state_read_fails_planning_with_its_error() {
    let snap = land_snapshot();
    let prs = pr_state(vec![open_pr(1, "auth", "main"), open_pr(7, "profile", "auth")], false);
    let forge = StubLandForge::default();
    let err = plan_land(&snap, &prs, &forge_repo(), "profile", &forge).unwrap_err();
    assert_eq!(err, ForgeError::Api("no stub state for #1".into()));
}

#[test]
fn a_merged_segment_rules_out_landing_and_one_segment_lands_at_most() {
    let snap = land_snapshot();
    let prs = pr_state(vec![open_pr(7, "profile", "auth")], false);
    let mut forge = StubLandForge::default();
    forge.merged.insert("auth".into(), merged_pr(1, "auth"));
    let plan = plan_land(&snap, &prs, &forge_repo(), "profile", &forge).unwrap();
    assert!(plan.actions.iter().all(|a| !matches!(
        a,
        LandAction::MergePr { .. } | LandAction::EnableAutoMerge { .. } | LandAction::EnqueuePr { .. }
    )));
    assert!(plan.segments.iter().all(|s| s.status != LandSegmentStatus::Landing));

    let prs = pr_state(vec![open_pr(1, "auth", "main"), open_pr(7, "profile", "auth")], false);
    let mut forge = StubLandForge::default();
    forge.states.insert(1, ready_state());
    let plan = plan_land(&snap, &prs, &forge_repo(), "profile", &forge).unwrap();
    let landing = plan.segments.iter().filter(|s| s.status == LandSegmentStatus::Landing).count();
    assert_eq!(landing, 1);
}
