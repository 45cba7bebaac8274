use std::cell::RefCell;

use jiji_forge::error::BackendError;
use jiji_forge::pr::{ChecksRollup, PrState, PrStateReport, PrSummary, RepoPrState, ReviewDecision};
use jiji_forge::ship::{execute_ship, plan_ship, ShipAction, ShipPlan, ShipVcs};
use jiji_forge::snapshot::{BookmarkState, ConflictItem, GraphNode, NodeKind, RepoSnapshot, SyncState};
use jiji_forge::submit::SubmitStepStatus;

fn node(id: &str, description: &str, kind: NodeKind, parents: &[&str], bookmarks: &[&str]) -> GraphNode {
    GraphNode {
        id: id.into(),
        change_id: id.into(),
        description: description.into(),
        kind,
        parents: parents.iter().map(|p| p.to_string()).collect(),
        bookmarks: bookmarks.iter().map(|b| b.to_string()).collect(),
        is_empty: false,
        has_conflict: false,
        is_divergent: false,
    }
}

fn bookmark(name: &str, target: &str, sync: SyncState, is_trunk: bool) -> BookmarkState {
    BookmarkState {
        name: name.into(),
        target: target.into(),
        remote: if sync != SyncState::LocalOnly { Some("origin".into()) } else { None },
        sync,
        is_trunk,
        is_local: true,
    }
}

fn snapshot(nodes: Vec<GraphNode>, bookmarks: Vec<BookmarkState>) -> RepoSnapshot {
    RepoSnapshot {
        repo_path: "/tmp/repo".into(),
        trunk_bookmark: "main".into(),
        working_copy: String::new(),
        nodes,
        bookmarks,
        conflicts: vec![],
    }
}

/// trunk ─ b1 ─ b2(head); trunk bookmark on trunk, synced.
fn stack_on_trunk() -> RepoSnapshot {
    snapshot(
        vec![
            node("b2", "feat: top", NodeKind::Mutable, &["b1"], &[]),
            node("b1", "feat: bottom", NodeKind::Mutable, &["t0"], &[]),
            node("t0", "trunk tip", NodeKind::Immutable, &[], &["main"]),
        ],
        vec![bookmark("main", "t0", SyncState::Synced, true)],
    )
}

fn prs_with(open: Vec<PrSummary>) -> RepoPrState {
    RepoPrState::new(PrStateReport { prs: open, truncated: false }, "o")
}

fn open_pr(number: u64, head: &str) -> PrSummary {
    PrSummary {
        number,
        title: format!("PR {number}"),
        url: format!("https://github.com/o/r/pull/{number}"),
        state: PrState::Open,
        is_draft: false,
        head_branch: head.into(),
        head_commit: "feedface".into(),
        head_owner: Some("o".into()),
        base_branch: "main".into(),
        body: None,
        review: ReviewDecision::NoDecision,
        checks: ChecksRollup::NoChecks,
    }
}

#[test]
fn plans_move_and_push_for_a_stack_on_current_trunk() {
    let plan = plan_ship(&stack_on_trunk(), None, "origin", "b2").unwrap();
    assert!(plan.blockers.is_empty(), "{:?}", plan.blockers);
    assert_eq!(plan.change_ids, vec!["b1", "b2"]);
    assert_eq!(
        plan.actions,
        vec![
            ShipAction::MoveTrunk { bookmark: "main".into(), to: "b2".into() },
            ShipAction::PushTrunk { bookmark: "main".into(), remote: "origin".into() },
        ]
    );
    assert_eq!(plan.head_title, "feat: top");
}

#[test]
fn plans_a_rebase_when_the_stack_sits_on_an_older_trunk() {
    // t1 is the fetched trunk tip; the stack still sits on t0.
    let snap = snapshot(
        vec![
            node("b2", "feat: top", NodeKind::Mutable, &["b1"], &[]),
            node("b1", "feat: bottom", NodeKind::Mutable, &["t0"], &[]),
            node("t1", "newer trunk", NodeKind::Immutable, &["t0"], &["main"]),
            node("t0", "old trunk", NodeKind::Immutable, &[], &[]),
        ],
        vec![bookmark("main", "t1", SyncState::Synced, true)],
    );
    let plan = plan_ship(&snap, None, "origin", "b2").unwrap();
    assert!(plan.blockers.is_empty(), "{:?}", plan.blockers);
    assert_eq!(plan.actions[0], ShipAction::RebaseOntoTrunk { root_change: "b1".into(), moves: 2 });
    assert!(matches!(plan.actions[1], ShipAction::MoveTrunk { .. }));
    assert!(matches!(plan.actions[2], ShipAction::PushTrunk { .. }));
}

#[test]
fn an_already_shipped_stack_plans_nothing() {
    let snap = snapshot(
        vec![
            node("b1", "feat: shipped", NodeKind::Mutable, &["t0"], &["main"]),
            node("t0", "old trunk", NodeKind::Immutable, &[], &[]),
        ],
        vec![bookmark("main", "b1", SyncState::Synced, true)],
    );
    let plan = plan_ship(&snap, None, "origin", "b1").unwrap();
    assert!(plan.blockers.is_empty(), "{:?}", plan.blockers);
    assert!(plan.actions.is_empty(), "{:?}", plan.actions);
}

#[test]
fn a_failed_push_retries_as_push_only() {
    let snap = snapshot(
        vec![
            node("b1", "feat: retry", NodeKind::Mutable, &["t0"], &["main"]),
            node("t0", "old trunk", NodeKind::Immutable, &[], &[]),
        ],
        vec![bookmark("main", "b1", SyncState::Ahead, true)],
    );
    let plan = plan_ship(&snap, None, "origin", "b1").unwrap();
    assert!(plan.blockers.is_empty(), "{:?}", plan.blockers);
    assert_eq!(plan.actions, vec![ShipAction::PushTrunk { bookmark: "main".into(), remote: "origin".into() }]);
    assert!(plan.warnings.iter().any(|w| w.contains("already ahead")), "{:?}", plan.warnings);
}

#[test]
fn unpresentable_changes_and_a_broken_trunk_block() {
    let mut snap = stack_on_trunk();
    snap.nodes[0].description = String::new();
    snap.nodes[1].has_conflict = true;
    snap.bookmarks[0].sync = SyncState::Diverged;
    let plan = plan_ship(&snap, None, "origin", "b2").unwrap();
    assert!(plan.blockers.iter().any(|b| b.contains("diverged")), "{:?}", plan.blockers);
    assert!(plan.blockers.iter().any(|b| b.contains("no description")), "{:?}", plan.blockers);
    assert!(plan.blockers.iter().any(|b| b.contains("has conflicts")), "{:?}", plan.blockers);
}

#[test]
fn divergent_changes_and_remote_only_trunk_block() {
    let mut snap = stack_on_trunk();
    snap.nodes[1].is_divergent = true;
    snap.bookmarks[0].is_local = false;
    let plan = plan_ship(&snap, None, "origin", "b2").unwrap();
    assert!(plan.blockers.iter().any(|b| b.contains("divergent")), "{:?}", plan.blockers);
    assert!(plan.blockers.iter().any(|b| b.contains("only on the remote")), "{:?}", plan.blockers);
}

#[test]
fn a_conflicted_trunk_bookmark_blocks() {
    let mut snap = stack_on_trunk();
    snap.conflicts.push(ConflictItem { id: "bookmark-main".into() });
    let plan = plan_ship(&snap, None, "origin", "b2").unwrap();
    assert!(plan.blockers.iter().any(|b| b.contains("conflicted")), "{:?}", plan.blockers);
}

#[test]
fn refuses_immutable_and_unknown_heads() {
    let snap = stack_on_trunk();
    assert!(plan_ship(&snap, None, "origin", "t0").is_err());
    assert!(plan_ship(&snap, None, "origin", "zzzz").is_err());
}

#[test]
fn a_shipped_working_copy_respawns_and_open_prs_warn() {
    let mut snap = stack_on_trunk();
    snap.working_copy = "b2".into();
    snap.nodes[0].bookmarks = vec!["feature".into()];
    snap.bookmarks.push(bookmark("feature", "b2", SyncState::Synced, false));
    let prs = prs_with(vec![open_pr(7, "feature")]);
    let plan = plan_ship(&snap, Some(&prs), "origin", "b2").unwrap();
    assert_eq!(plan.actions.last(), Some(&ShipAction::NewWorkingCopy { on: "b2".into() }));
    assert!(
        plan.warnings.iter().any(|w| w.contains("#7") && w.contains("marks it merged")),
        "{:?}",
        plan.warnings
    );
}

#[test]
fn local_only_trunk_warns_and_still_pushes() {
    let mut snap = stack_on_trunk();
    snap.bookmarks[0] = bookmark("main", "t0", SyncState::LocalOnly, true);
    let plan = plan_ship(&snap, None, "origin", "b2").unwrap();
    assert!(plan.blockers.is_empty(), "{:?}", plan.blockers);
    assert!(plan.warnings.iter().any(|w| w.contains("this push creates it")), "{:?}", plan.warnings);
    assert!(plan.actions.iter().any(|a| matches!(a, ShipAction::PushTrunk { .. })));
}

/// Scripted vcs: answers each call from a log, optionally failing the
/// push like a lease refusal.
struct Vcs {
    snap: RepoSnapshot,
    push_fails: bool,
    calls: RefCell<Vec<String>>,
}

impl ShipVcs for Vcs {
    fn snapshot(&self) -> Result<RepoSnapshot, BackendError> {
        Ok(self.snap.clone())
    }
    fn rebase_onto_trunk(&self, root_change: &str) -> Result<String, BackendError> {
        self.calls.borrow_mut().push(format!("rebase:{root_change}"));
        Ok(format!("Rebased {root_change} onto trunk"))
    }
    fn move_bookmark(&self, name: &str, to_change: &str) -> Result<String, BackendError> {
        self.calls.borrow_mut().push(format!("move:{name}:{to_change}"));
        Ok(format!("Moved {name} to {to_change}"))
    }
    fn push_bookmarks(&self, bookmarks: &[String], remote: &str) -> Result<String, BackendError> {
        self.calls.borrow_mut().push(format!("push:{}:{remote}", bookmarks.join(",")));
        if self.push_fails {
            Err(BackendError::MutationFailed("Refusing to push: origin's main moved since the last fetch".into()))
        } else {
            Ok("Pushed main to origin".into())
        }
    }
    fn new_change(&self, parent_change: &str) -> Result<String, BackendError> {
        self.calls.borrow_mut().push(format!("new:{parent_change}"));
        Ok(format!("Started a new change on {parent_change}"))
    }
}

fn full_plan() -> ShipPlan {
    ShipPlan {
        head_change: "b2".into(),
        head_title: "feat: top".into(),
        trunk_bookmark: "main".into(),
        remote: "origin".into(),
        change_ids: vec!["b1".into(), "b2".into()],
        actions: vec![
            ShipAction::RebaseOntoTrunk { root_change: "b1".into(), moves: 2 },
            ShipAction::MoveTrunk { bookmark: "main".into(), to: "b2".into() },
            ShipAction::PushTrunk { bookmark: "main".into(), remote: "origin".into() },
            ShipAction::NewWorkingCopy { on: "b2".into() },
        ],
        blockers: vec![],
        warnings: vec![],
    }
}

#[test]
fn executes_in_order_and_reports_each_step() {
    let vcs = Vcs { snap: stack_on_trunk(), push_fails: false, calls: RefCell::new(vec![]) };
    let outcome = execute_ship(&full_plan(), &vcs).unwrap();
    assert!(!outcome.failed);
    assert!(outcome.steps.iter().all(|s| s.status == SubmitStepStatus::Done));
    assert_eq!(*vcs.calls.borrow(), vec!["rebase:b1", "move:main:b2", "push:main:origin", "new:b2"]);
}

#[test]
fn a_refused_push_fails_the_step_and_skips_the_rest() {
    let vcs = Vcs { snap: stack_on_trunk(), push_fails: true, calls: RefCell::new(vec![]) };
    let outcome = execute_ship(&full_plan(), &vcs).unwrap();
    assert!(outcome.failed);
    assert_eq!(outcome.steps[2].status, SubmitStepStatus::Failed);
    assert!(outcome.steps[2].detail.as_deref().unwrap().contains("moved since the last fetch"));
    assert_eq!(outcome.steps[3].status, SubmitStepStatus::Skipped);
}

#[test]
fn move_trunk_skips_politely_when_already_done() {
    let mut snap = stack_on_trunk();
    snap.bookmarks[0].target = "b2".into();
    let vcs = Vcs { snap, push_fails: false, calls: RefCell::new(vec![]) };
    let plan = ShipPlan {
        actions: vec![
            ShipAction::MoveTrunk { bookmark: "main".into(), to: "b2".into() },
            ShipAction::PushTrunk { bookmark: "main".into(), remote: "origin".into() },
        ],
        ..full_plan()
    };
    let outcome = execute_ship(&plan, &vcs).unwrap();
    assert!(!outcome.failed);
    assert!(outcome.steps[0].detail.as_deref().unwrap().contains("already points at"));
    assert_eq!(*vcs.calls.borrow(), vec!["push:main:origin"]);
}

#[test]
fn blocked_plans_refuse_to_execute() {
    let vcs = Vcs { snap: stack_on_trunk(), push_fails: false, calls: RefCell::new(vec![]) };
    let plan = ShipPlan { blockers: vec!["nope".into()], ..full_plan() };
    assert!(execute_ship(&plan, &vcs).is_err());
    assert!(vcs.calls.borrow().is_empty());
}

#[test]
fn ship_warnings_come_in_order_with_exact_wording() {
    let mut snap = snapshot(
        vec![
            node("b2", "feat: top", NodeKind::Mutable, &["b1"], &["top", "alias"]),
            node("b1", "feat: bottom", NodeKind::Mutable, &["t0"], &["low"]),
            node("t0", "trunk tip", NodeKind::Immutable, &[], &["main"]),
        ],
        vec![bookmark("main", "t0", SyncState::LocalOnly, true)],
    );
    snap.nodes[0].is_empty = true;
    let prs = prs_with(vec![open_pr(7, "low"), open_pr(9, "alias")]);
    let plan = plan_ship(&snap, Some(&prs), "origin", "b2").unwrap();
    assert_eq!(
        plan.warnings,
        vec![
            "origin has no \u{201c}main\u{201d} yet \u{2014} this push creates it".to_string(),
            "the head change has no file changes \u{2014} shipping records an empty commit on trunk".to_string(),
            "#7 (low) is open for this work \u{2014} pushing the same commits to \u{201c}main\u{201d} marks it merged on GitHub"
                .to_string(),
            "#9 (alias) is open for this work \u{2014} pushing the same commits to \u{201c}main\u{201d} marks it merged on GitHub"
                .to_string(),
        ]
    );
}
