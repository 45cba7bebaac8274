use std::cell::{Cell, RefCell};
use std::collections::HashMap;

use jiji_forge::autoland::{
    accept_record, check_watch, poll_finish, poll_prepare, take_plan, AutoLandConfig, AutoLandMerged, AutoLandPhase, AutoLandPrs,
    AutoLandRecord, AutoLandState, PollDecision, Step, AUTOLAND_RECORD_VERSION,
};
use jiji_forge::error::{BackendError, ForgeError};
use jiji_forge::land::{LandForge, LandVcs, MergeMethod, Mergeable, PrLandState};
use jiji_forge::pr::{ChecksRollup, PrState, PrStateReport, PrSummary, RepoPrState, ReviewDecision};
use jiji_forge::remote::{ForgeProvider, ForgeRepo};
use jiji_forge::snapshot::{BookmarkState, GraphNode, NodeKind, RepoSnapshot, SyncState};

fn node(id: &str, description: &str, kind: NodeKind, parents: &[&str], bookmarks: &[&str]) -> GraphNode {
    GraphNode {
        id: id.into(),
        change_id: id.into(),
        description: description.into(),
        kind,
        parents: parents.iter().map(|p| p.to_string()).collect(),
        bookmarks: bookmarks.iter().map(|b| b.to_string()).collect(),
        is_empty: false,
        has_conflict: false,
        is_divergent: false,
    }
}

fn bookmark(name: &str, target: &str, sync: SyncState, is_trunk: bool) -> BookmarkState {
    BookmarkState {
        name: name.into(),
        target: target.into(),
        remote: if sync != SyncState::LocalOnly { Some("origin".into()) } else { None },
        sync,
        is_trunk,
        is_local: true,
    }
}

fn snapshot(nodes: Vec<GraphNode>, bookmarks: Vec<BookmarkState>) -> RepoSnapshot {
    RepoSnapshot {
        repo_path: "/tmp/repo".into(),
        trunk_bookmark: "main".into(),
        working_copy: nodes.first().map(|n| n.id.clone()).unwrap_or_default(),
        nodes,
        bookmarks,
        conflicts: vec![],
    }
}

fn open_pr(number: u64, head: &str, base: &str) -> PrSummary {
    PrSummary {
        number,
        title: format!("PR {number}"),
        url: format!("https://github.com/o/r/pull/{number}"),
        state: PrState::Open,
        is_draft: false,
        head_branch: head.into(),
        head_commit: "feedface".into(),
        head_owner: Some("o".into()),
        base_branch: base.into(),
        body: None,
        review: ReviewDecision::NoDecision,
        checks: ChecksRollup::NoChecks,
    }
}

fn merged_pr(number: u64, head: &str) -> PrSummary {
    PrSummary { state: PrState::Merged, ..open_pr(number, head, "main") }
}

fn forge_repo() -> ForgeRepo {
    ForgeRepo {
        provider: ForgeProvider::GitHub,
        remote: "origin".into(),
        host: "github.com".into(),
        owner: "o".into(),
        name: "r".into(),
    }
}

fn ready_state() -> PrLandState {
    PrLandState {
        node_id: "NODE1".into(),
        state: PrState::Open,
        is_draft: false,
        mergeable: Mergeable::Mergeable,
        review: ReviewDecision::Approved,
        checks: ChecksRollup::Passing,
        base_branch: "main".into(),
        head_commit: "feedface".into(),
        auto_merge_enabled: false,
        in_merge_queue: false,
        auto_merge_allowed: true,
        queue_on_base: false,
        allows_squash: true,
        allows_merge: true,
        allows_rebase: true,
    }
}

/// main(m) ── a1 ── a2 (auth, synced, @): one publishable segment.
fn single_stack() -> RepoSnapshot {
    snapshot(
        vec![
            node("a2", "auth: sessions", NodeKind::WorkingCopy, &["a1"], &["auth"]),
            node("a1", "auth: login flow", NodeKind::Mutable, &["m"], &[]),
            node("m", "release", NodeKind::Immutable, &[], &["main"]),
        ],
        vec![bookmark("main", "m", SyncState::Synced, true), bookmark("auth", "a2", SyncState::Synced, false)],
    )
}

/// main(m) ── a1 ── a2 (auth, synced) ── b1 (profile, synced, @).
fn two_stack() -> RepoSnapshot {
    snapshot(
        vec![
            node("b1", "profile: avatars", NodeKind::WorkingCopy, &["a2"], &["profile"]),
            node("a2", "auth: sessions", NodeKind::Mutable, &["a1"], &["auth"]),
            node("a1", "auth: login flow", NodeKind::Mutable, &["m"], &[]),
            node("m", "release", NodeKind::Immutable, &[], &["main"]),
        ],
        vec![
            bookmark("main", "m", SyncState::Synced, true),
            bookmark("auth", "a2", SyncState::Synced, false),
            bookmark("profile", "b1", SyncState::Synced, false),
        ],
    )
}

/// After auth landed and reconciled: profile alone on the new trunk.
fn after_first_land() -> RepoSnapshot {
    snapshot(
        vec![
            node("b1", "profile: avatars", NodeKind::WorkingCopy, &["s"], &["profile"]),
            node("s", "auth (squash)", NodeKind::Immutable, &["m"], &["main"]),
            node("m", "release", NodeKind::Immutable, &[], &[]),
        ],
        vec![bookmark("main", "s", SyncState::Synced, true), bookmark("profile", "b1", SyncState::Synced, false)],
    )
}

/// The scripted world one job run acts on.
struct World {
    snapshot: RepoSnapshot,
    prs: Vec<PrSummary>,
    land_states: HashMap<u64, PrLandState>,
    merged: HashMap<String, PrSummary>,
    prs_fail: bool,
    merge_fails: bool,
}

struct Sim {
    world: RefCell<World>,
    script: RefCell<HashMap<usize, Box<dyn Fn(&mut World)>>>,
    poll: Cell<usize>,
    calls: RefCell<Vec<String>>,
}

impl Sim {
    fn new(world: World) -> Self {
        Self {
            world: RefCell::new(world),
            script: RefCell::new(HashMap::new()),
            poll: Cell::new(0),
            calls: RefCell::new(vec![]),
        }
    }

    fn at_poll(&self, index: usize, mutation: impl Fn(&mut World) + 'static) {
        self.script.borrow_mut().insert(index, Box::new(mutation));
    }
}

impl AutoLandPrs for Sim {
    fn open_prs(&self) -> Result<RepoPrState, ForgeError> {
        // The engine asks once per poll, first — the script advances here.
        let index = self.poll.get();
        self.poll.set(index + 1);
        if let Some(mutation) = self.script.borrow().get(&index) {
            mutation(&mut self.world.borrow_mut());
        }
        let world = self.world.borrow();
        if world.prs_fail {
            return Err(ForgeError::Network("GitHub is unreachable".into()));
        }
        Ok(RepoPrState::new(PrStateReport { prs: world.prs.clone(), truncated: false }, "o"))
    }
}

impl LandVcs for Sim {
    fn git_fetch(&self, remote: &str) -> Result<String, BackendError> {
        self.calls.borrow_mut().push(format!("fetch:{remote}"));
        Ok("Fetched".into())
    }
    fn snapshot(&self) -> Result<RepoSnapshot, BackendError> {
        Ok(self.world.borrow().snapshot.clone())
    }
    fn rebase_onto_trunk(&self, root_change: &str) -> Result<String, BackendError> {
        self.calls.borrow_mut().push(format!("rebase:{root_change}"));
        Ok(format!("Rebased {root_change}"))
    }
    fn push_bookmarks(&self, bookmarks: &[String], remote: &str) -> Result<String, BackendError> {
        self.calls.borrow_mut().push(format!("push:{}:{remote}", bookmarks.join(",")));
        Ok("Pushed".into())
    }
    fn delete_bookmark(&self, name: &str) -> Result<String, BackendError> {
        self.calls.borrow_mut().push(format!("delete:{name}"));
        Ok(format!("Deleted {name}"))
    }
    fn abandon_changes(&self, change_ids: &[String]) -> Result<String, BackendError> {
        self.calls.borrow_mut().push(format!("abandon:{}", change_ids.join(",")));
        Ok("Abandoned".into())
    }
}

impl LandForge for Sim {
    fn find_merged_pr(&self, branch: &str) -> Result<Option<PrSummary>, ForgeError> {
        Ok(self.world.borrow().merged.get(branch).cloned())
    }
    fn pr_land_state(&self, number: u64, _base: &str) -> Result<PrLandState, ForgeError> {
        self.world
            .borrow()
            .land_states
            .get(&number)
            .cloned()
            .ok_or_else(|| ForgeError::Api(format!("no stub state for #{number}")))
    }
    fn merge_pr(&self, number: u64, method: MergeMethod, _expected_head: &str) -> Result<(), ForgeError> {
        if self.world.borrow().merge_fails {
            return Err(ForgeError::Api("HTTP 405: merge refused".into()));
        }
        self.calls.borrow_mut().push(format!("merge:{number}:{}", method.rest_name()));
        Ok(())
    }
    fn enable_auto_merge(&self, node_id: &str, method: MergeMethod) -> Result<(), ForgeError> {
        self.calls.borrow_mut().push(format!("auto_merge:{node_id}:{}", method.rest_name()));
        Ok(())
    }
    fn enqueue_pr(&self, node_id: &str) -> Result<(), ForgeError> {
        self.calls.borrow_mut().push(format!("enqueue:{node_id}"));
        Ok(())
    }
    fn update_pr_base(&self, number: u64, base: &str) -> Result<(), ForgeError> {
        self.calls.borrow_mut().push(format!("retarget:{number}:{base}"));
        Ok(())
    }
}

fn test_config() -> AutoLandConfig {
    AutoLandConfig { max_consecutive_errors: 10, ..AutoLandConfig::default() }
}

/// Drive a job to its end the way a host does — publish each decided
/// phase, publish `Round` before running one — logging every published
/// state. `stop_after` published states, the job is stopped; the safety
/// stop keeps a wrong loop from spinning forever.
fn drive(
    sim: &Sim,
    initial: AutoLandState,
    config: &AutoLandConfig,
    stop_after: usize,
) -> (AutoLandState, Vec<AutoLandState>) {
    let mut state = initial;
    let mut errors: u32 = 0;
    let mut repo_path: Option<String> = None;
    let mut log: Vec<AutoLandState> = vec![];
    loop {
        if log.len() >= stop_after {
            state.phase = AutoLandPhase::Stopped;
            log.push(state.clone());
            return (state, log);
        }
        let step =
            match poll_prepare(&forge_repo(), sim, sim, sim, config, &mut state, &mut errors, &mut repo_path) {
                PollDecision::Decided(step) => step,
                PollDecision::Round(plan) => {
                    state.phase = AutoLandPhase::Round;
                    log.push(state.clone());
                    poll_finish(&plan, sim, sim, config, &mut state, &mut errors)
                }
            };
        match step {
            Step::End(phase) => {
                state.phase = phase;
                log.push(state.clone());
                return (state, log);
            }
            Step::Wait(phase) => {
                state.phase = phase;
                log.push(state.clone());
            }
        }
    }
}

fn run(sim: &Sim, head: &str, config: &AutoLandConfig) -> (AutoLandState, Vec<AutoLandState>) {
    drive(sim, AutoLandState::queued(head), config, 100)
}

fn world(snapshot: RepoSnapshot, prs: Vec<PrSummary>, land_states: HashMap<u64, PrLandState>) -> World {
    World { snapshot, prs, land_states, merged: HashMap::new(), prs_fail: false, merge_fails: false }
}

fn waiting_record(head: &str) -> AutoLandRecord {
    AutoLandRecord {
        version: AUTOLAND_RECORD_VERSION,
        repo_path: "/tmp/repo".into(),
        state: AutoLandState {
            phase: AutoLandPhase::Waiting { attention: false, reasons: vec!["GitHub is driving the merge now".into()] },
            rounds: 2,
            merged: vec![AutoLandMerged {
                number: 100,
                url: "https://github.com/o/r/pull/100".into(),
                bookmark: "profile".into(),
            }],
            ..AutoLandState::queued(head)
        },
        saved_at_ms: 1_751_500_000_000,
    }
}

#[test]
fn lands_a_ready_single_stack_and_finishes() {
    let mut land_states = HashMap::new();
    land_states.insert(1, ready_state());
    let sim = Sim::new(world(single_stack(), vec![open_pr(1, "auth", "main")], land_states));

    let (state, log) = run(&sim, "auth", &test_config());
    assert_eq!(state.phase, AutoLandPhase::Done);
    assert_eq!(state.rounds, 1);
    assert_eq!(
        state.merged,
        vec![AutoLandMerged { number: 1, url: "https://github.com/o/r/pull/1".into(), bookmark: "auth".into() }]
    );
    assert!(!state.last_outcome.as_ref().unwrap().failed);
    // One round, no waiting: the job went straight to work and ended.
    assert_eq!(log.len(), 2);
    assert_eq!(log[0].phase, AutoLandPhase::Round);
    assert_eq!(log[1].phase, AutoLandPhase::Done);
    let calls = sim.calls.borrow();
    assert!(calls.contains(&"merge:1:squash".to_owned()), "{calls:?}");
    assert!(calls.contains(&"abandon:a2,a1".to_owned()), "{calls:?}");
}

#[test]
fn waits_quietly_while_checks_run_then_lands() {
    let mut land_states = HashMap::new();
    land_states.insert(1, PrLandState { checks: ChecksRollup::Pending, auto_merge_allowed: false, ..ready_state() });
    let sim = Sim::new(world(single_stack(), vec![open_pr(1, "auth", "main")], land_states));
    // The checks pass before the third poll.
    sim.at_poll(2, |world| {
        world.land_states.insert(1, ready_state());
    });

    let (state, log) = run(&sim, "auth", &test_config());
    assert_eq!(state.phase, AutoLandPhase::Done);
    assert_eq!(state.rounds, 1);
    match &log[0].phase {
        AutoLandPhase::Waiting { attention, reasons } => {
            assert!(!attention);
            assert!(reasons.iter().any(|r| r.contains("checks are still running")), "{reasons:?}");
        }
        other => panic!("expected waiting, got {other:?}"),
    }
    assert_eq!(log[0].phase, log[1].phase);
    assert_eq!(log[2].phase, AutoLandPhase::Round);
}

#[test]
fn needs_user_states_read_as_attention() {
    let mut land_states = HashMap::new();
    land_states.insert(1, PrLandState { review: ReviewDecision::ChangesRequested, ..ready_state() });
    let sim = Sim::new(world(single_stack(), vec![open_pr(1, "auth", "main")], land_states));

    // Stop after the first published wait; the point is the phrasing.
    let (final_state, log) = drive(&sim, AutoLandState::queued("auth"), &test_config(), 1);
    assert_eq!(final_state.phase, AutoLandPhase::Stopped);
    match &log[0].phase {
        AutoLandPhase::Waiting { attention, reasons } => {
            assert!(*attention, "changes requested needs the user");
            assert!(reasons.iter().any(|r| r.contains("changes were requested")), "{reasons:?}");
        }
        other => panic!("expected waiting, got {other:?}"),
    }
}

#[test]
fn supervises_a_github_side_merge_to_the_end() {
    let mut land_states = HashMap::new();
    land_states.insert(1, PrLandState { checks: ChecksRollup::Pending, ..ready_state() });
    let sim = Sim::new(world(single_stack(), vec![open_pr(1, "auth", "main")], land_states));
    // GitHub's auto-merge finishes before the second poll.
    sim.at_poll(1, |world| {
        world.prs.clear();
        world.merged.insert("auth".into(), merged_pr(1, "auth"));
    });

    let (state, log) = run(&sim, "auth", &test_config());
    assert_eq!(state.phase, AutoLandPhase::Done);
    // Two rounds: the hand-off, then the reconcile once GitHub merged.
    assert_eq!(state.rounds, 2);
    assert_eq!(state.merged.len(), 1);
    assert_eq!(state.merged[0].number, 1);
    let calls = sim.calls.borrow();
    assert!(calls.iter().any(|c| c.starts_with("auto_merge:")), "{calls:?}");
    assert!(!calls.iter().any(|c| c.starts_with("merge:")), "GitHub drove the merge, not the job: {calls:?}");
    let waited_on_github = log.iter().any(|s| {
        matches!(
            &s.phase,
            AutoLandPhase::Waiting { attention: false, reasons }
                if reasons.iter().any(|r| r.contains("GitHub is driving"))
        )
    });
    assert!(waited_on_github, "{log:?}");
}

#[test]
fn lands_a_two_segment_stack_across_rounds() {
    let mut land_states = HashMap::new();
    land_states.insert(1, ready_state());
    land_states.insert(7, PrLandState { base_branch: "auth".into(), ..ready_state() });
    let sim =
        Sim::new(world(two_stack(), vec![open_pr(1, "auth", "main"), open_pr(7, "profile", "auth")], land_states));
    sim.at_poll(1, |world| {
        world.snapshot = after_first_land();
        world.prs = vec![open_pr(7, "profile", "main")];
        world.land_states.insert(7, ready_state());
    });

    let (state, log) = run(&sim, "profile", &test_config());
    assert_eq!(state.phase, AutoLandPhase::Done);
    assert_eq!(state.rounds, 2);
    assert_eq!(state.merged.iter().map(|m| m.number).collect::<Vec<_>>(), vec![1, 7]);
    let continued = log.iter().any(|s| {
        matches!(
            &s.phase,
            AutoLandPhase::Waiting { reasons, .. } if reasons.iter().any(|r| r.contains("Landed a round"))
        )
    });
    assert!(continued, "{log:?}");
    let calls = sim.calls.borrow();
    assert!(calls.contains(&"merge:1:squash".to_owned()), "{calls:?}");
    assert!(calls.contains(&"merge:7:squash".to_owned()), "{calls:?}");
    assert!(calls.contains(&"retarget:7:main".to_owned()), "{calls:?}");
}

#[test]
fn parks_after_the_error_budget() {
    let sim = Sim::new(World { prs_fail: true, ..world(single_stack(), vec![], HashMap::new()) });

    let config = AutoLandConfig { max_consecutive_errors: 3, ..test_config() };
    let (state, log) = run(&sim, "auth", &config);
    match &state.phase {
        AutoLandPhase::Failed { message } => {
            assert!(message.contains("gave up after 3"), "{message}");
            assert!(message.contains("unreachable"), "{message}");
        }
        other => panic!("expected failed, got {other:?}"),
    }
    assert!(matches!(
        &log[0].phase,
        AutoLandPhase::Waiting { attention: false, reasons } if reasons.iter().any(|r| r.contains("retrying"))
    ));
    assert_eq!(log.len(), 3);
}

#[test]
fn failed_rounds_retry_then_park() {
    let mut land_states = HashMap::new();
    land_states.insert(1, ready_state());
    let sim = Sim::new(World { merge_fails: true, ..world(single_stack(), vec![open_pr(1, "auth", "main")], land_states) });

    let config = AutoLandConfig { max_consecutive_errors: 2, ..test_config() };
    let (state, log) = run(&sim, "auth", &config);
    assert_eq!(state.rounds, 2, "each retry re-planned and re-ran");
    match &state.phase {
        AutoLandPhase::Failed { message } => {
            assert!(message.contains("could not finish"), "{message}");
            assert!(message.contains("merge refused"), "{message}");
        }
        other => panic!("expected failed, got {other:?}"),
    }
    let retried = log.iter().any(|s| {
        matches!(
            &s.phase,
            AutoLandPhase::Waiting { attention: true, reasons } if reasons.iter().any(|r| r.contains("merge refused"))
        )
    });
    assert!(retried, "{log:?}");
    assert!(state.last_outcome.as_ref().unwrap().failed);
}

#[test]
fn a_vanished_bookmark_parks_the_job() {
    let mut land_states = HashMap::new();
    land_states.insert(1, PrLandState { checks: ChecksRollup::Pending, auto_merge_allowed: false, ..ready_state() });
    let sim = Sim::new(world(single_stack(), vec![open_pr(1, "auth", "main")], land_states));
    sim.at_poll(1, |world| {
        world.snapshot.bookmarks.retain(|b| b.name != "auth");
    });

    let (state, _log) = run(&sim, "auth", &test_config());
    match &state.phase {
        AutoLandPhase::Failed { message } => assert!(message.contains("no longer a bookmark"), "{message}"),
        other => panic!("expected failed, got {other:?}"),
    }
}

#[test]
fn a_repo_switch_parks_the_job() {
    let mut land_states = HashMap::new();
    land_states.insert(1, PrLandState { checks: ChecksRollup::Pending, auto_merge_allowed: false, ..ready_state() });
    let sim = Sim::new(world(single_stack(), vec![open_pr(1, "auth", "main")], land_states));
    sim.at_poll(1, |world| {
        world.snapshot.repo_path = "/somewhere/else".into();
    });

    let (state, _log) = run(&sim, "auth", &test_config());
    match &state.phase {
        AutoLandPhase::Failed { message } => assert!(message.contains("repository changed"), "{message}"),
        other => panic!("expected failed, got {other:?}"),
    }
}

#[test]
fn resumed_state_keeps_progress_and_resets_the_phase() {
    let prior = AutoLandState {
        phase: AutoLandPhase::Waiting { attention: true, reasons: vec!["the checks are failing".into()] },
        ..waiting_record("auth").state
    };
    let resumed = AutoLandState::resumed(prior.clone());
    assert_eq!(resumed.rounds, prior.rounds);
    assert_eq!(resumed.merged, prior.merged);
    assert_eq!(resumed.head_bookmark, "auth");
    // The old phase rested on stale facts; a resumed job sizes up fresh.
    match &resumed.phase {
        AutoLandPhase::Waiting { attention, reasons } => {
            assert!(!attention);
            assert!(reasons.iter().any(|r| r.contains("Sizing up")), "{reasons:?}");
        }
        other => panic!("expected waiting, got {other:?}"),
    }
}

#[test]
fn a_resumed_job_carries_prior_progress_through_to_done() {
    let mut land_states = HashMap::new();
    land_states.insert(1, ready_state());
    let sim = Sim::new(world(single_stack(), vec![open_pr(1, "auth", "main")], land_states));

    let initial = AutoLandState::resumed(waiting_record("auth").state);
    let (state, _log) = drive(&sim, initial, &test_config(), 100);
    assert_eq!(state.phase, AutoLandPhase::Done);
    assert_eq!(state.rounds, 3, "rounds accumulate across the restart");
    assert_eq!(
        state.merged.iter().map(|m| m.number).collect::<Vec<_>>(),
        vec![100, 1],
        "the pre-restart merge stays first in the story"
    );
}

#[test]
fn foreign_record_versions_are_dropped() {
    let record = waiting_record("auth");
    assert_eq!(accept_record(record.clone()), Some(record.clone()));
    let foreign = AutoLandRecord { version: AUTOLAND_RECORD_VERSION + 1, ..record };
    assert_eq!(accept_record(foreign), None);
}

#[test]
fn default_config_polls_every_thirty_seconds_with_a_budget_of_ten() {
    let config = AutoLandConfig::default();
    assert_eq!(config.max_consecutive_errors, 10);
    assert_eq!(config.poll_interval, std::time::Duration::from_secs(30));
}

#[test]
fn a_failed_snapshot_read_counts_against_the_budget() {
    let config = test_config();
    let mut errors = 3u32;
    let mut pinned: Option<String> = Some("/tmp/repo".into());
    let r = check_watch(&config, &mut errors, &mut pinned, "profile", Err(BackendError::Unavailable("repo locked".into())));
    assert_eq!(errors, 4);
    assert_eq!(pinned.as_deref(), Some("/tmp/repo"));
    assert_eq!(
        r.unwrap_err(),
        Step::Wait(AutoLandPhase::Waiting {
            attention: false,
            reasons: vec!["repo locked \u{2014} retrying on the next check".into()],
        })
    );
}

#[test]
fn a_snapshot_of_another_repository_parks_the_job() {
    let config = test_config();
    let mut errors = 0u32;
    let mut pinned: Option<String> = Some("/elsewhere".into());
    let snap = snapshot(vec![], vec![bookmark("profile", "b1", SyncState::Synced, false)]);
    let r = check_watch(&config, &mut errors, &mut pinned, "profile", Ok(snap));
    assert_eq!(errors, 0);
    assert_eq!(
        r.unwrap_err(),
        Step::End(AutoLandPhase::Failed {
            message: "The open repository changed while auto-land was watching \u{201c}profile\u{201d} in /elsewhere".into(),
        })
    );
}

#[test]
fn the_first_look_pins_the_repository_and_hands_the_snapshot_on() {
    let config = test_config();
    let mut errors = 2u32;
    let mut pinned: Option<String> = None;
    let snap = snapshot(vec![], vec![bookmark("profile", "b1", SyncState::Synced, false)]);
    let r = check_watch(&config, &mut errors, &mut pinned, "profile", Ok(snap.clone()));
    assert_eq!(errors, 2);
    assert_eq!(pinned.as_deref(), Some("/tmp/repo"));
    assert_eq!(r.unwrap(), snap);
}

#[test]
fn a_failed_plan_counts_against_the_budget_and_leaves_the_state_alone() {
    let config = test_config();
    let mut errors = 9u32;
    let mut state = AutoLandState::queued("profile");
    let before = state.clone();
    let r = take_plan(&config, &mut errors, &mut state, Err(ForgeError::Network("offline".into())));
    assert_eq!(errors, 10);
    assert_eq!(state, before);
    match r {
        PollDecision::Decided(Step::End(AutoLandPhase::Failed { message })) => {
            assert!(message.starts_with("Auto-land gave up after 10 straight failures"), "{message}");
        },
        _ => panic!("expected the job to give up"),
    }
}
