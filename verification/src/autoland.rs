//! The auto-land job engine: a supervised state machine over the land
//! engine's plan → execute round. A queued job keeps re-deriving the
//! landing plan from fresh local and GitHub facts, runs a round when the
//! plan has actions, and waits when it does not.
//!
//! The engine decides; the host owns the thread, the between-round sleep
//! and the publishing of every phase change. One poll is
//! [`poll_prepare`] (fresh facts, the plan, and either a decision or a
//! round to run) followed, for a round, by [`poll_finish`] (execute and
//! judge). A consecutive-error budget absorbs transient forge and network
//! failures instead of dying on the first flake, and waiting states are
//! classified: remote conditions GitHub clears by itself versus states
//! that need the user.

use vstd::prelude::*;

use crate::error::{backend_message, error_message, BackendError, ForgeError};
use crate::land::{
    copy_segments, execute_land, plan_land, plan_land_told, LandAction, LandForge, LandOutcome, LandPlan, LandSegment,
    LandSegmentStatus, LandVcs,
};
use crate::pr::RepoPrState;
use crate::remote::ForgeRepo;
use crate::session::CommandError;
use crate::snapshot::{bookmark_index, find_bookmark, RepoSnapshot};
use crate::submit::{join_sep, str_views, SubmitStepStatus};
use crate::text::{cat2, cat3, cat4, chars_of, dec, decimal, push_all, push_str, str_eq, string_of};

verus! {

/// Fresh batched open-PR state, re-asked at the top of every poll: every
/// round's plan must derive from current facts.
///
/// The request has a name for its answers, which a host may define (one
/// that does not leaves every answer open) and the library assumes nothing
/// of: it only lets a contract speak of the answer a request gave.
pub trait AutoLandPrs {
    /// `r` answers a request for the open PRs.
    closed spec fn open_answer(&self, r: Result<RepoPrState, ForgeError>) -> bool {
        true
    }

    fn open_prs(&self) -> (r: Result<RepoPrState, ForgeError>)
        ensures
            self.open_answer(r),
    ;
}

/// `Duration::from_secs`: the span of `n` whole seconds (see
/// [`span_of_secs`]).
#[verifier::external_body]
fn seconds(n: u64) -> (r: std::time::Duration)
    ensures
        r == span_of_secs(n),
{
    std::time::Duration::from_secs(n)
}

/// The span `Duration::from_secs` makes of `n` whole seconds.
pub uninterp spec fn span_of_secs(n: u64) -> std::time::Duration;

/// The job's pacing and patience: a 30-second poll and a budget of 10
/// consecutive failures before the job parks itself.
#[derive(Debug)]
pub struct AutoLandConfig {
    pub poll_interval: std::time::Duration,
    pub max_consecutive_errors: u32,
}

impl Default for AutoLandConfig {
    fn default() -> (r: AutoLandConfig)
        ensures
            r.max_consecutive_errors == 10,
            r.poll_interval == span_of_secs(30),
    {
        AutoLandConfig { poll_interval: seconds(30), max_consecutive_errors: 10 }
    }
}

/// Where the job stands right now.
#[derive(Debug, Clone, PartialEq, Eq)]
pub enum AutoLandPhase {
    /// Between rounds, watching for conditions to change. `attention`
    /// distinguishes "GitHub clears this by itself" from "the user has to
    /// act before landing can continue".
    Waiting { attention: bool, reasons: Vec<String> },
    /// A landing round is executing right now.
    Round,
    /// The whole stack landed and cleaned up. Terminal.
    Done,
    /// The job parked itself. Terminal.
    Failed { message: String },
    /// Stopped on request. Terminal.
    Stopped,
}

/// The content of a phase.
pub ghost enum PhaseView {
    Waiting { attention: bool, reasons: Seq<Seq<char>> },
    Round,
    Done,
    Failed { message: Seq<char> },
    Stopped,
}

impl View for AutoLandPhase {
    type V = PhaseView;

    open spec fn view(&self) -> PhaseView {
        match self {
            AutoLandPhase::Waiting { attention, reasons } => PhaseView::Waiting { attention: *attention, reasons: str_views(reasons@) },
            AutoLandPhase::Round => PhaseView::Round,
            AutoLandPhase::Done => PhaseView::Done,
            AutoLandPhase::Failed { message } => PhaseView::Failed { message: message@ },
            AutoLandPhase::Stopped => PhaseView::Stopped,
        }
    }
}

impl AutoLandPhase {
    /// Done, failed and stopped jobs are over.
    pub fn is_terminal(&self) -> (r: bool)
        ensures
            r == (self is Done || self is Failed || self is Stopped),
    {
        match self {
            AutoLandPhase::Done | AutoLandPhase::Failed { .. } | AutoLandPhase::Stopped => true,
            _ => false,
        }
    }
}

/// The phase a job sizing up its stack shows.
pub open spec fn sizing_up() -> PhaseView {
    PhaseView::Waiting { attention: false, reasons: seq!["Sizing up the stack"@] }
}

fn sizing_up_phase() -> (r: AutoLandPhase)
    ensures
        r@ == sizing_up(),
{
    let mut reasons: Vec<String> = Vec::new();
    reasons.push(crate::text::owned("Sizing up the stack"));
    assert(str_views(reasons@) =~= seq!["Sizing up the stack"@]);
    AutoLandPhase::Waiting { attention: false, reasons }
}

/// A PR the job saw land.
#[derive(Debug, Clone, PartialEq, Eq)]
pub struct AutoLandMerged {
    pub number: u64,
    pub url: String,
    pub bookmark: String,
}

/// The job as a host renders it.
#[derive(Debug, Clone, PartialEq, Eq)]
pub struct AutoLandState {
    pub head_bookmark: String,
    pub phase: AutoLandPhase,
    /// Rounds that executed actions.
    pub rounds: u32,
    /// PRs confirmed merged so far, in the order the job saw them land.
    pub merged: Vec<AutoLandMerged>,
    /// The latest plan's segments.
    pub segments: Vec<LandSegment>,
    /// The last executed round's steps.
    pub last_outcome: Option<LandOutcome>,
}

impl AutoLandState {
    /// A fresh job queued on a bookmark, about to take its first look.
    pub fn queued(head_bookmark: &str) -> (r: AutoLandState)
        ensures
            r.head_bookmark@ == head_bookmark@,
            r.phase@ == sizing_up(),
            r.rounds == 0,
            r.merged@.len() == 0,
            r.segments@.len() == 0,
            r.last_outcome is None,
    {
        AutoLandState {
            head_bookmark: crate::text::owned(head_bookmark),
            phase: sizing_up_phase(),
            rounds: 0,
            merged: Vec::new(),
            segments: Vec::new(),
            last_outcome: None,
        }
    }

    /// A restart survivor picking back up: progress carries over, while
    /// the phase resets to sizing-up — every fact the old phase rested on
    /// went stale while the job was away.
    pub fn resumed(prior: AutoLandState) -> (r: AutoLandState)
        ensures
            r.head_bookmark == prior.head_bookmark,
            r.rounds == prior.rounds,
            r.merged == prior.merged,
            r.segments == prior.segments,
            r.last_outcome == prior.last_outcome,
            r.phase@ == sizing_up(),
    {
        AutoLandState { phase: sizing_up_phase(), ..prior }
    }
}

/// The persisted-record format version: a file written by a different
/// version loads as nothing rather than being guessed at.
pub const AUTOLAND_RECORD_VERSION: u32 = 1;

/// The one-job record a host persists.
#[derive(Debug, Clone, PartialEq, Eq)]
pub struct AutoLandRecord {
    pub version: u32,
    /// The repo the job was queued in.
    pub repo_path: String,
    pub state: AutoLandState,
    /// Unix milliseconds of the save.
    pub saved_at_ms: u64,
}

/// A record as a host answers it to a (re)connecting surface: `live`
/// distinguishes a record a thread is driving right now from one that
/// survived from an earlier session.
#[derive(Debug, Clone, PartialEq, Eq)]
pub struct AutoLandStatus {
    pub record: AutoLandRecord,
    pub live: bool,
}

/// A loaded record is kept only when it has this build's format version.
pub fn accept_record(record: AutoLandRecord) -> (r: Option<AutoLandRecord>)
    ensures
        r == (if record.version == AUTOLAND_RECORD_VERSION {
            Some(record)
        } else {
            None
        }),
{
    if record.version == AUTOLAND_RECORD_VERSION {
        Some(record)
    } else {
        None
    }
}

// ---------------------------------------------------------------------
// One poll's decisions
// ---------------------------------------------------------------------

/// What one poll decided.
#[derive(Debug, Clone, PartialEq, Eq)]
pub enum Step {
    /// Publish this phase and sleep before the next poll.
    Wait(AutoLandPhase),
    /// The job is over.
    End(AutoLandPhase),
}

/// The content of a poll's decision: whether the job ends, and its phase.
pub open spec fn step_view(s: Step) -> (bool, PhaseView) {
    match s {
        Step::Wait(p) => (false, p@),
        Step::End(p) => (true, p@),
    }
}

/// A transient failure counted against the budget: the job parks once
/// the consecutive failures reach the budget, otherwise it waits and
/// retries.
pub open spec fn transient_spec(max: u32, errors: u32, story: Seq<char>) -> (bool, PhaseView) {
    if errors >= max {
        (true, PhaseView::Failed {
            message: "Auto-land gave up after "@ + dec(errors as nat) + " straight failures \u{2014} the last one: "@ + story,
        })
    } else {
        (false, PhaseView::Waiting { attention: false, reasons: seq![story + " \u{2014} retrying on the next check"@] })
    }
}

/// `n + 1`, saturating.
fn bump(n: u32) -> (r: u32)
    ensures
        r == if n == u32::MAX { n } else { (n + 1) as u32 },
{
    if n == u32::MAX {
        n
    } else {
        n + 1
    }
}

/// Count a transient failure and decide (see [`transient_spec`]).
pub fn transient(config: &AutoLandConfig, errors: &mut u32, story: String) -> (r: Step)
    ensures
        *final(errors) == if *old(errors) == u32::MAX { *old(errors) } else { (*old(errors) + 1) as u32 },
        step_view(r) == transient_spec(config.max_consecutive_errors, *final(errors), story@),
{
    *errors = bump(*errors);
    if *errors >= config.max_consecutive_errors {
        let mut v = chars_of("Auto-land gave up after ");
        push_all(&mut v, &decimal(*errors as u64));
        push_str(&mut v, " straight failures \u{2014} the last one: ");
        push_str(&mut v, story.as_str());
        Step::End(AutoLandPhase::Failed { message: string_of(&v) })
    } else {
        let mut reasons: Vec<String> = Vec::new();
        reasons.push(cat2(story.as_str(), " \u{2014} retrying on the next check"));
        assert(str_views(reasons@) =~= seq![story@ + " \u{2014} retrying on the next check"@]);
        Step::Wait(AutoLandPhase::Waiting { attention: false, reasons })
    }
}

/// The round handed the merge to GitHub's automation instead of merging.
pub open spec fn hands_off_spec(plan: LandPlan) -> bool {
    exists|i: int|
        0 <= i < plan.actions@.len() && (#[trigger] plan.actions@[i] is EnableAutoMerge || plan.actions@[i] is EnqueuePr)
}

/// The round handed the merge to GitHub's automation instead of merging.
pub fn hands_off(plan: &LandPlan) -> (r: bool)
    ensures
        r == hands_off_spec(*plan),
{
    let mut i: usize = 0;
    while i < plan.actions.len()
        invariant
            i <= plan.actions@.len(),
            forall|q: int| 0 <= q < i ==> !(#[trigger] plan.actions@[q] is EnableAutoMerge || plan.actions@[q] is EnqueuePr),
        decreases plan.actions@.len() - i,
    {
        match &plan.actions[i] {
            LandAction::EnableAutoMerge { .. } | LandAction::EnqueuePr { .. } => return true,
            _ => {},
        }
        i += 1;
    }
    false
}

/// The executed round finished the whole stack: every segment either
/// already merged or landed in this round, and nothing was handed off.
pub open spec fn stack_completed_spec(plan: LandPlan) -> bool {
    !hands_off_spec(plan) && forall|i: int|
        0 <= i < plan.segments@.len() ==> (#[trigger] plan.segments@[i].status is Merged || plan.segments@[i].status is Landing)
}

/// Whether the executed round finished the whole stack.
pub fn stack_completed(plan: &LandPlan) -> (r: bool)
    ensures
        r == stack_completed_spec(*plan),
{
    if hands_off(plan) {
        return false;
    }
    let mut i: usize = 0;
    while i < plan.segments.len()
        invariant
            i <= plan.segments@.len(),
            forall|q: int| 0 <= q < i ==> (#[trigger] plan.segments@[q].status is Merged || plan.segments@[q].status is Landing),
        decreases plan.segments@.len() - i,
    {
        match &plan.segments[i].status {
            LandSegmentStatus::Merged { .. } | LandSegmentStatus::Landing => {},
            _ => return false,
        }
        i += 1;
    }
    true
}

/// The merged story with a PR recorded, unless a PR with its number is
/// already there.
pub open spec fn record_merge(
    v: Seq<(u64, Seq<char>, Seq<char>)>,
    number: u64,
    url: Seq<char>,
    bookmark: Seq<char>,
) -> Seq<(u64, Seq<char>, Seq<char>)> {
    if exists|i: int| 0 <= i < v.len() && #[trigger] v[i].0 == number {
        v
    } else {
        v.push((number, url, bookmark))
    }
}

/// `merged` with the PR added, unless a PR with its number is there.
pub open spec fn note_merged_spec(merged: Seq<AutoLandMerged>, number: u64, url: Seq<char>, bookmark: Seq<char>) -> Seq<(u64, Seq<char>, Seq<char>)> {
    record_merge(merged_views(merged), number, url, bookmark)
}

/// The content of the merged list.
pub open spec fn merged_views(merged: Seq<AutoLandMerged>) -> Seq<(u64, Seq<char>, Seq<char>)> {
    merged.map_values(|m: AutoLandMerged| (m.number, m.url@, m.bookmark@))
}

/// The merged story after recording the merges the first `k` placed
/// segments of a plan show.
pub open spec fn plan_merges(
    v: Seq<(u64, Seq<char>, Seq<char>)>,
    placed: Seq<crate::land::PlacedView>,
    k: int,
) -> Seq<(u64, Seq<char>, Seq<char>)>
    decreases k,
{
    if k <= 0 {
        v
    } else {
        let prior = plan_merges(v, placed, k - 1);
        match placed[k - 1].status {
            crate::land::StatusView::Merged { number, url } => record_merge(prior, number, url, placed[k - 1].bookmark),
            _ => prior,
        }
    }
}

/// Record a PR the job saw land, once.
pub fn note_merged(state: &mut AutoLandState, number: u64, url: &str, bookmark: &str)
    ensures
        merged_views(final(state).merged@) == note_merged_spec(old(state).merged@, number, url@, bookmark@),
        final(state).head_bookmark == old(state).head_bookmark,
        final(state).phase == old(state).phase,
        final(state).rounds == old(state).rounds,
        final(state).segments == old(state).segments,
        final(state).last_outcome == old(state).last_outcome,
{
    let mut i: usize = 0;
    while i < state.merged.len()
        invariant
            i <= state.merged@.len(),
            forall|q: int| 0 <= q < i ==> #[trigger] state.merged@[q].number != number,
        decreases state.merged@.len() - i,
    {
        if state.merged[i].number == number {
            assert(merged_views(state.merged@)[i as int].0 == number);
            return;
        }
        i += 1;
    }
    assert forall|q: int| 0 <= q < merged_views(state.merged@).len() implies #[trigger] merged_views(
        state.merged@,
    )[q].0 != number by {
        assert(merged_views(state.merged@)[q].0 == state.merged@[q].number);
    }
    let ghost before = state.merged@;
    state.merged.push(AutoLandMerged { number, url: crate::text::owned(url), bookmark: crate::text::owned(bookmark) });
    assert(merged_views(state.merged@) =~= merged_views(before).push((number, url@, bookmark@)));
}

/// The decision on a fresh plan before any round runs: blockers wait (with
/// attention when one needs the user), an empty plan waits quietly, and
/// anything else runs a round (`None`).
pub open spec fn plan_decision_spec(plan: LandPlan) -> Option<PhaseView> {
    if plan.blockers@.len() > 0 {
        Some(PhaseView::Waiting {
            attention: exists|i: int| 0 <= i < plan.blockers@.len() && !(#[trigger] plan.blockers@[i]).wait,
            reasons: plan.blockers@.map_values(|b: crate::land::LandBlocker| b.message@),
        })
    } else if plan.actions@.len() == 0 {
        Some(PhaseView::Waiting {
            attention: false,
            reasons: if plan.warnings@.len() == 0 {
                seq!["Nothing to run yet \u{2014} watching for the stack's conditions to change"@]
            } else {
                str_views(plan.warnings@)
            },
        })
    } else {
        None
    }
}

/// The decision on a fresh plan (see [`plan_decision_spec`]).
pub fn plan_decision(plan: &LandPlan) -> (r: Option<AutoLandPhase>)
    ensures
        match r {
            Some(p) => plan_decision_spec(*plan) == Some(p@),
            None => plan_decision_spec(*plan) is None,
        },
{
    if plan.blockers.len() > 0 {
        let mut attention = false;
        let mut reasons: Vec<String> = Vec::new();
        let mut i: usize = 0;
        while i < plan.blockers.len()
            invariant
                i <= plan.blockers@.len(),
                attention == exists|q: int| 0 <= q < i && !(#[trigger] plan.blockers@[q]).wait,
                str_views(reasons@) == plan.blockers@.take(i as int).map_values(|b: crate::land::LandBlocker| b.message@),
            decreases plan.blockers@.len() - i,
        {
            if !plan.blockers[i].wait {
                attention = true;
            }
            let ghost before = reasons@;
            reasons.push(plan.blockers[i].message.clone());
            assert(str_views(reasons@) =~= str_views(before).push(plan.blockers@[i as int].message@));
            assert(plan.blockers@.take(i + 1) =~= plan.blockers@.take(i as int).push(plan.blockers@[i as int]));
            i += 1;
        }
        assert(plan.blockers@.take(plan.blockers@.len() as int) =~= plan.blockers@);
        return Some(AutoLandPhase::Waiting { attention, reasons });
    }
    if plan.actions.len() == 0 {
        let reasons: Vec<String> = if plan.warnings.len() == 0 {
            let mut v: Vec<String> = Vec::new();
            v.push(crate::text::owned("Nothing to run yet \u{2014} watching for the stack's conditions to change"));
            assert(str_views(v@) =~= seq!["Nothing to run yet \u{2014} watching for the stack's conditions to change"@]);
            v
        } else {
            let mut v: Vec<String> = Vec::new();
            let mut i: usize = 0;
            while i < plan.warnings.len()
                invariant
                    i <= plan.warnings@.len(),
                    str_views(v@) == str_views(plan.warnings@.take(i as int)),
                decreases plan.warnings@.len() - i,
            {
                let ghost before = v@;
                v.push(plan.warnings[i].clone());
                assert(str_views(v@) =~= str_views(before).push(plan.warnings@[i as int]@));
                assert(plan.warnings@.take(i + 1) =~= plan.warnings@.take(i as int).push(plan.warnings@[i as int]));
                i += 1;
            }
            assert(plan.warnings@.take(plan.warnings@.len() as int) =~= plan.warnings@);
            v
        };
        return Some(AutoLandPhase::Waiting { attention: false, reasons });
    }
    None
}

/// The decision after an executed round. A failed round counts against the
/// budget and waits with attention (or parks once the budget is spent);
/// a finished stack is done; otherwise the job waits — for GitHub's
/// automation when the round handed off, or for the rebased stack's
/// checks.
pub open spec fn round_decision_spec(max: u32, errors: u32, failed: bool, story: Seq<char>, plan: LandPlan) -> (bool, PhaseView) {
    if failed {
        if errors >= max {
            (true, PhaseView::Failed {
                message: "Auto-land gave up after "@ + dec(errors as nat) + " rounds that could not finish \u{2014} the last stop: "@ + story,
            })
        } else {
            (false, PhaseView::Waiting { attention: true, reasons: seq![story + " \u{2014} retrying on the next check"@] })
        }
    } else if stack_completed_spec(plan) {
        (true, PhaseView::Done)
    } else if hands_off_spec(plan) {
        (false, PhaseView::Waiting { attention: false, reasons: seq!["GitHub is driving the merge now \u{2014} watching for it to finish"@] })
    } else {
        (false, PhaseView::Waiting {
            attention: false,
            reasons: seq!["Landed a round \u{2014} waiting for the rebased stack's checks before the next"@],
        })
    }
}

/// The decision after an executed round (see [`round_decision_spec`]).
/// `errors` is the consecutive-failure count after this round.
pub fn round_decision(config: &AutoLandConfig, errors: u32, failed: bool, story: &str, plan: &LandPlan) -> (r: Step)
    ensures
        step_view(r) == round_decision_spec(config.max_consecutive_errors, errors, failed, story@, *plan),
{
    if failed {
        if errors >= config.max_consecutive_errors {
            let mut v = chars_of("Auto-land gave up after ");
            push_all(&mut v, &decimal(errors as u64));
            push_str(&mut v, " rounds that could not finish \u{2014} the last stop: ");
            push_str(&mut v, story);
            return Step::End(AutoLandPhase::Failed { message: string_of(&v) });
        }
        let mut reasons: Vec<String> = Vec::new();
        reasons.push(cat2(story, " \u{2014} retrying on the next check"));
        assert(str_views(reasons@) =~= seq![story@ + " \u{2014} retrying on the next check"@]);
        return Step::Wait(AutoLandPhase::Waiting { attention: true, reasons });
    }
    if stack_completed(plan) {
        return Step::End(AutoLandPhase::Done);
    }
    let reason = if hands_off(plan) {
        crate::text::owned("GitHub is driving the merge now \u{2014} watching for it to finish")
    } else {
        crate::text::owned("Landed a round \u{2014} waiting for the rebased stack's checks before the next")
    };
    let mut reasons: Vec<String> = Vec::new();
    reasons.push(reason);
    assert(str_views(reasons@) =~= seq![reason@]);
    Step::Wait(AutoLandPhase::Waiting { attention: false, reasons })
}

/// `n + 1`, saturating at `u32::MAX`.
pub open spec fn bumped(n: u32) -> u32 {
    if n == u32::MAX {
        n
    } else {
        (n + 1) as u32
    }
}

/// Why the job parks when the open repository is no longer the one it was
/// queued in.
pub open spec fn repo_changed_msg(head: Seq<char>, pinned: Seq<char>) -> Seq<char> {
    "The open repository changed while auto-land was watching \u{201c}"@ + head + "\u{201d} in "@ + pinned
}

/// Why the job parks when its head bookmark vanished.
pub open spec fn bookmark_gone_msg(head: Seq<char>) -> Seq<char> {
    "\u{201c}"@ + head
        + "\u{201d} is no longer a bookmark here \u{2014} the stack moved or was cleaned up outside the job"@
}

/// The job state after taking in a fresh plan: the plan's segments, and
/// the merges it shows added to the story.
pub open spec fn recorded(before: AutoLandState, after: AutoLandState, plan: LandPlan) -> bool {
    &&& crate::land::placed_views(after.segments@) == crate::land::placed_views(plan.segments@)
    &&& merged_views(after.merged@) == plan_merges(
        merged_views(before.merged@),
        crate::land::placed_views(plan.segments@),
        plan.segments@.len() as int,
    )
}

/// What the first look at a poll's snapshot answer comes to (see
/// [`check_watch`]), from the failure count `e0` and pinned repository
/// `p0` before it to `e1` and `p1` after it.
pub open spec fn watch_told(
    max: u32,
    e0: u32,
    e1: u32,
    p0: Option<String>,
    p1: Option<String>,
    head: Seq<char>,
    answer: Result<RepoSnapshot, BackendError>,
    r: Result<RepoSnapshot, Step>,
) -> bool {
    match answer {
        Err(e) => {
            &&& p1 == p0
            &&& e1 == bumped(e0)
            &&& r matches Err(step) && step_view(step) == transient_spec(max, e1, backend_message(e))
        },
        Ok(snap) => {
            &&& e1 == e0
            &&& match p0 {
                Some(pin) => p1 == p0 && (if pin@ != snap.repo_path@ {
                    r matches Err(step) && step_view(step) == (
                        true,
                        PhaseView::Failed { message: repo_changed_msg(head, pin@) },
                    )
                } else {
                    watch_lookup(snap, head, r)
                }),
                None => p1 == Some(snap.repo_path) && watch_lookup(snap, head, r),
            }
        },
    }
}

/// What taking in a poll's plan answer comes to (see [`take_plan`]), from
/// the job state `st0` and failure count `e0` before it to `st1` and `e1`
/// after it.
pub open spec fn plan_taken(
    max: u32,
    st0: AutoLandState,
    st1: AutoLandState,
    e0: u32,
    e1: u32,
    answer: Result<LandPlan, ForgeError>,
    r: PollDecision,
) -> bool {
    &&& st1.head_bookmark == st0.head_bookmark
    &&& st1.phase == st0.phase
    &&& st1.rounds == st0.rounds
    &&& st1.last_outcome == st0.last_outcome
    &&& match answer {
        Err(e) => {
            &&& st1 == st0
            &&& e1 == bumped(e0)
            &&& r matches PollDecision::Decided(step) && step_view(step) == transient_spec(max, e1, error_message(e))
        },
        Ok(plan) => {
            &&& recorded(st0, st1, plan)
            &&& match plan_decision_spec(plan) {
                Some(phase) => e1 == 0 && (r matches PollDecision::Decided(Step::Wait(p)) && p@ == phase),
                None => e1 == e0 && r == PollDecision::Round(plan),
            }
        },
    }
}

/// What a poll comes to once its snapshot look gave `watched` (with the
/// failure count at `mid`): a decision of the look stands; a snapshot it
/// hands on is planned against the fresh open PRs, and the plan answer is
/// taken in.
pub open spec fn poll_after_watch<F: LandForge>(
    forge: &F,
    max: u32,
    repo: ForgeRepo,
    fresh: RepoPrState,
    st0: AutoLandState,
    st1: AutoLandState,
    mid: u32,
    e1: u32,
    watched: Result<RepoSnapshot, Step>,
    r: PollDecision,
) -> bool {
    match watched {
        Err(step) => st1 == st0 && e1 == mid && r == PollDecision::Decided(step),
        Ok(snap) => exists|planned: Result<LandPlan, ForgeError>|
            #[trigger] plan_land_told(forge, snap, fresh, repo, st0.head_bookmark@, planned) && plan_taken(
                max,
                st0,
                st1,
                mid,
                e1,
                planned,
                r,
            ),
    }
}

/// What the first half of a poll comes to, request by request: the open
/// PRs are asked first (a failure counts against the budget); then the
/// latest snapshot, which [`watch_told`] judges; then a plan from that
/// snapshot and the fresh PRs, which [`plan_taken`] takes in.
pub open spec fn poll_told<V: LandVcs, F: LandForge, P: AutoLandPrs>(
    vcs: &V,
    forge: &F,
    prs: &P,
    max: u32,
    repo: ForgeRepo,
    st0: AutoLandState,
    st1: AutoLandState,
    e0: u32,
    e1: u32,
    p0: Option<String>,
    p1: Option<String>,
    r: PollDecision,
) -> bool {
    exists|opened: Result<RepoPrState, ForgeError>| #[trigger] prs.open_answer(opened) && match opened {
        Err(e) => e1 == bumped(e0) && st1 == st0 && p1 == p0 && (r matches PollDecision::Decided(step)
            && step_view(step) == transient_spec(max, e1, error_message(e))),
        Ok(fresh) => exists|read: Result<RepoSnapshot, BackendError>, mid: u32, watched: Result<RepoSnapshot, Step>|
            vcs.snapshot_answer(read) && #[trigger] watch_told(max, e0, mid, p0, p1, st0.head_bookmark@, read, watched)
                && poll_after_watch(forge, max, repo, fresh, st0, st1, mid, e1, watched, r),
    }
}

/// What the first half of a poll decided.
pub enum PollDecision {
    /// The poll is over with this decision.
    Decided(Step),
    /// Run this plan as a round (the host publishes the `Round` phase
    /// first), then judge it with [`poll_finish`].
    Round(LandPlan),
}

/// The first half of one poll: gather fresh facts, re-derive the plan,
/// and either decide or hand back the round to run. Transient failures
/// (network flakes, GitHub hiccups, a locked repo) count against the
/// budget; the job never acts on a different repo than the one it was
/// queued for, nor after its head bookmark vanished.
pub fn poll_prepare<V: LandVcs, F: LandForge, P: AutoLandPrs>(
    repo: &ForgeRepo,
    vcs: &V,
    forge: &F,
    prs: &P,
    config: &AutoLandConfig,
    state: &mut AutoLandState,
    consecutive_errors: &mut u32,
    repo_path: &mut Option<String>,
) -> (r: PollDecision)
    ensures
        *old(repo_path) is Some ==> *final(repo_path) == *old(repo_path),
        final(state).head_bookmark == old(state).head_bookmark,
        final(state).phase == old(state).phase,
        final(state).rounds == old(state).rounds,
        final(state).last_outcome == old(state).last_outcome,
        poll_told(
            vcs,
            forge,
            prs,
            config.max_consecutive_errors,
            *repo,
            *old(state),
            *final(state),
            *old(consecutive_errors),
            *final(consecutive_errors),
            *old(repo_path),
            *final(repo_path),
            r,
        ),
{
    let opened = prs.open_prs();
    let ghost opened_seen = opened;
    let pr_state = match opened {
        Ok(p) => p,
        Err(e) => {
            let r = PollDecision::Decided(transient(config, consecutive_errors, e.message()));
            assert(prs.open_answer(opened_seen));
            return r;
        },
    };
    let snap_answer = vcs.snapshot();
    let ghost read_seen = snap_answer;
    let ghost e0 = *consecutive_errors;
    let ghost p0 = *repo_path;
    let watched = check_watch(config, consecutive_errors, repo_path, state.head_bookmark.as_str(), snap_answer);
    let ghost watched_seen = watched;
    let ghost mid = *consecutive_errors;
    assert(watch_told(config.max_consecutive_errors, e0, mid, p0, *repo_path, old(state).head_bookmark@, read_seen, watched_seen));
    let snapshot = match watched {
        Ok(s) => s,
        Err(step) => {
            let r = PollDecision::Decided(step);
            assert(poll_after_watch(forge, config.max_consecutive_errors, *repo, pr_state, *old(state), *state, mid, *consecutive_errors, watched_seen, r));
            assert(vcs.snapshot_answer(read_seen));
            assert(prs.open_answer(opened_seen));
            return r;
        },
    };
    let plan_answer = plan_land(&snapshot, &pr_state, repo, state.head_bookmark.as_str(), forge);
    let ghost planned = plan_answer;
    let r = take_plan(config, consecutive_errors, state, plan_answer);
    assert(plan_taken(config.max_consecutive_errors, *old(state), *state, mid, *consecutive_errors, planned, r));
    assert(plan_land_told(forge, snapshot, pr_state, *repo, old(state).head_bookmark@, planned));
    assert(poll_after_watch(forge, config.max_consecutive_errors, *repo, pr_state, *old(state), *state, mid, *consecutive_errors, watched_seen, r));
    assert(vcs.snapshot_answer(read_seen));
    assert(prs.open_answer(opened_seen));
    r
}

/// The first verdict on a poll's snapshot answer: a failed read counts
/// against the budget (see [`transient_spec`]); a snapshot of another
/// repository than the pinned one, or one without the head bookmark, parks
/// the job; otherwise the snapshot is handed on, and the repository is
/// pinned on the first look.
pub fn check_watch(
    config: &AutoLandConfig,
    consecutive_errors: &mut u32,
    repo_path: &mut Option<String>,
    head: &str,
    answer: Result<RepoSnapshot, BackendError>,
) -> (r: Result<RepoSnapshot, Step>)
    ensures
        watch_told(
            config.max_consecutive_errors,
            *old(consecutive_errors),
            *final(consecutive_errors),
            *old(repo_path),
            *final(repo_path),
            head@,
            answer,
            r,
        ),
{
    let snapshot = match answer {
        Ok(s) => s,
        Err(e) => return Err(transient(config, consecutive_errors, e.message())),
    };
    match repo_path {
        Some(pinned) => {
            if !str_eq(pinned.as_str(), snapshot.repo_path.as_str()) {
                let m = cat4("The open repository changed while auto-land was watching \u{201c}", head, "\u{201d} in ", pinned.as_str());
                return Err(Step::End(AutoLandPhase::Failed { message: m }));
            }
        },
        None => {
            *repo_path = Some(snapshot.repo_path.clone());
        },
    }
    if find_bookmark(&snapshot.bookmarks, head, true).is_none() {
        let m = cat3("\u{201c}", head, "\u{201d} is no longer a bookmark here \u{2014} the stack moved or was cleaned up outside the job");
        return Err(Step::End(AutoLandPhase::Failed { message: m }));
    }
    Ok(snapshot)
}

/// A snapshot that still holds the head bookmark is handed on; one that
/// lost it parks the job.
pub open spec fn watch_lookup(snap: RepoSnapshot, head: Seq<char>, r: Result<RepoSnapshot, Step>) -> bool {
    if bookmark_index(snap.bookmarks@, head, true) is None {
        r matches Err(step) && step_view(step) == (true, PhaseView::Failed { message: bookmark_gone_msg(head) })
    } else {
        r == Ok::<RepoSnapshot, Step>(snap)
    }
}

/// The verdict on a poll's plan answer: a failed plan counts against the
/// budget; a fresh plan is taken in (see [`recorded`]) and either decides
/// the wait (see [`plan_decision_spec`], which clears the budget) or is
/// handed on as the round to run.
pub fn take_plan(
    config: &AutoLandConfig,
    consecutive_errors: &mut u32,
    state: &mut AutoLandState,
    answer: Result<LandPlan, ForgeError>,
) -> (r: PollDecision)
    ensures
        plan_taken(
            config.max_consecutive_errors,
            *old(state),
            *final(state),
            *old(consecutive_errors),
            *final(consecutive_errors),
            answer,
            r,
        ),
{
    let plan = match answer {
        Ok(p) => p,
        Err(e) => return PollDecision::Decided(transient(config, consecutive_errors, e.message())),
    };
    state.segments = copy_segments(&plan.segments);
    let ghost pv = crate::land::placed_views(plan.segments@);
    let mut i: usize = 0;
    while i < plan.segments.len()
        invariant
            i <= plan.segments@.len(),
            pv == crate::land::placed_views(plan.segments@),
            state.head_bookmark == old(state).head_bookmark,
            state.phase == old(state).phase,
            state.rounds == old(state).rounds,
            state.last_outcome == old(state).last_outcome,
            crate::land::placed_views(state.segments@) == pv,
            merged_views(state.merged@) == plan_merges(merged_views(old(state).merged@), pv, i as int),
        decreases plan.segments@.len() - i,
    {
        assert(pv[i as int] == plan.segments@[i as int]@);
        match &plan.segments[i].status {
            LandSegmentStatus::Merged { number, url } => {
                note_merged(state, *number, url.as_str(), plan.segments[i].bookmark.as_str());
            },
            _ => {},
        }
        i += 1;
    }
    match plan_decision(&plan) {
        Some(phase) => {
            *consecutive_errors = 0;
            PollDecision::Decided(Step::Wait(phase))
        },
        None => PollDecision::Round(plan),
    }
}

/// The link a merged segment is remembered by: the PR of the first plan
/// segment (from `s` on) under that bookmark, or nothing.
pub open spec fn segment_url(placed: Seq<crate::land::PlacedView>, bookmark: Seq<char>, s: int) -> Seq<char>
    decreases placed.len() - s,
{
    if s < 0 || s >= placed.len() {
        Seq::empty()
    } else if placed[s].bookmark == bookmark {
        match placed[s].pr {
            Some(p) => p.url@,
            None => Seq::empty(),
        }
    } else {
        segment_url(placed, bookmark, s + 1)
    }
}

/// The merged story after recording the merges the first `k` steps of a
/// round made.
pub open spec fn round_merges(
    v: Seq<(u64, Seq<char>, Seq<char>)>,
    steps: Seq<crate::land::LandStep>,
    placed: Seq<crate::land::PlacedView>,
    k: int,
) -> Seq<(u64, Seq<char>, Seq<char>)>
    decreases k,
{
    if k <= 0 {
        v
    } else {
        let prior = round_merges(v, steps, placed, k - 1);
        if steps[k - 1].status == SubmitStepStatus::Done {
            match steps[k - 1].action {
                LandAction::MergePr { number, bookmark, .. } => record_merge(
                    prior,
                    number,
                    segment_url(placed, bookmark@, 0),
                    bookmark@,
                ),
                _ => prior,
            }
        } else {
            prior
        }
    }
}

/// The story of a failed round: the detail of its first failed step, or a
/// plain default when that step has none (or none failed).
pub open spec fn failure_story(steps: Seq<crate::land::LandStep>) -> Seq<char>
    decreases steps.len(),
{
    if steps.len() == 0 {
        "a landing step failed"@
    } else if steps[0].status == SubmitStepStatus::Failed {
        match steps[0].detail {
            Some(d) => d@,
            None => "a landing step failed"@,
        }
    } else {
        failure_story(steps.drop_first())
    }
}

/// The second half of a poll: run the round exactly as the manual Land
/// button does, record the merges it made, and judge it (see
/// [`round_decision_spec`]). A refused plan counts as a transient failure.
pub fn poll_finish<V: LandVcs, F: LandForge>(
    plan: &LandPlan,
    vcs: &V,
    forge: &F,
    config: &AutoLandConfig,
    state: &mut AutoLandState,
    consecutive_errors: &mut u32,
) -> (r: Step)
    ensures
        final(state).head_bookmark == old(state).head_bookmark,
        final(state).phase == old(state).phase,
        final(state).segments == old(state).segments,
        plan.blockers@.len() > 0 ==> {
            &&& *final(consecutive_errors) == bumped(*old(consecutive_errors))
            &&& step_view(r) == transient_spec(
                config.max_consecutive_errors,
                *final(consecutive_errors),
                "Cannot land this stack: "@ + crate::submit::blocked_msg(crate::land::blocker_messages(plan.blockers@)),
            )
            &&& final(state).rounds == old(state).rounds
        },
        plan.blockers@.len() == 0 ==> {
            &&& final(state).rounds == bumped(old(state).rounds)
            &&& final(state).last_outcome matches Some(out) && {
                &&& out.steps@.len() == plan.actions@.len()
                &&& forall|i: int| 0 <= i < out.steps@.len() ==> (#[trigger] out.steps@[i]).action@ == plan.actions@[i]@
                &&& crate::land::run_shape(crate::land::land_statuses(out.steps@))
                &&& out.failed == exists|i: int|
                    0 <= i < out.steps@.len() && #[trigger] out.steps@[i].status == SubmitStepStatus::Failed
                &&& merged_views(final(state).merged@) == round_merges(
                    merged_views(old(state).merged@),
                    out.steps@,
                    crate::land::placed_views(plan.segments@),
                    out.steps@.len() as int,
                )
                &&& *final(consecutive_errors) == if out.failed {
                    bumped(*old(consecutive_errors))
                } else {
                    0
                }
                &&& step_view(r) == round_decision_spec(
                    config.max_consecutive_errors,
                    *final(consecutive_errors),
                    out.failed,
                    failure_story(out.steps@),
                    *plan,
                )
            }
        },
{
    let outcome = match execute_land(plan, vcs, forge) {
        Ok(o) => o,
        Err(e) => return transient(config, consecutive_errors, e.message()),
    };
    state.rounds = bump(state.rounds);
    let ghost pv = crate::land::placed_views(plan.segments@);
    let mut i: usize = 0;
    while i < outcome.steps.len()
        invariant
            i <= outcome.steps@.len(),
            pv == crate::land::placed_views(plan.segments@),
            state.rounds == bumped(old(state).rounds),
            state.head_bookmark == old(state).head_bookmark,
            state.phase == old(state).phase,
            state.segments == old(state).segments,
            merged_views(state.merged@) == round_merges(merged_views(old(state).merged@), outcome.steps@, pv, i as int),
        decreases outcome.steps@.len() - i,
    {
        let step = &outcome.steps[i];
        if step.status == SubmitStepStatus::Done {
            match &step.action {
                LandAction::MergePr { number, bookmark, .. } => {
                    let mut url = String::new();
                    let mut s: usize = 0;
                    assert(url@ =~= Seq::<char>::empty());
                    while s < plan.segments.len()
                        invariant_except_break
                            url@ == Seq::<char>::empty(),
                        invariant
                            s <= plan.segments@.len(),
                            pv == crate::land::placed_views(plan.segments@),
                            segment_url(pv, bookmark@, s as int) == segment_url(pv, bookmark@, 0),
                        ensures
                            url@ == segment_url(pv, bookmark@, 0),
                        decreases plan.segments@.len() - s,
                    {
                        assert(pv[s as int] == plan.segments@[s as int]@);
                        if str_eq(plan.segments[s].bookmark.as_str(), bookmark.as_str()) {
                            match &plan.segments[s].pr {
                                Some(pr) => url = pr.url.clone(),
                                None => {},
                            }
                            break;
                        }
                        s += 1;
                    }
                    note_merged(state, *number, url.as_str(), bookmark.as_str());
                },
                _ => {},
            }
        }
        i += 1;
    }
    let mut story = crate::text::owned("a landing step failed");
    let mut k: usize = 0;
    assert(outcome.steps@.skip(0) =~= outcome.steps@);
    while k < outcome.steps.len()
        invariant_except_break
            story@ == "a landing step failed"@,
        invariant
            k <= outcome.steps@.len(),
            failure_story(outcome.steps@.skip(k as int)) == failure_story(outcome.steps@),
        ensures
            story@ == failure_story(outcome.steps@),
        decreases outcome.steps@.len() - k,
    {
        assert(outcome.steps@.skip(k as int)[0] == outcome.steps@[k as int]);
        if outcome.steps[k].status == SubmitStepStatus::Failed {
            match &outcome.steps[k].detail {
                Some(d) => story = d.clone(),
                None => {},
            }
            break;
        }
        assert(outcome.steps@.skip(k as int).drop_first() =~= outcome.steps@.skip(k + 1));
        k += 1;
    }
    let failed = outcome.failed;
    state.last_outcome = Some(outcome);
    if failed {
        *consecutive_errors = bump(*consecutive_errors);
    } else {
        *consecutive_errors = 0;
    }
    round_decision(config, *consecutive_errors, failed, story.as_str(), plan)
}


// ---------------------------------------------------------------------
// Hosting one job
// ---------------------------------------------------------------------

/// Done, failed and stopped jobs are over.
pub open spec fn terminal(p: AutoLandPhase) -> bool {
    p is Done || p is Failed || p is Stopped
}

/// A surviving record continues the job only for the same repository and
/// the same stack, and only while it is not over.
pub open spec fn resumes(prior: Option<AutoLandRecord>, repo_path: Seq<char>, head_bookmark: Seq<char>) -> bool {
    match prior {
        Some(rec) => rec.repo_path@ == repo_path && rec.state.head_bookmark@ == head_bookmark && !terminal(
            rec.state.phase,
        ),
        None => false,
    }
}

/// The state a (re)queued job starts from: a matching surviving record
/// carries its story over, sizing up afresh; anything else is superseded
/// by a fresh job — a restart survivor's Resume and a plain re-queue of
/// the same stack are the same path.
pub fn initial_job_state(prior: Option<AutoLandRecord>, repo_path: &str, head_bookmark: &str) -> (r: AutoLandState)
    ensures
        r.phase@ == sizing_up(),
        resumes(prior, repo_path@, head_bookmark@) ==> ({
            let old = prior->0.state;
            &&& r.head_bookmark == old.head_bookmark
            &&& r.rounds == old.rounds
            &&& r.merged == old.merged
            &&& r.segments == old.segments
            &&& r.last_outcome == old.last_outcome
        }),
        !resumes(prior, repo_path@, head_bookmark@) ==> ({
            &&& r.head_bookmark@ == head_bookmark@
            &&& r.rounds == 0
            &&& r.merged@.len() == 0
            &&& r.segments@.len() == 0
            &&& r.last_outcome is None
        }),
{
    match prior {
        Some(rec) => {
            if str_eq(rec.repo_path.as_str(), repo_path) && str_eq(rec.state.head_bookmark.as_str(), head_bookmark)
                && !rec.state.phase.is_terminal() {
                AutoLandState::resumed(rec.state)
            } else {
                AutoLandState::queued(head_bookmark)
            }
        },
        None => AutoLandState::queued(head_bookmark),
    }
}

/// The refusal of a second job while one is running; `running` is the
/// running job's stack.
pub fn already_running(running: Option<&AutoLandRecord>) -> (r: CommandError)
    ensures
        r.code@ == "autoland_running"@,
        r.message@ == "An auto-land job for \u{201c}"@ + match running {
            Some(rec) => rec.state.head_bookmark@,
            None => Seq::<char>::empty(),
        } + "\u{201d} is already running \u{2014} stop it before queueing another stack"@,
{
    let head: &str = match running {
        Some(rec) => rec.state.head_bookmark.as_str(),
        None => "",
    };
    proof {
        reveal_strlit("");
    }
    let m = cat3(
        "An auto-land job for \u{201c}",
        head,
        "\u{201d} is already running \u{2014} stop it before queueing another stack",
    );
    CommandError::new("autoland_running", m)
}

/// The record as a surface sees it: `live` while a thread drives a job
/// that is not over. A non-terminal record with no thread — a restart
/// survivor, or a job whose thread died — is the "interrupted" state.
pub fn job_status(record: Option<AutoLandRecord>, alive: bool) -> (r: Option<AutoLandStatus>)
    ensures
        match record {
            Some(rec) => r == Some(AutoLandStatus { record: rec, live: !terminal(rec.state.phase) && alive }),
            None => r is None,
        },
{
    match record {
        Some(rec) => {
            let live = !rec.state.phase.is_terminal() && alive;
            Some(AutoLandStatus { record: rec, live })
        },
        None => None,
    }
}

/// A record may be dismissed once it is over or no thread drives it; a
/// running job has to be stopped first.
pub fn dismiss_check(record: Option<&AutoLandRecord>, alive: bool) -> (r: Result<(), CommandError>)
    ensures
        match record {
            Some(rec) => (terminal(rec.state.phase) || !alive) <==> r is Ok,
            None => r is Ok,
        },
        r matches Err(e) ==> e.code@ == "autoland_running"@ && e.message@
            == "The auto-land job is still running \u{2014} stop it before dismissing"@,
{
    let dismissable = match record {
        Some(rec) => rec.state.phase.is_terminal() || !alive,
        None => true,
    };
    if dismissable {
        Ok(())
    } else {
        Err(CommandError::new("autoland_running", crate::text::owned("The auto-land job is still running \u{2014} stop it before dismissing")))
    }
}

} // verus!
