//! The land engine: recognize what already merged, merge the bottom PR
//! when it is ready, then reconcile the local stack — a bottom-up merge →
//! fetch → reconcile loop as an explicit plan → confirm → execute flow.
//!
//! `plan_land` derives everything the run will do before anything runs —
//! the merge (or the hand-off to GitHub's own automation), the fetch that
//! brings the new trunk home, the descendant rebases, the batched push of
//! the rebased stack, the base retarget of the next PR, and the cleanup of
//! the landed bookmark and its now-redundant local changes.
//! `execute_land` walks that plan, re-checking GitHub just-in-time before
//! the merge and adapting the cleanup steps to what the refreshed snapshot
//! actually shows. Landing is deliberately one merge round per run.

use vstd::prelude::*;

use crate::codec::{as_bool, as_str, as_u64, element, member, Json};
use crate::error::{backend_message, error_message, BackendError, ForgeError};
use crate::pr::{
    checks_from, checks_of, clone_opt_pr, debug_opt, debug_opt_str, malformed, malformed_msg,
    pr_state_from, pr_state_of, review_from, review_of, rollup_state, str_member, ChecksRollup,
    PrState, PrSummary, RepoPrState, ReviewDecision,
};
use crate::remote::ForgeRepo;
use crate::snapshot::{
    bookmark_index, find_bookmark, find_node, lemma_bookmark_index, lemma_node_index, node_index,
    BookmarkState, GraphNode, NodeKind, RepoSnapshot, SyncState,
};
use crate::submit::{
    ints, join_sep, raw_view, raw_views, stack_error, stack_segments, stack_segs, str_views, RawSegment,
    SubmitStepStatus,
};
use crate::text::{
    cat2, cat3, cat4, cat5, cat6, chars_eq, chars_of, dec, decimal, push_all, push_str, str_eq,
    string_of,
};

verus! {

/// How a PR merges into its base. When several are allowed the plan
/// prefers squash, then rebase, then a merge commit.
#[derive(Debug, Clone, Copy, PartialEq, Eq, Structural)]
pub enum MergeMethod {
    Squash,
    Rebase,
    Merge,
}

impl MergeMethod {
    /// The REST API's name for the method.
    pub fn rest_name(self) -> (r: &'static str)
        ensures
            r@ == match self {
                MergeMethod::Squash => "squash"@,
                MergeMethod::Rebase => "rebase"@,
                MergeMethod::Merge => "merge"@,
            },
    {
        match self {
            MergeMethod::Squash => "squash",
            MergeMethod::Rebase => "rebase",
            MergeMethod::Merge => "merge",
        }
    }

    /// The GraphQL API's name for the method.
    pub fn graphql_name(self) -> (r: &'static str)
        ensures
            r@ == match self {
                MergeMethod::Squash => "SQUASH"@,
                MergeMethod::Rebase => "REBASE"@,
                MergeMethod::Merge => "MERGE"@,
            },
    {
        match self {
            MergeMethod::Squash => "SQUASH",
            MergeMethod::Rebase => "REBASE",
            MergeMethod::Merge => "MERGE",
        }
    }
}

/// GitHub's per-PR mergeability: whether the PR applies cleanly to its
/// base. `Unknown` means GitHub is still computing it.
#[derive(Debug, Clone, Copy, PartialEq, Eq, Structural)]
pub enum Mergeable {
    Mergeable,
    Conflicting,
    Unknown,
}

/// One PR's land readiness plus the repo's landing capabilities, asked for
/// the landing candidate only.
#[derive(Debug, Clone, PartialEq, Eq)]
pub struct PrLandState {
    /// GraphQL node id — what the auto-merge and enqueue mutations take.
    pub node_id: String,
    pub state: PrState,
    pub is_draft: bool,
    pub mergeable: Mergeable,
    pub review: ReviewDecision,
    pub checks: ChecksRollup,
    pub base_branch: String,
    pub head_commit: String,
    /// Auto-merge is already enabled on this PR.
    pub auto_merge_enabled: bool,
    pub in_merge_queue: bool,
    /// The repo allows enabling auto-merge at all.
    pub auto_merge_allowed: bool,
    /// The queried base branch is protected by a merge queue.
    pub queue_on_base: bool,
    pub allows_squash: bool,
    pub allows_merge: bool,
    pub allows_rebase: bool,
}

// ---------------------------------------------------------------------
// Reading GitHub's answer
// ---------------------------------------------------------------------

/// The land-state answer for PR `number`, or the message of its error.
pub open spec fn land_state_spec(data: Json, number: u64) -> Result<PrLandState, Seq<char>> {
    let repo = member(data, "repository"@);
    let pr = member(repo, "pullRequest"@);
    let ns = "pull request #"@ + dec(number as nat);
    if repo is Null {
        Err("Not found on GitHub: the repository is not visible to this token"@)
    } else if pr is Null {
        Err("Not found on GitHub: "@ + ns + " was not found"@)
    } else {
        let st = as_str(member(pr, "state"@));
        match pr_state_of(st) {
            None => Err(malformed_msg(ns + " has unexpected state "@ + debug_opt(st))),
            Some(state) => match (str_member(pr, "id"@), str_member(pr, "baseRefName"@), str_member(pr, "headRefOid"@)) {
                (None, _, _) => Err(malformed_msg(ns + " missing id"@)),
                (_, None, _) => Err(malformed_msg(ns + " missing baseRefName"@)),
                (_, _, None) => Err(malformed_msg(ns + " missing headRefOid"@)),
                (Some(node_id), Some(base_branch), Some(head_commit)) => Ok(PrLandState {
                    node_id,
                    state,
                    is_draft: bool_or(member(pr, "isDraft"@), false),
                    mergeable: mergeable_of(as_str(member(pr, "mergeable"@))),
                    review: review_of(as_str(member(pr, "reviewDecision"@))),
                    checks: checks_of(rollup_state(pr)),
                    base_branch,
                    head_commit,
                    auto_merge_enabled: !(member(pr, "autoMergeRequest"@) is Null),
                    in_merge_queue: bool_or(member(pr, "isInMergeQueue"@), false),
                    auto_merge_allowed: bool_or(member(repo, "autoMergeAllowed"@), false),
                    queue_on_base: !(member(repo, "mergeQueue"@) is Null),
                    allows_squash: bool_or(member(repo, "squashMergeAllowed"@), true),
                    allows_merge: bool_or(member(repo, "mergeCommitAllowed"@), true),
                    allows_rebase: bool_or(member(repo, "rebaseMergeAllowed"@), true),
                }),
            },
        }
    }
}

/// `as_bool().unwrap_or(default)`.
pub open spec fn bool_or(j: Json, default: bool) -> bool {
    match as_bool(j) {
        Some(b) => b,
        None => default,
    }
}

/// Mergeability as GitHub spells it; anything else is still computing.
pub open spec fn mergeable_of(s: Option<Seq<char>>) -> Mergeable {
    if s == Some("MERGEABLE"@) {
        Mergeable::Mergeable
    } else if s == Some("CONFLICTING"@) {
        Mergeable::Conflicting
    } else {
        Mergeable::Unknown
    }
}

fn bool_or_exec(j: &Json, default: bool) -> (r: bool)
    ensures
        r == bool_or(*j, default),
{
    match j.bool_value() {
        Some(b) => b,
        None => default,
    }
}

fn mergeable_from(j: &Json) -> (r: Mergeable)
    ensures
        r == mergeable_of(as_str(*j)),
{
    match j.str_value() {
        Some(s) => if str_eq(s, "MERGEABLE") {
            Mergeable::Mergeable
        } else if str_eq(s, "CONFLICTING") {
            Mergeable::Conflicting
        } else {
            Mergeable::Unknown
        },
        None => Mergeable::Unknown,
    }
}

/// `"pull request #<number>" + rest`.
fn pr_text(number: u64, rest: &str) -> (r: String)
    ensures
        r@ == "pull request #"@ + dec(number as nat) + rest@,
{
    let mut v = chars_of("pull request #");
    push_all(&mut v, &decimal(number));
    push_str(&mut v, rest);
    string_of(&v)
}

/// Reshape the land-state answer for PR `number`.
pub fn parse_pr_land_state(data: &Json, number: u64) -> (r: Result<PrLandState, ForgeError>)
    ensures
        match r {
            Ok(s) => land_state_spec(*data, number) == Ok::<PrLandState, Seq<char>>(s),
            Err(e) => land_state_spec(*data, number) == Err::<PrLandState, Seq<char>>(error_message(e)),
        },
{
    let repo = data.get("repository");
    if repo.is_null() {
        let m = crate::text::owned("the repository is not visible to this token");
        proof {
            reveal_strlit("Not found on GitHub: ");
            reveal_strlit("the repository is not visible to this token");
            reveal_strlit("Not found on GitHub: the repository is not visible to this token");
            assert("Not found on GitHub: "@ + m@ =~= "Not found on GitHub: the repository is not visible to this token"@);
        }
        return Err(ForgeError::NotFound(m));
    }
    let pr = repo.get("pullRequest");
    if pr.is_null() {
        let m = pr_text(number, " was not found");
        assert("Not found on GitHub: "@ + m@ =~= "Not found on GitHub: "@ + ("pull request #"@ + dec(number as nat)) + " was not found"@);
        return Err(ForgeError::NotFound(m));
    }
    let st = pr.get("state");
    let state = match pr_state_from(st) {
        Some(s) => s,
        None => {
            let mut v = chars_of(pr_text(number, " has unexpected state ").as_str());
            push_str(&mut v, debug_opt_str(st.str_value()).as_str());
            let what = string_of(&v);
            return Err(malformed(what.as_str()));
        },
    };
    let node_id = match pr.get("id") {
        Json::Str(s) => s.clone(),
        _ => return Err(malformed(pr_text(number, " missing id").as_str())),
    };
    let base_branch = match pr.get("baseRefName") {
        Json::Str(s) => s.clone(),
        _ => return Err(malformed(pr_text(number, " missing baseRefName").as_str())),
    };
    let head_commit = match pr.get("headRefOid") {
        Json::Str(s) => s.clone(),
        _ => return Err(malformed(pr_text(number, " missing headRefOid").as_str())),
    };
    Ok(
        PrLandState {
            node_id,
            state,
            is_draft: bool_or_exec(pr.get("isDraft"), false),
            mergeable: mergeable_from(pr.get("mergeable")),
            review: review_from(pr.get("reviewDecision")),
            checks: checks_from(pr),
            base_branch,
            head_commit,
            auto_merge_enabled: !pr.get("autoMergeRequest").is_null(),
            in_merge_queue: bool_or_exec(pr.get("isInMergeQueue"), false),
            auto_merge_allowed: bool_or_exec(repo.get("autoMergeAllowed"), false),
            queue_on_base: !repo.get("mergeQueue").is_null(),
            allows_squash: bool_or_exec(repo.get("squashMergeAllowed"), true),
            allows_merge: bool_or_exec(repo.get("mergeCommitAllowed"), true),
            allows_rebase: bool_or_exec(repo.get("rebaseMergeAllowed"), true),
        },
    )
}

// ---------------------------------------------------------------------
// Readiness
// ---------------------------------------------------------------------

/// One reason a land plan cannot act. `wait` says whether waiting alone
/// can clear it: true for remote conditions that settle by themselves,
/// false when the user has to act first.
#[derive(Debug, Clone, PartialEq, Eq)]
pub struct LandBlocker {
    pub message: String,
    pub wait: bool,
}

impl LandBlocker {
    /// A blocker only the user can clear.
    pub fn needs_user(message: String) -> (r: LandBlocker)
        ensures
            r.message == message,
            !r.wait,
    {
        LandBlocker { message, wait: false }
    }

    /// A blocker that clears by waiting.
    pub fn transient(message: String) -> (r: LandBlocker)
        ensures
            r.message == message,
            r.wait,
    {
        LandBlocker { message, wait: true }
    }

    /// A copy with the same content.
    pub fn duplicate(&self) -> (r: LandBlocker)
        ensures
            r == *self,
    {
        LandBlocker { message: self.message.clone(), wait: self.wait }
    }
}

/// The content of a blocker: its message and whether waiting clears it.
pub open spec fn blocker_view(b: LandBlocker) -> (Seq<char>, bool) {
    (b.message@, b.wait)
}

/// The contents of a list of blockers.
pub open spec fn blocker_views(v: Seq<LandBlocker>) -> Seq<(Seq<char>, bool)> {
    v.map_values(|b: LandBlocker| blocker_view(b))
}

/// How the landing candidate reads right now — shared by plan (to shape
/// the actions) and execute (the just-in-time re-check before merging).
#[derive(Debug, Clone, PartialEq, Eq)]
pub enum Readiness {
    /// Mergeable right now.
    Ready,
    /// Merged since the state was last read.
    AlreadyMerged,
    /// GitHub's automation is already driving this PR.
    AutomationRunning(String),
    /// Waiting only on conditions GitHub automates on.
    WaitingOnAutomatable(Vec<String>),
    /// Cannot land right now; each blocker says whether waiting can clear
    /// it on its own.
    Blocked(Vec<LandBlocker>),
}

/// The content of a [`Readiness`].
pub ghost enum ReadinessView {
    Ready,
    AlreadyMerged,
    AutomationRunning(Seq<char>),
    WaitingOnAutomatable(Seq<Seq<char>>),
    Blocked(Seq<(Seq<char>, bool)>),
}

impl View for Readiness {
    type V = ReadinessView;

    open spec fn view(&self) -> ReadinessView {
        match self {
            Readiness::Ready => ReadinessView::Ready,
            Readiness::AlreadyMerged => ReadinessView::AlreadyMerged,
            Readiness::AutomationRunning(s) => ReadinessView::AutomationRunning(s@),
            Readiness::WaitingOnAutomatable(w) => ReadinessView::WaitingOnAutomatable(str_views(w@)),
            Readiness::Blocked(b) => ReadinessView::Blocked(blocker_views(b@)),
        }
    }
}

/// `"#<number>"`.
pub open spec fn hash_num(n: u64) -> Seq<char> {
    "#"@ + dec(n as nat)
}

/// `“name”`.
pub open spec fn quoted(name: Seq<char>) -> Seq<char> {
    "\u{201c}"@ + name + "\u{201d}"@
}

/// What blocks an open candidate that no automation drives, in order.
pub open spec fn candidate_blockers(n: u64, land: PrLandState, trunk: Seq<char>) -> Seq<(Seq<char>, bool)> {
    let ns = hash_num(n);
    (if land.is_draft {
        seq![(ns + " is still a draft \u{2014} mark it ready for review on GitHub first"@, false)]
    } else {
        Seq::empty()
    }) + (if land.base_branch@ != trunk {
        seq![(ns + " still targets \u{201c}"@ + land.base_branch@ + "\u{201d}, not \u{201c}"@ + trunk + "\u{201d} \u{2014} publish the stack to retarget it first"@, false)]
    } else {
        Seq::empty()
    }) + (match land.mergeable {
        Mergeable::Conflicting => seq![(ns + " has merge conflicts with \u{201c}"@ + trunk + "\u{201d} \u{2014} rebase onto the fetched trunk, publish, and land again"@, false)],
        Mergeable::Unknown => seq![("GitHub is still working out whether "@ + ns + " merges cleanly \u{2014} plan again in a moment"@, true)],
        Mergeable::Mergeable => Seq::empty(),
    }) + (if land.review == ReviewDecision::ChangesRequested {
        seq![("changes were requested on "@ + ns, false)]
    } else {
        Seq::empty()
    }) + (if land.checks == ChecksRollup::Failing {
        seq![(ns + "'s checks are failing"@, false)]
    } else {
        Seq::empty()
    })
}

/// What an otherwise clear candidate still waits on, in order.
pub open spec fn candidate_waits(n: u64, land: PrLandState) -> Seq<Seq<char>> {
    let ns = hash_num(n);
    (if land.checks == ChecksRollup::Pending {
        seq![ns + "'s checks are still running"@]
    } else {
        Seq::empty()
    }) + (if land.review == ReviewDecision::ReviewRequired {
        seq![ns + " still needs an approving review"@]
    } else {
        Seq::empty()
    })
}

/// Classify a fresh land state for PR `n` expected to land on `trunk`.
pub open spec fn classify_spec(n: u64, land: PrLandState, trunk: Seq<char>) -> ReadinessView {
    let ns = hash_num(n);
    match land.state {
        PrState::Merged => ReadinessView::AlreadyMerged,
        PrState::Closed => ReadinessView::Blocked(
            seq![(ns + " was closed on GitHub without merging \u{2014} reopen it or publish again"@, false)],
        ),
        PrState::Open => if land.in_merge_queue {
            ReadinessView::AutomationRunning(
                ns + " is already in the merge queue; GitHub lands it from here \u{2014} run Land again afterwards to reconcile"@,
            )
        } else if land.auto_merge_enabled {
            ReadinessView::AutomationRunning(
                "auto-merge is already enabled on "@ + ns + "; GitHub merges it once its requirements are met \u{2014} run Land again afterwards to reconcile"@,
            )
        } else if candidate_blockers(n, land, trunk).len() > 0 {
            ReadinessView::Blocked(candidate_blockers(n, land, trunk))
        } else if candidate_waits(n, land).len() > 0 {
            ReadinessView::WaitingOnAutomatable(candidate_waits(n, land))
        } else {
            ReadinessView::Ready
        },
    }
}

/// `"#<n>"`, executed.
fn hash_text(n: u64) -> (r: String)
    ensures
        r@ == hash_num(n),
{
    let mut v = chars_of("#");
    push_all(&mut v, &decimal(n));
    string_of(&v)
}

/// Push a blocker, keeping the views in step.
fn push_blocker(v: &mut Vec<LandBlocker>, b: LandBlocker)
    ensures
        blocker_views(final(v)@) == blocker_views(old(v)@).push(blocker_view(b)),
{
    let ghost before = v@;
    v.push(b);
    assert(blocker_views(v@) =~= blocker_views(before).push(blocker_view(b)));
}

/// Classify a fresh land state for PR `number` expected to land on `trunk`.
#[verifier::spinoff_prover]
#[verifier::rlimit(40)]
pub fn classify_candidate(number: u64, land: &PrLandState, trunk: &str) -> (r: Readiness)
    ensures
        r@ == classify_spec(number, *land, trunk@),
{
    let ns = hash_text(number);
    let n = ns.as_str();
    proof {
        reveal_strlit("");
    }
    match land.state {
        PrState::Merged => return Readiness::AlreadyMerged,
        PrState::Closed => {
            let b = LandBlocker::needs_user(cat2(n, " was closed on GitHub without merging \u{2014} reopen it or publish again"));
            let mut v: Vec<LandBlocker> = Vec::new();
            push_blocker(&mut v, b);
            assert(blocker_views(v@) =~= seq![blocker_view(b)]);
            return Readiness::Blocked(v);
        },
        PrState::Open => {},
    }
    if land.in_merge_queue {
        return Readiness::AutomationRunning(cat2(n, " is already in the merge queue; GitHub lands it from here \u{2014} run Land again afterwards to reconcile"));
    }
    if land.auto_merge_enabled {
        return Readiness::AutomationRunning(cat3("auto-merge is already enabled on ", n, "; GitHub merges it once its requirements are met \u{2014} run Land again afterwards to reconcile"));
    }
    let ghost spec_blockers = candidate_blockers(number, *land, trunk@);
    let mut blockers: Vec<LandBlocker> = Vec::new();
    if land.is_draft {
        push_blocker(&mut blockers, LandBlocker::needs_user(cat2(n, " is still a draft \u{2014} mark it ready for review on GitHub first")));
    }
    let ghost b1 = blocker_views(blockers@);
    if !str_eq(land.base_branch.as_str(), trunk) {
        push_blocker(&mut blockers, LandBlocker::needs_user(cat6(n, " still targets \u{201c}", land.base_branch.as_str(), "\u{201d}, not \u{201c}", trunk, "\u{201d} \u{2014} publish the stack to retarget it first")));
    }
    let ghost b2 = blocker_views(blockers@);
    match land.mergeable {
        Mergeable::Conflicting => push_blocker(&mut blockers, LandBlocker::needs_user(cat4(n, " has merge conflicts with \u{201c}", trunk, "\u{201d} \u{2014} rebase onto the fetched trunk, publish, and land again"))),
        Mergeable::Unknown => push_blocker(&mut blockers, LandBlocker::transient(cat3("GitHub is still working out whether ", n, " merges cleanly \u{2014} plan again in a moment"))),
        Mergeable::Mergeable => {},
    }
    let ghost b3 = blocker_views(blockers@);
    if land.review == ReviewDecision::ChangesRequested {
        push_blocker(&mut blockers, LandBlocker::needs_user(cat2("changes were requested on ", n)));
    }
    let ghost b4 = blocker_views(blockers@);
    if land.checks == ChecksRollup::Failing {
        push_blocker(&mut blockers, LandBlocker::needs_user(cat2(n, "'s checks are failing")));
    }
    proof {
        assert(blocker_views(blockers@) =~= spec_blockers);
    }
    if blockers.len() > 0 {
        return Readiness::Blocked(blockers);
    }
    let ghost spec_waits = candidate_waits(number, *land);
    let mut waits: Vec<String> = Vec::new();
    if land.checks == ChecksRollup::Pending {
        let w = cat2(n, "'s checks are still running");
        waits.push(w);
    }
    let ghost w1 = str_views(waits@);
    if land.review == ReviewDecision::ReviewRequired {
        let w = cat2(n, " still needs an approving review");
        waits.push(w);
    }
    proof {
        assert(str_views(waits@) =~= spec_waits);
    }
    if waits.len() == 0 {
        Readiness::Ready
    } else {
        Readiness::WaitingOnAutomatable(waits)
    }
}

/// The merge method for a repo's capabilities: squash preferred, then
/// rebase, then merge.
pub open spec fn pick_method_spec(land: PrLandState) -> Option<MergeMethod> {
    if land.allows_squash {
        Some(MergeMethod::Squash)
    } else if land.allows_rebase {
        Some(MergeMethod::Rebase)
    } else if land.allows_merge {
        Some(MergeMethod::Merge)
    } else {
        None
    }
}

/// The merge method for a repo's capabilities.
pub fn pick_method(land: &PrLandState) -> (r: Option<MergeMethod>)
    ensures
        r == pick_method_spec(*land),
{
    if land.allows_squash {
        Some(MergeMethod::Squash)
    } else if land.allows_rebase {
        Some(MergeMethod::Rebase)
    } else if land.allows_merge {
        Some(MergeMethod::Merge)
    } else {
        None
    }
}

// ---------------------------------------------------------------------
// Plans
// ---------------------------------------------------------------------

/// Where a segment stands in the landing story.
#[derive(Debug, Clone, PartialEq, Eq)]
pub enum LandSegmentStatus {
    /// GitHub already merged this segment's PR; this run reconciles it.
    Merged { number: u64, url: String },
    /// The PR this run merges — or hands to GitHub's automation.
    Landing,
    /// The bottom-most unmerged segment, and it cannot land yet; the
    /// plan's blockers carry the reasons.
    Waiting,
    /// Above the landing point: lands on a later run.
    Stacked,
}

/// The content of a segment status.
pub ghost enum StatusView {
    Merged { number: u64, url: Seq<char> },
    Landing,
    Waiting,
    Stacked,
}

impl View for LandSegmentStatus {
    type V = StatusView;

    open spec fn view(&self) -> StatusView {
        match self {
            LandSegmentStatus::Merged { number, url } => StatusView::Merged { number: *number, url: url@ },
            LandSegmentStatus::Landing => StatusView::Landing,
            LandSegmentStatus::Waiting => StatusView::Waiting,
            LandSegmentStatus::Stacked => StatusView::Stacked,
        }
    }
}

#[derive(Debug, Clone, PartialEq, Eq)]
pub struct LandSegment {
    pub bookmark: String,
    /// Change ids in the segment, bottom-first.
    pub change_ids: Vec<String>,
    /// The open PR GitHub has for this bookmark, when one exists.
    pub pr: Option<PrSummary>,
    pub status: LandSegmentStatus,
}

/// The content of a land segment.
pub ghost struct PlacedView {
    pub bookmark: Seq<char>,
    pub change_ids: Seq<Seq<char>>,
    pub pr: Option<PrSummary>,
    pub status: StatusView,
}

impl View for LandSegment {
    type V = PlacedView;

    open spec fn view(&self) -> PlacedView {
        PlacedView {
            bookmark: self.bookmark@,
            change_ids: str_views(self.change_ids@),
            pr: self.pr,
            status: self.status@,
        }
    }
}

/// The contents of a list of land segments.
pub open spec fn placed_views(v: Seq<LandSegment>) -> Seq<PlacedView> {
    v.map_values(|x: LandSegment| x@)
}

impl LandSegment {
    /// A copy with the same content.
    pub fn duplicate(&self) -> (r: LandSegment)
        ensures
            r@ == self@,
    {
        let status = match &self.status {
            LandSegmentStatus::Merged { number, url } => LandSegmentStatus::Merged { number: *number, url: url.clone() },
            LandSegmentStatus::Landing => LandSegmentStatus::Landing,
            LandSegmentStatus::Waiting => LandSegmentStatus::Waiting,
            LandSegmentStatus::Stacked => LandSegmentStatus::Stacked,
        };
        LandSegment {
            bookmark: self.bookmark.clone(),
            change_ids: copy_strings(&self.change_ids),
            pr: clone_opt_pr(&self.pr),
            status,
        }
    }
}

/// A copy of a list of land segments.
pub fn copy_segments(v: &Vec<LandSegment>) -> (r: Vec<LandSegment>)
    ensures
        placed_views(r@) == placed_views(v@),
{
    let mut out: Vec<LandSegment> = Vec::new();
    let mut i: usize = 0;
    while i < v.len()
        invariant
            i <= v@.len(),
            placed_views(out@) == placed_views(v@.take(i as int)),
        decreases v@.len() - i,
    {
        let ghost before = out@;
        out.push(v[i].duplicate());
        assert(placed_views(out@) =~= placed_views(before).push(v@[i as int]@));
        assert(v@.take(i + 1) =~= v@.take(i as int).push(v@[i as int]));
        i += 1;
    }
    assert(v@.take(v@.len() as int) =~= v@);
    out
}

/// One landing action, in execution order.
#[derive(Debug, Clone, PartialEq, Eq)]
pub enum LandAction {
    /// Merge the PR now; `expected_head` is GitHub's lease — the merge
    /// refuses if the PR's head moved since planning.
    MergePr { number: u64, bookmark: String, method: MergeMethod, expected_head: String },
    /// Enable auto-merge and let GitHub finish.
    EnableAutoMerge { number: u64, bookmark: String, method: MergeMethod },
    /// Enqueue into the base branch's merge queue.
    EnqueuePr { number: u64, bookmark: String },
    /// Fetch so the merged trunk arrives locally.
    FetchRemote { remote: String },
    /// Rebase a stale chain onto the new trunk.
    RebaseOntoTrunk { root_change: String, moves: u32 },
    /// One batched push of the rebased stack's tracked bookmarks.
    PushStack { bookmarks: Vec<String> },
    /// Point the next PR at the trunk.
    RetargetPr { number: u64, bookmark: String, to_base: String },
    /// Delete the landed bookmark here and on the remote.
    CleanupBookmark { bookmark: String },
    /// Abandon the landed segment's local changes, newest first.
    AbandonLanded { bookmark: String, change_ids: Vec<String> },
}

/// The content of a landing action.
pub ghost enum LandActionView {
    MergePr { number: u64, bookmark: Seq<char>, method: MergeMethod, expected_head: Seq<char> },
    EnableAutoMerge { number: u64, bookmark: Seq<char>, method: MergeMethod },
    EnqueuePr { number: u64, bookmark: Seq<char> },
    FetchRemote { remote: Seq<char> },
    RebaseOntoTrunk { root_change: Seq<char>, moves: u32 },
    PushStack { bookmarks: Seq<Seq<char>> },
    RetargetPr { number: u64, bookmark: Seq<char>, to_base: Seq<char> },
    CleanupBookmark { bookmark: Seq<char> },
    AbandonLanded { bookmark: Seq<char>, change_ids: Seq<Seq<char>> },
}

impl View for LandAction {
    type V = LandActionView;

    open spec fn view(&self) -> LandActionView {
        match self {
            LandAction::MergePr { number, bookmark, method, expected_head } => LandActionView::MergePr {
                number: *number,
                bookmark: bookmark@,
                method: *method,
                expected_head: expected_head@,
            },
            LandAction::EnableAutoMerge { number, bookmark, method } => LandActionView::EnableAutoMerge {
                number: *number,
                bookmark: bookmark@,
                method: *method,
            },
            LandAction::EnqueuePr { number, bookmark } => LandActionView::EnqueuePr { number: *number, bookmark: bookmark@ },
            LandAction::FetchRemote { remote } => LandActionView::FetchRemote { remote: remote@ },
            LandAction::RebaseOntoTrunk { root_change, moves } => LandActionView::RebaseOntoTrunk {
                root_change: root_change@,
                moves: *moves,
            },
            LandAction::PushStack { bookmarks } => LandActionView::PushStack { bookmarks: str_views(bookmarks@) },
            LandAction::RetargetPr { number, bookmark, to_base } => LandActionView::RetargetPr {
                number: *number,
                bookmark: bookmark@,
                to_base: to_base@,
            },
            LandAction::CleanupBookmark { bookmark } => LandActionView::CleanupBookmark { bookmark: bookmark@ },
            LandAction::AbandonLanded { bookmark, change_ids } => LandActionView::AbandonLanded {
                bookmark: bookmark@,
                change_ids: str_views(change_ids@),
            },
        }
    }
}

/// The contents of a list of landing actions.
pub open spec fn land_action_views(v: Seq<LandAction>) -> Seq<LandActionView> {
    v.map_values(|a: LandAction| a@)
}

/// Push one action, keeping the views in step.
fn push_land_action(v: &mut Vec<LandAction>, a: LandAction)
    ensures
        land_action_views(final(v)@) == land_action_views(old(v)@).push(a@),
{
    let ghost before = v@;
    v.push(a);
    assert(land_action_views(v@) =~= land_action_views(before).push(a@));
}

/// Copy of a list of strings.
fn copy_strings(v: &Vec<String>) -> (r: Vec<String>)
    ensures
        str_views(r@) == str_views(v@),
{
    let mut out: Vec<String> = Vec::new();
    let mut i: usize = 0;
    while i < v.len()
        invariant
            i <= v@.len(),
            str_views(out@) == str_views(v@.take(i as int)),
        decreases v@.len() - i,
    {
        let ghost before = out@;
        out.push(v[i].clone());
        assert(str_views(out@) =~= str_views(before).push(v@[i as int]@));
        assert(v@.take(i + 1) =~= v@.take(i as int).push(v@[i as int]));
        i += 1;
        assert(str_views(out@) =~= str_views(v@.take(i as int)));
    }
    assert(v@.take(v@.len() as int) =~= v@);
    out
}

impl LandAction {
    /// A copy with the same content.
    pub fn duplicate(&self) -> (r: LandAction)
        ensures
            r@ == self@,
    {
        match self {
            LandAction::MergePr { number, bookmark, method, expected_head } => LandAction::MergePr {
                number: *number,
                bookmark: bookmark.clone(),
                method: *method,
                expected_head: expected_head.clone(),
            },
            LandAction::EnableAutoMerge { number, bookmark, method } => LandAction::EnableAutoMerge {
                number: *number,
                bookmark: bookmark.clone(),
                method: *method,
            },
            LandAction::EnqueuePr { number, bookmark } => LandAction::EnqueuePr { number: *number, bookmark: bookmark.clone() },
            LandAction::FetchRemote { remote } => LandAction::FetchRemote { remote: remote.clone() },
            LandAction::RebaseOntoTrunk { root_change, moves } => LandAction::RebaseOntoTrunk {
                root_change: root_change.clone(),
                moves: *moves,
            },
            LandAction::PushStack { bookmarks } => LandAction::PushStack { bookmarks: copy_strings(bookmarks) },
            LandAction::RetargetPr { number, bookmark, to_base } => LandAction::RetargetPr {
                number: *number,
                bookmark: bookmark.clone(),
                to_base: to_base.clone(),
            },
            LandAction::CleanupBookmark { bookmark } => LandAction::CleanupBookmark { bookmark: bookmark.clone() },
            LandAction::AbandonLanded { bookmark, change_ids } => LandAction::AbandonLanded {
                bookmark: bookmark.clone(),
                change_ids: copy_strings(change_ids),
            },
        }
    }
}

/// What landing a stack will do this run, derived before anything runs.
#[derive(Debug, Clone, PartialEq, Eq)]
pub struct LandPlan {
    pub head_bookmark: String,
    pub remote: String,
    /// The trunk branch the stack lands on.
    pub base_branch: String,
    /// The stack, bottom-up, each segment placed in the landing story.
    pub segments: Vec<LandSegment>,
    /// Everything this run will do, in order. Empty with a note in
    /// `warnings` means GitHub is already driving.
    pub actions: Vec<LandAction>,
    /// Problems that stop this run from doing anything.
    pub blockers: Vec<LandBlocker>,
    pub warnings: Vec<String>,
}

#[derive(Debug, Clone, PartialEq, Eq)]
pub struct LandStep {
    pub action: LandAction,
    pub status: SubmitStepStatus,
    /// Plain-language result: what happened, or why it was skipped.
    pub detail: Option<String>,
}

#[derive(Debug, Clone, PartialEq, Eq)]
pub struct LandOutcome {
    pub steps: Vec<LandStep>,
    pub failed: bool,
}

/// The jj side of executing a land plan, host-implemented. Every method
/// that mutates also republishes the snapshot, and `snapshot` answers the
/// latest one.
///
/// Each request has a name for its answers, which a host may define (one
/// that does not leaves every answer open) and the library assumes nothing
/// of: it only lets a contract say which request, with which arguments, an
/// answer came from.
pub trait LandVcs {
    /// `r` answers a fetch from `remote`.
    closed spec fn fetch_answer(&self, remote: Seq<char>, r: Result<String, BackendError>) -> bool {
        true
    }

    /// `r` answers a request for the latest snapshot.
    closed spec fn snapshot_answer(&self, r: Result<RepoSnapshot, BackendError>) -> bool {
        true
    }

    /// `r` answers a rebase of the changes from `root` onto trunk.
    closed spec fn rebase_answer(&self, root: Seq<char>, r: Result<String, BackendError>) -> bool {
        true
    }

    /// `r` answers a push of `bookmarks` to `remote`.
    closed spec fn push_answer(&self, bookmarks: Seq<Seq<char>>, remote: Seq<char>, r: Result<String, BackendError>) -> bool {
        true
    }

    /// `r` answers the deletion of bookmark `name`.
    closed spec fn delete_answer(&self, name: Seq<char>, r: Result<String, BackendError>) -> bool {
        true
    }

    /// `r` answers abandoning the changes `ids`.
    closed spec fn abandon_answer(&self, ids: Seq<Seq<char>>, r: Result<String, BackendError>) -> bool {
        true
    }

    fn git_fetch(&self, remote: &str) -> (r: Result<String, BackendError>)
        ensures
            self.fetch_answer(remote@, r),
    ;

    /// The latest snapshot after the steps so far.
    fn snapshot(&self) -> (r: Result<RepoSnapshot, BackendError>)
        ensures
            self.snapshot_answer(r),
    ;

    /// `jj rebase -s <root> -d <trunk>`.
    fn rebase_onto_trunk(&self, root_change: &str) -> (r: Result<String, BackendError>)
        ensures
            self.rebase_answer(root_change@, r),
    ;

    fn push_bookmarks(&self, bookmarks: &[String], remote: &str) -> (r: Result<String, BackendError>)
        ensures
            self.push_answer(str_views(bookmarks@), remote@, r),
    ;

    fn delete_bookmark(&self, name: &str) -> (r: Result<String, BackendError>)
        ensures
            self.delete_answer(name@, r),
    ;

    fn abandon_changes(&self, change_ids: &[String]) -> (r: Result<String, BackendError>)
        ensures
            self.abandon_answer(str_views(change_ids@), r),
    ;
}

/// The forge side of planning and executing a land. Its requests have
/// names for their answers, as [`LandVcs`]'s do.
pub trait LandForge {
    /// `r` answers the question which merged PR `branch` once headed.
    closed spec fn merged_pr_answer(&self, branch: Seq<char>, r: Result<Option<PrSummary>, ForgeError>) -> bool {
        true
    }

    /// `r` answers a request for PR `number`'s land state against `base`.
    closed spec fn land_state_answer(&self, number: u64, base: Seq<char>, r: Result<PrLandState, ForgeError>) -> bool {
        true
    }

    /// `r` answers a request to merge PR `number` by `method` at `expected_head`.
    closed spec fn merge_answer(&self, number: u64, method: MergeMethod, expected_head: Seq<char>, r: Result<(), ForgeError>) -> bool {
        true
    }

    /// `r` answers a request to enable auto-merge by `method` on PR node `node_id`.
    closed spec fn auto_merge_answer(&self, node_id: Seq<char>, method: MergeMethod, r: Result<(), ForgeError>) -> bool {
        true
    }

    /// `r` answers a request to put PR node `node_id` in the merge queue.
    closed spec fn enqueue_answer(&self, node_id: Seq<char>, r: Result<(), ForgeError>) -> bool {
        true
    }

    /// `r` answers a request to retarget PR `number` onto `base`.
    closed spec fn retarget_answer(&self, number: u64, base: Seq<char>, r: Result<(), ForgeError>) -> bool {
        true
    }

    /// The merged PR a branch once headed, if any.
    fn find_merged_pr(&self, branch: &str) -> (r: Result<Option<PrSummary>, ForgeError>)
        ensures
            self.merged_pr_answer(branch@, r),
    ;

    /// Fresh land readiness for one PR.
    fn pr_land_state(&self, number: u64, base: &str) -> (r: Result<PrLandState, ForgeError>)
        ensures
            self.land_state_answer(number, base@, r),
    ;

    fn merge_pr(&self, number: u64, method: MergeMethod, expected_head: &str) -> (r: Result<(), ForgeError>)
        ensures
            self.merge_answer(number, method, expected_head@, r),
    ;

    fn enable_auto_merge(&self, node_id: &str, method: MergeMethod) -> (r: Result<(), ForgeError>)
        ensures
            self.auto_merge_answer(node_id@, method, r),
    ;

    fn enqueue_pr(&self, node_id: &str) -> (r: Result<(), ForgeError>)
        ensures
            self.enqueue_answer(node_id@, r),
    ;

    fn update_pr_base(&self, number: u64, base: &str) -> (r: Result<(), ForgeError>)
        ensures
            self.retarget_answer(number, base@, r),
    ;
}

// ---------------------------------------------------------------------
// The reconcile tail
// ---------------------------------------------------------------------

/// `a + b`, saturating at `u32::MAX`.
pub open spec fn sat_add(a: u32, b: u32) -> u32 {
    if a + b > u32::MAX {
        u32::MAX
    } else {
        (a + b) as u32
    }
}

/// A node lists `id` among its parents.
pub open spec fn has_parent(n: GraphNode, id: Seq<char>) -> bool {
    exists|p: int| 0 <= p < n.parents@.len() && #[trigger] n.parents@[p]@ == id
}

/// The number of changes a rebase rooted at node `k` moves, counted the
/// way one forward pass over the (children-first) node list counts them:
/// the node itself plus, for every node naming it as a parent, that
/// node's count when already counted, else one.
pub open spec fn subtree_size(nodes: Seq<GraphNode>, k: int) -> u32
    decreases k, 1int, 0int,
{
    if 0 <= k < nodes.len() {
        sat_add(1, kids_sum(nodes, k, nodes.len() as int))
    } else {
        1
    }
}

/// The children counts of node `k` among the first `m` nodes.
pub open spec fn kids_sum(nodes: Seq<GraphNode>, k: int, m: int) -> u32
    decreases k, 0int, m,
{
    if m <= 0 || !(0 <= k < nodes.len()) || m > nodes.len() {
        0
    } else {
        let c = nodes[m - 1];
        let add: u32 = if has_parent(c, nodes[k].id@) {
            match node_index(nodes.take(k), c.id@) {
                Some(j) => if 0 <= j < k {
                    subtree_size(nodes, j)
                } else {
                    1
                },
                None => 1,
            }
        } else {
            0
        };
        sat_add(kids_sum(nodes, k, m - 1), add)
    }
}


/// Rebases of every drawn child of the change `hid`, among the first `m`
/// nodes, in node order.
pub open spec fn rebase_list(nodes: Seq<GraphNode>, hid: Seq<char>, m: int) -> Seq<LandActionView>
    decreases m,
{
    if m <= 0 || m > nodes.len() {
        Seq::empty()
    } else {
        let prev = rebase_list(nodes, hid, m - 1);
        let c = nodes[m - 1];
        if has_parent(c, hid) {
            prev.push(
                LandActionView::RebaseOntoTrunk {
                    root_change: c.id@,
                    moves: match node_index(nodes, c.id@) {
                        Some(j) => subtree_size(nodes, j),
                        None => 1,
                    },
                },
            )
        } else {
            prev
        }
    }
}

/// Some bookmark named `name` tracks a remote.
pub open spec fn has_remote_bookmark(bms: Seq<BookmarkState>, name: Seq<char>) -> bool {
    exists|b: int| 0 <= b < bms.len() && #[trigger] bms[b].name@ == name && bms[b].remote is Some
}

/// The tracked bookmarks above `top` among the first `m` placed segments.
pub open spec fn live_list(bms: Seq<BookmarkState>, placed: Seq<PlacedView>, top: int, m: int) -> Seq<Seq<char>>
    decreases m,
{
    if m <= 0 || m > placed.len() {
        Seq::empty()
    } else {
        let prev = live_list(bms, placed, top, m - 1);
        if m - 1 > top && has_remote_bookmark(bms, placed[m - 1].bookmark) {
            prev.push(placed[m - 1].bookmark)
        } else {
            prev
        }
    }
}

/// The first open PR above `top`, scanning from `t`.
pub open spec fn first_pr_from(placed: Seq<PlacedView>, t: int) -> Option<PrSummary>
    decreases placed.len() - t,
{
    if t < 0 || t >= placed.len() {
        None
    } else {
        match placed[t].pr {
            Some(p) => Some(p),
            None => first_pr_from(placed, t + 1),
        }
    }
}

/// Cleanups of the flagged segments among the first `m`, in order.
pub open spec fn cleanup_list(placed: Seq<PlacedView>, flags: Seq<bool>, m: int) -> Seq<LandActionView>
    decreases m,
{
    if m <= 0 || m > placed.len() || m > flags.len() {
        Seq::empty()
    } else {
        let prev = cleanup_list(placed, flags, m - 1);
        if flags[m - 1] {
            prev.push(LandActionView::CleanupBookmark { bookmark: placed[m - 1].bookmark })
        } else {
            prev
        }
    }
}

/// Abandons of the flagged segments' changes among the first `m`, each
/// newest first.
pub open spec fn abandon_list(placed: Seq<PlacedView>, flags: Seq<bool>, m: int) -> Seq<LandActionView>
    decreases m,
{
    if m <= 0 || m > placed.len() || m > flags.len() {
        Seq::empty()
    } else {
        let prev = abandon_list(placed, flags, m - 1);
        if flags[m - 1] {
            prev.push(
                LandActionView::AbandonLanded {
                    bookmark: placed[m - 1].bookmark,
                    change_ids: placed[m - 1].change_ids.reverse(),
                },
            )
        } else {
            prev
        }
    }
}

/// The reconcile tail: fetch, rebase what still sits on the topmost
/// landed change onto the new trunk, push the rebased tracked bookmarks,
/// retarget the next PR, then clean up each landed segment's bookmark
/// and — unless this run merges with a merge commit — its changes.
pub open spec fn reconcile_spec(
    snap: RepoSnapshot,
    remote: Seq<char>,
    segs: Seq<(Seq<char>, Seq<int>)>,
    placed: Seq<PlacedView>,
    flags: Seq<bool>,
    top: int,
    trunk: Seq<char>,
    method: Option<MergeMethod>,
) -> Seq<LandActionView> {
    let nodes = snap.nodes@;
    let hid = nodes[segs[top].1.last()].id@;
    let live = live_list(snap.bookmarks@, placed, top, placed.len() as int);
    seq![LandActionView::FetchRemote { remote }] + rebase_list(nodes, hid, nodes.len() as int) + (if live.len() > 0 {
        seq![LandActionView::PushStack { bookmarks: live }]
    } else {
        Seq::empty()
    }) + (match first_pr_from(placed, top + 1) {
        Some(p) => if p.base_branch@ != trunk {
            seq![LandActionView::RetargetPr { number: p.number, bookmark: p.head_branch@, to_base: trunk }]
        } else {
            Seq::empty()
        },
        None => Seq::empty(),
    }) + cleanup_list(placed, flags, placed.len() as int) + (if method != Some(MergeMethod::Merge) {
        abandon_list(placed, flags, placed.len() as int)
    } else {
        Seq::empty()
    })
}

/// Whether node `c` lists `id` among its parents.
fn names_parent(c: &GraphNode, id: &str) -> (r: bool)
    ensures
        r == has_parent(*c, id@),
{
    let mut p: usize = 0;
    while p < c.parents.len()
        invariant
            p <= c.parents@.len(),
            forall|q: int| 0 <= q < p ==> #[trigger] c.parents@[q]@ != id@,
        decreases c.parents@.len() - p,
    {
        if str_eq(c.parents[p].as_str(), id) {
            return true;
        }
        p += 1;
    }
    false
}

/// Saturating `u32` addition.
fn add_sat(a: u32, b: u32) -> (r: u32)
    ensures
        r == sat_add(a, b),
{
    if a > u32::MAX - b {
        u32::MAX
    } else {
        a + b
    }
}

/// Every node's rebase count, in node order.
fn subtree_sizes(nodes: &Vec<GraphNode>) -> (r: Vec<u32>)
    ensures
        r@.len() == nodes@.len(),
        forall|k: int| 0 <= k < nodes@.len() ==> #[trigger] r@[k] == subtree_size(nodes@, k),
{
    let n = nodes.len();
    let mut sizes: Vec<u32> = Vec::new();
    let mut k: usize = 0;
    while k < n
        invariant
            n == nodes@.len(),
            k <= n,
            sizes@.len() == k,
            forall|t: int| 0 <= t < k ==> #[trigger] sizes@[t] == subtree_size(nodes@, t),
        decreases n - k,
    {
        let id = nodes[k].id.as_str();
        let mut sum: u32 = 0;
        let mut m: usize = 0;
        while m < n
            invariant
                n == nodes@.len(),
                k < n,
                m <= n,
                sizes@.len() == k,
                id@ == nodes@[k as int].id@,
                forall|t: int| 0 <= t < k ==> #[trigger] sizes@[t] == subtree_size(nodes@, t),
                sum == kids_sum(nodes@, k as int, m as int),
            decreases n - m,
        {
            let c = &nodes[m];
            let add: u32 = if names_parent(c, id) {
                match find_in_prefix(nodes, k, c.id.as_str()) {
                    Some(j) => {
                        proof {
                            lemma_node_index(nodes@.take(k as int), c.id@);
                        }
                        sizes[j]
                    },
                    None => 1,
                }
            } else {
                0
            };
            proof {
                assert(nodes@[m as int] == *c);
            }
            sum = add_sat(sum, add);
            m += 1;
        }
        sizes.push(add_sat(1, sum));
        k += 1;
    }
    sizes
}

/// The last of the first `k` nodes carrying `id`.
fn find_in_prefix(nodes: &Vec<GraphNode>, k: usize, id: &str) -> (r: Option<usize>)
    requires
        k <= nodes@.len(),
    ensures
        match r {
            Some(j) => node_index(nodes@.take(k as int), id@) == Some(j as int),
            None => node_index(nodes@.take(k as int), id@) is None,
        },
{
    let mut j: usize = k;
    assert(nodes@.take(k as int).take(j as int) =~= nodes@.take(k as int));
    while j > 0
        invariant
            j <= k <= nodes@.len(),
            node_index(nodes@.take(k as int), id@) == node_index(nodes@.take(k as int).take(j as int), id@),
        decreases j,
    {
        assert(nodes@.take(k as int).take(j as int).last() == nodes@[j - 1]);
        if str_eq(nodes[j - 1].id.as_str(), id) {
            return Some(j - 1);
        }
        assert(nodes@.take(k as int).take(j as int).drop_last() =~= nodes@.take(k as int).take(j - 1));
        j -= 1;
    }
    None
}

/// Append the rebases of every drawn child of the change `hid`.
fn push_rebases(nodes: &Vec<GraphNode>, hid: &str, out: &mut Vec<LandAction>)
    ensures
        land_action_views(final(out)@) == land_action_views(old(out)@) + rebase_list(nodes@, hid@, nodes@.len() as int),
{
    let sizes = subtree_sizes(nodes);
    let ghost start = land_action_views(out@);
    let mut m: usize = 0;
    while m < nodes.len()
        invariant
            m <= nodes@.len(),
            sizes@.len() == nodes@.len(),
            forall|k: int| 0 <= k < nodes@.len() ==> #[trigger] sizes@[k] == subtree_size(nodes@, k),
            land_action_views(out@) == start + rebase_list(nodes@, hid@, m as int),
        decreases nodes@.len() - m,
    {
        let c = &nodes[m];
        if names_parent(c, hid) {
            let moves: u32 = match find_node(nodes, c.id.as_str()) {
                Some(j) => {
                    proof {
                        lemma_node_index(nodes@, c.id@);
                    }
                    sizes[j]
                },
                None => 1,
            };
            let ghost before = land_action_views(out@);
            push_land_action(out, LandAction::RebaseOntoTrunk { root_change: c.id.clone(), moves });
            assert(land_action_views(out@) =~= start + rebase_list(nodes@, hid@, m + 1));
        }
        m += 1;
    }
}

/// Whether some bookmark named `name` tracks a remote.
fn has_tracking(bms: &Vec<BookmarkState>, name: &str) -> (r: bool)
    ensures
        r == has_remote_bookmark(bms@, name@),
{
    let mut b: usize = 0;
    while b < bms.len()
        invariant
            b <= bms@.len(),
            forall|q: int| 0 <= q < b ==> !(#[trigger] bms@[q].name@ == name@ && bms@[q].remote is Some),
        decreases bms@.len() - b,
    {
        if str_eq(bms[b].name.as_str(), name) && bms[b].remote.is_some() {
            return true;
        }
        b += 1;
    }
    false
}

/// The tracked bookmarks above `top`.
fn live_bookmarks(bms: &Vec<BookmarkState>, placed: &Vec<LandSegment>, top: usize) -> (r: Vec<String>)
    ensures
        str_views(r@) == live_list(bms@, placed_views(placed@), top as int, placed@.len() as int),
{
    let mut out: Vec<String> = Vec::new();
    let mut t: usize = 0;
    while t < placed.len()
        invariant
            t <= placed@.len(),
            str_views(out@) == live_list(bms@, placed_views(placed@), top as int, t as int),
        decreases placed@.len() - t,
    {
        assert(placed_views(placed@)[t as int] == placed@[t as int]@);
        if t > top && has_tracking(bms, placed[t].bookmark.as_str()) {
            let ghost before = out@;
            out.push(placed[t].bookmark.clone());
            assert(str_views(out@) =~= str_views(before).push(placed@[t as int].bookmark@));
        }
        t += 1;
    }
    out
}

/// The first open PR at or after position `from`.
fn first_pr(placed: &Vec<LandSegment>, from: usize) -> (r: Option<PrSummary>)
    ensures
        r == first_pr_from(placed_views(placed@), from as int),
{
    let mut t: usize = from;
    while t < placed.len()
        invariant
            from <= t,
            first_pr_from(placed_views(placed@), from as int) == first_pr_from(placed_views(placed@), t as int),
        decreases placed@.len() - t,
    {
        assert(placed_views(placed@)[t as int] == placed@[t as int]@);
        match &placed[t].pr {
            Some(p) => return Some(p.duplicate()),
            None => {},
        }
        t += 1;
    }
    None
}

/// Copy of a list of strings, last first.
fn reversed(v: &Vec<String>) -> (r: Vec<String>)
    ensures
        str_views(r@) == str_views(v@).reverse(),
{
    let mut out: Vec<String> = Vec::new();
    let mut i: usize = v.len();
    while i > 0
        invariant
            i <= v@.len(),
            str_views(out@) == str_views(v@).skip(i as int).reverse(),
        decreases i,
    {
        let ghost before = out@;
        out.push(v[i - 1].clone());
        assert(str_views(out@) =~= str_views(before).push(v@[i - 1]@));
        assert(str_views(v@).skip(i - 1).reverse() =~= str_views(v@).skip(i as int).reverse().push(v@[i - 1]@));
        i -= 1;
    }
    assert(str_views(v@).skip(0) =~= str_views(v@));
    out
}

/// Whether a list of strings holds `s`.
fn holds(v: &Vec<String>, s: &str) -> (r: bool)
    ensures
        r == str_views(v@).contains(s@),
{
    let mut i: usize = 0;
    while i < v.len()
        invariant
            i <= v@.len(),
            forall|q: int| 0 <= q < i ==> #[trigger] v@[q]@ != s@,
        decreases v@.len() - i,
    {
        assert(str_views(v@)[i as int] == v@[i as int]@);
        if str_eq(v[i].as_str(), s) {
            return true;
        }
        i += 1;
    }
    assert forall|q: int| 0 <= q < str_views(v@).len() implies #[trigger] str_views(v@)[q] != s@ by {
        assert(str_views(v@)[q] == v@[q]@);
    }
    false
}

/// The warning that sweeping a landed segment moves the working copy.
pub open spec fn working_copy_msg(bookmark: Seq<char>) -> Seq<char> {
    "the working copy sits on \u{201c}"@ + bookmark
        + "\u{201d}'s landed changes; it respawns as a fresh empty change when they are swept"@
}

/// The sweep warnings for the first `m` placed segments: each landed
/// segment to abandon that holds the working copy.
pub open spec fn sweep_warnings(wc: Seq<char>, placed: Seq<PlacedView>, flags: Seq<bool>, m: int) -> Seq<Seq<char>>
    decreases m,
{
    if m <= 0 {
        Seq::empty()
    } else {
        sweep_warnings(wc, placed, flags, m - 1) + if flags[m - 1] && placed[m - 1].change_ids.contains(wc) {
            seq![working_copy_msg(placed[m - 1].bookmark)]
        } else {
            Seq::empty()
        }
    }
}

/// What the reconcile tail warns about: nothing after a merge commit
/// (nothing is swept), else the sweeps under the working copy.
pub open spec fn reconcile_warnings(
    wc: Seq<char>,
    placed: Seq<PlacedView>,
    flags: Seq<bool>,
    method: Option<MergeMethod>,
) -> Seq<Seq<char>> {
    if method == Some(MergeMethod::Merge) {
        Seq::empty()
    } else {
        sweep_warnings(wc, placed, flags, placed.len() as int)
    }
}

/// The reconcile tail (see [`reconcile_spec`]).
fn reconcile_actions(
    snapshot: &RepoSnapshot,
    remote: &str,
    segs: &Vec<RawSegment>,
    placed: &Vec<LandSegment>,
    flags: &Vec<bool>,
    top: usize,
    trunk: &str,
    method: Option<MergeMethod>,
    warnings: &mut Vec<String>,
) -> (r: Vec<LandAction>)
    requires
        placed@.len() == flags@.len(),
        top < segs@.len(),
        segs@[top as int].nodes@.len() > 0,
        forall|u: int| 0 <= u < segs@[top as int].nodes@.len() ==> #[trigger] segs@[top as int].nodes@[u] < snapshot.nodes@.len(),
    ensures
        land_action_views(r@) == reconcile_spec(
            *snapshot,
            remote@,
            raw_views(segs@),
            placed_views(placed@),
            flags@,
            top as int,
            trunk@,
            method,
        ),
        str_views(final(warnings)@) == str_views(old(warnings)@) + reconcile_warnings(
            snapshot.working_copy@,
            placed_views(placed@),
            flags@,
            method,
        ),
{
    let ghost wstart = str_views(warnings@);
    let mut actions: Vec<LandAction> = Vec::new();
    push_land_action(&mut actions, LandAction::FetchRemote { remote: crate::text::owned(remote) });
    let top_nodes = &segs[top].nodes;
    let last = top_nodes[top_nodes.len() - 1];
    proof {
        assert(raw_views(segs@)[top as int] == raw_view(segs@[top as int]));
        assert(ints(top_nodes@).last() == last as int);
    }
    let hid = snapshot.nodes[last].id.as_str();
    push_rebases(&snapshot.nodes, hid, &mut actions);
    let ghost after_rebases = land_action_views(actions@);
    let live = live_bookmarks(&snapshot.bookmarks, placed, top);
    if live.len() > 0 {
        push_land_action(&mut actions, LandAction::PushStack { bookmarks: live });
    }
    let ghost after_push = land_action_views(actions@);
    let seg_count = segs.len();
    assert(top < seg_count);
    match first_pr(placed, top + 1) {
        Some(next) => {
            if !str_eq(next.base_branch.as_str(), trunk) {
                push_land_action(
                    &mut actions,
                    LandAction::RetargetPr {
                        number: next.number,
                        bookmark: next.head_branch.clone(),
                        to_base: crate::text::owned(trunk),
                    },
                );
            }
        },
        None => {},
    }
    let ghost after_retarget = land_action_views(actions@);
    let ghost pv = placed_views(placed@);
    let mut t: usize = 0;
    while t < placed.len()
        invariant
            t <= placed@.len(),
            placed@.len() == flags@.len(),
            pv == placed_views(placed@),
            land_action_views(actions@) == after_retarget + cleanup_list(pv, flags@, t as int),
        decreases placed@.len() - t,
    {
        if flags[t] {
            assert(pv[t as int] == placed@[t as int]@);
            push_land_action(&mut actions, LandAction::CleanupBookmark { bookmark: placed[t].bookmark.clone() });
            assert(land_action_views(actions@) =~= after_retarget + cleanup_list(pv, flags@, t + 1));
        }
        t += 1;
    }
    let ghost after_cleanup = land_action_views(actions@);
    let merge_commit = match method {
        Some(MergeMethod::Merge) => true,
        _ => false,
    };
    if !merge_commit {
        let mut t: usize = 0;
        assert(wstart + Seq::<Seq<char>>::empty() =~= wstart);
        while t < placed.len()
            invariant
                t <= placed@.len(),
                placed@.len() == flags@.len(),
                pv == placed_views(placed@),
                land_action_views(actions@) == after_cleanup + abandon_list(pv, flags@, t as int),
                str_views(warnings@) == wstart + sweep_warnings(snapshot.working_copy@, pv, flags@, t as int),
            decreases placed@.len() - t,
        {
            if flags[t] {
                let p = &placed[t];
                assert(pv[t as int] == p@);
                if holds(&p.change_ids, snapshot.working_copy.as_str()) {
                    let ghost before = str_views(warnings@);
                    warnings.push(cat3("the working copy sits on \u{201c}", p.bookmark.as_str(), "\u{201d}'s landed changes; it respawns as a fresh empty change when they are swept"));
                    assert(str_views(warnings@) =~= before.push(working_copy_msg(p.bookmark@)));
                }
                push_land_action(&mut actions, LandAction::AbandonLanded { bookmark: p.bookmark.clone(), change_ids: reversed(&p.change_ids) });
                assert(land_action_views(actions@) =~= after_cleanup + abandon_list(pv, flags@, t + 1));
            }
            proof {
                let prior = sweep_warnings(snapshot.working_copy@, pv, flags@, t as int);
                let now = sweep_warnings(snapshot.working_copy@, pv, flags@, t + 1);
                if flags@[t as int] && pv[t as int].change_ids.contains(snapshot.working_copy@) {
                    assert(now =~= prior.push(working_copy_msg(pv[t as int].bookmark)));
                } else {
                    assert(now =~= prior);
                }
            }
            t += 1;
        }
    } else {
        assert(str_views(warnings@) =~= wstart + Seq::<Seq<char>>::empty());
    }
    proof {
        assert(merge_commit == (method == Some(MergeMethod::Merge)));
        assert(land_action_views(actions@) =~= reconcile_spec(
            *snapshot,
            remote@,
            raw_views(segs@),
            placed_views(placed@),
            flags@,
            top as int,
            trunk@,
            method,
        ));
    }
    actions
}

// ---------------------------------------------------------------------
// The landing plan
// ---------------------------------------------------------------------

/// What the forge answered for one segment during the walk.
pub enum LandAnswer {
    /// No question was asked for this segment.
    NotAsked,
    /// Fresh land state of the segment's open PR.
    State(PrLandState),
    /// The merged PR the segment's branch once headed, if any.
    MergedPr(Option<PrSummary>),
}

/// The bottom-up walk's progress.
pub ghost struct WalkView {
    pub placed: Seq<PlacedView>,
    /// The last segment found merged.
    pub merged_top: Option<int>,
    /// The landing candidate: its position, PR, and fresh land state (none
    /// in a reconcile-only run).
    pub candidate: Option<(int, PrSummary, Option<PrLandState>)>,
    /// The segment found without any PR.
    pub no_pr: Option<Seq<char>>,
    /// Everything below is settled; the next segment is still bottom-most.
    pub bottom_resolved: bool,
}

/// A segment placed with a PR and a status.
pub open spec fn placed_entry(
    snap: RepoSnapshot,
    seg: (Seq<char>, Seq<int>),
    pr: Option<PrSummary>,
    status: StatusView,
) -> PlacedView {
    PlacedView { bookmark: seg.0, change_ids: crate::submit::segment_ids(snap.nodes@, seg.1), pr, status }
}

/// Placing one more segment, bottom-up: already-merged segments, then the
/// landing candidate, then the stacked rest.
pub open spec fn walk_step(
    snap: RepoSnapshot,
    prs: RepoPrState,
    w: WalkView,
    index: int,
    seg: (Seq<char>, Seq<int>),
    ans: LandAnswer,
) -> WalkView {
    let name = seg.0;
    let open_pr = prs.pr_for(name);
    if !w.bottom_resolved {
        WalkView { placed: w.placed.push(placed_entry(snap, seg, open_pr, StatusView::Stacked)), ..w }
    } else {
        match open_pr {
            Some(pr) => if w.merged_top is Some {
                WalkView {
                    placed: w.placed.push(placed_entry(snap, seg, Some(pr), StatusView::Stacked)),
                    candidate: Some((index, pr, None)),
                    bottom_resolved: false,
                    ..w
                }
            } else {
                match ans {
                    LandAnswer::State(land) => if land.state == PrState::Merged {
                        WalkView {
                            placed: w.placed.push(placed_entry(snap, seg, None, StatusView::Merged { number: pr.number, url: pr.url@ })),
                            merged_top: Some(index),
                            ..w
                        }
                    } else {
                        WalkView {
                            placed: w.placed.push(placed_entry(snap, seg, Some(pr), StatusView::Waiting)),
                            candidate: Some((index, pr, Some(land))),
                            bottom_resolved: false,
                            ..w
                        }
                    },
                    _ => WalkView {
                        placed: w.placed.push(placed_entry(snap, seg, Some(pr), StatusView::Waiting)),
                        candidate: Some((index, pr, None)),
                        bottom_resolved: false,
                        ..w
                    },
                }
            },
            None => match ans {
                LandAnswer::MergedPr(Some(m)) => WalkView {
                    placed: w.placed.push(placed_entry(snap, seg, None, StatusView::Merged { number: m.number, url: m.url@ })),
                    merged_top: Some(index),
                    ..w
                },
                _ => WalkView {
                    placed: w.placed.push(placed_entry(snap, seg, None, StatusView::Waiting)),
                    no_pr: Some(name),
                    bottom_resolved: false,
                    ..w
                },
            },
        }
    }
}

/// The walk over the first `k` segments.
pub open spec fn walk_upto(
    snap: RepoSnapshot,
    prs: RepoPrState,
    segs: Seq<(Seq<char>, Seq<int>)>,
    answers: Seq<LandAnswer>,
    k: int,
) -> WalkView
    decreases k,
{
    if k <= 0 {
        WalkView { placed: Seq::empty(), merged_top: None, candidate: None, no_pr: None, bottom_resolved: true }
    } else {
        walk_step(snap, prs, walk_upto(snap, prs, segs, answers, k - 1), k - 1, segs[k - 1], answers[k - 1])
    }
}

/// The position of the first placed segment named `name`.
pub open spec fn first_named(placed: Seq<PlacedView>, name: Seq<char>, t: int) -> Option<int>
    decreases placed.len() - t,
{
    if t < 0 || t >= placed.len() {
        None
    } else if placed[t].bookmark == name {
        Some(t)
    } else {
        first_named(placed, name, t + 1)
    }
}

/// The placed segments with one status changed.
pub open spec fn restatus(placed: Seq<PlacedView>, at: Option<int>, status: StatusView) -> Seq<PlacedView> {
    match at {
        Some(t) => if 0 <= t < placed.len() {
            placed.update(t, PlacedView { status, ..placed[t] })
        } else {
            placed
        },
        None => placed,
    }
}

/// Which placed segments are merged.
pub open spec fn merged_flags(placed: Seq<PlacedView>) -> Seq<bool> {
    placed.map_values(|p: PlacedView| p.status is Merged)
}

/// Only position `index` flagged, among `n`.
pub open spec fn only_flag(index: int, n: nat) -> Seq<bool> {
    Seq::new(n, |t: int| t == index)
}

/// What blocks the merge run for the candidate, in order: an unpublished
/// branch, a repo allowing no merge method, then the candidate's own
/// blockers.
pub open spec fn merge_run_blockers(
    snap: RepoSnapshot,
    owner: Seq<char>,
    repo_name: Seq<char>,
    name: Seq<char>,
    pr: PrSummary,
    land: PrLandState,
) -> Seq<(Seq<char>, bool)> {
    let bms = snap.bookmarks@;
    let st = bms[bookmark_index(bms, name, false)->0];
    (if st.sync != SyncState::Synced {
        seq![("\u{201c}"@ + name + "\u{201d} and its GitHub branch differ \u{2014} publish the stack first, so what merges is what you see here"@, false)]
    } else {
        Seq::empty()
    }) + (if pick_method_spec(land) is None {
        seq![(owner + "/"@ + repo_name + " allows none of GitHub's merge methods \u{2014} check the repository's merge settings"@, false)]
    } else {
        Seq::empty()
    }) + (match classify_spec(pr.number, land, snap.trunk_bookmark@) {
        ReadinessView::Blocked(b) => b,
        _ => Seq::empty(),
    })
}

/// The waits a repo without auto-merge turns into blockers.
pub open spec fn wait_blockers(waits: Seq<Seq<char>>) -> Seq<(Seq<char>, bool)> {
    waits.map_values(|w: Seq<char>| (w + " \u{2014} this repository has auto-merge disabled, so land again when it settles"@, true))
}

/// The story of a candidate GitHub's automation already drives.
pub open spec fn automation_story(r: ReadinessView) -> Seq<Seq<char>> {
    match r {
        ReadinessView::AutomationRunning(story) => seq![story],
        _ => Seq::empty(),
    }
}

/// Why a merge-queue trunk leaves the landing to GitHub.
pub open spec fn queue_msg(trunk: Seq<char>, n: u64) -> Seq<char> {
    "\u{201c}"@ + trunk + "\u{201d} is protected by a merge queue; GitHub lands "@ + hash_num(n)
        + " from here \u{2014} run Land again afterwards to reconcile"@
}

/// What landing the candidate warns about, in order: a candidate the
/// automation already drives tells its story; a run that goes ahead warns
/// when GitHub takes over (merge queue, auto-merge), or about sweeps under
/// the working copy after a merge.
pub open spec fn merge_run_warnings(
    snap: RepoSnapshot,
    repo: ForgeRepo,
    segs: Seq<(Seq<char>, Seq<int>)>,
    placed: Seq<PlacedView>,
    index: int,
    pr: PrSummary,
    land: PrLandState,
) -> Seq<Seq<char>> {
    let name = segs[index].0;
    let trunk = snap.trunk_bookmark@;
    let readiness = classify_spec(pr.number, land, trunk);
    automation_story(readiness) + if merge_run_blockers(snap, repo.owner@, repo.name@, name, pr, land).len() > 0 {
        Seq::empty()
    } else {
        let method = pick_method_spec(land)->0;
        match readiness {
            ReadinessView::Ready => if land.queue_on_base {
                seq![queue_msg(trunk, pr.number)]
            } else {
                reconcile_warnings(snap.working_copy@, placed, only_flag(index, placed.len()), Some(method))
            },
            ReadinessView::WaitingOnAutomatable(w) => if land.queue_on_base {
                seq![queue_msg(trunk, pr.number)]
            } else if land.auto_merge_allowed {
                seq![join_sep(w, "; "@) + " \u{2014} auto-merge hands the wait to GitHub"@]
            } else {
                Seq::empty()
            },
            _ => Seq::empty(),
        }
    }
}

/// The merge run for the candidate at `index`: its actions and blockers.
pub open spec fn merge_run(
    snap: RepoSnapshot,
    repo: ForgeRepo,
    segs: Seq<(Seq<char>, Seq<int>)>,
    placed: Seq<PlacedView>,
    index: int,
    pr: PrSummary,
    land: PrLandState,
) -> (Seq<LandActionView>, Seq<(Seq<char>, bool)>) {
    let name = segs[index].0;
    let trunk = snap.trunk_bookmark@;
    let b = merge_run_blockers(snap, repo.owner@, repo.name@, name, pr, land);
    if b.len() > 0 {
        (Seq::empty(), b)
    } else {
        let method = pick_method_spec(land)->0;
        match classify_spec(pr.number, land, trunk) {
            ReadinessView::Ready => if land.queue_on_base {
                (seq![LandActionView::EnqueuePr { number: pr.number, bookmark: name }], Seq::empty())
            } else {
                (
                    seq![LandActionView::MergePr { number: pr.number, bookmark: name, method, expected_head: land.head_commit@ }]
                        + reconcile_spec(snap, repo.remote@, segs, placed, only_flag(index, placed.len()), index, trunk, Some(method)),
                    Seq::empty(),
                )
            },
            ReadinessView::WaitingOnAutomatable(w) => if land.queue_on_base {
                (seq![LandActionView::EnqueuePr { number: pr.number, bookmark: name }], Seq::empty())
            } else if land.auto_merge_allowed {
                (seq![LandActionView::EnableAutoMerge { number: pr.number, bookmark: name, method }], Seq::empty())
            } else {
                (Seq::empty(), wait_blockers(w))
            },
            _ => (Seq::empty(), Seq::empty()),
        }
    }
}

/// The landing plan given the forge's answers during the walk: placed
/// segments, actions, and blockers.
pub open spec fn land_plan_spec(
    snap: RepoSnapshot,
    prs: RepoPrState,
    repo: ForgeRepo,
    head: Seq<char>,
    answers: Seq<LandAnswer>,
) -> (Seq<PlacedView>, Seq<LandActionView>, Seq<(Seq<char>, bool)>) {
    let segs = stack_segs(snap, prs, head).0;
    let w = walk_upto(snap, prs, segs, answers, segs.len() as int);
    let trunk = snap.trunk_bookmark@;
    if w.merged_top is Some {
        let placed = match w.no_pr {
            Some(b) => restatus(w.placed, first_named(w.placed, b, 0), StatusView::Stacked),
            None => w.placed,
        };
        (placed, reconcile_spec(snap, repo.remote@, segs, placed, merged_flags(placed), w.merged_top->0, trunk, None), Seq::empty())
    } else if w.no_pr is Some {
        (
            w.placed,
            Seq::empty(),
            seq![("\u{201c}"@ + w.no_pr->0 + "\u{201d} has no pull request \u{2014} publish the stack first"@, false)],
        )
    } else {
        match w.candidate {
            Some((index, pr, Some(land))) => {
                let run = merge_run(snap, repo, segs, w.placed, index, pr, land);
                (
                    restatus(w.placed, Some(index), if run.1.len() == 0 {
                        StatusView::Landing
                    } else {
                        StatusView::Waiting
                    }),
                    run.0,
                    run.1,
                )
            },
            _ => (w.placed, Seq::empty(), Seq::empty()),
        }
    }
}

/// Why a land plan may miss a stack PR.
pub open spec fn land_truncation_msg() -> Seq<char> {
    "GitHub answered only the 100 most recently updated open PRs; a stack PR past that may read as missing"@
}

/// What a land plan warns about, given the forge's answers to the walk:
/// collapsed names, a cut-short PR answer, then a reconcile's missing PR
/// and sweeps under the working copy, or the candidate's landing.
pub open spec fn land_warnings_spec(
    snap: RepoSnapshot,
    prs: RepoPrState,
    repo: ForgeRepo,
    head: Seq<char>,
    answers: Seq<LandAnswer>,
) -> Seq<Seq<char>> {
    let segs = stack_segs(snap, prs, head).0;
    let w = walk_upto(snap, prs, segs, answers, segs.len() as int);
    stack_segs(snap, prs, head).2 + crate::submit::truncation_warnings(prs, land_truncation_msg()) + if w.merged_top is Some {
        let placed = match w.no_pr {
            Some(b) => restatus(w.placed, first_named(w.placed, b, 0), StatusView::Stacked),
            None => w.placed,
        };
        (match w.no_pr {
            Some(b) => seq![
                "\u{201c}"@ + b + "\u{201d} has no pull request yet \u{2014} publish the stack once this reconcile lands"@,
            ],
            None => Seq::empty(),
        }) + reconcile_warnings(snap.working_copy@, placed, merged_flags(placed), None)
    } else if w.no_pr is Some {
        Seq::empty()
    } else {
        match w.candidate {
            Some((index, pr, Some(land))) => merge_run_warnings(snap, repo, segs, w.placed, index, pr, land),
            _ => Seq::empty(),
        }
    }
}

/// The walk's progress, as executable values.
struct Walk {
    placed: Vec<LandSegment>,
    merged_top: Option<usize>,
    candidate: Option<(usize, PrSummary, Option<PrLandState>)>,
    no_pr: Option<String>,
    bottom_resolved: bool,
}

spec fn walk_view(w: Walk) -> WalkView {
    WalkView {
        placed: placed_views(w.placed@),
        merged_top: match w.merged_top {
            Some(t) => Some(t as int),
            None => None,
        },
        candidate: match w.candidate {
            Some((i, pr, land)) => Some((i as int, pr, land)),
            None => None,
        },
        no_pr: crate::reconcile::opt_view(w.no_pr),
        bottom_resolved: w.bottom_resolved,
    }
}

/// Place one more segment (see [`walk_step`]).
#[verifier::spinoff_prover]
#[verifier::rlimit(80)]
fn walk_step_exec(
    snapshot: &RepoSnapshot,
    prs: &RepoPrState,
    w: &mut Walk,
    index: usize,
    seg: &RawSegment,
    ans: &LandAnswer,
)
    requires
        forall|u: int| 0 <= u < seg.nodes@.len() ==> #[trigger] seg.nodes@[u] < snapshot.nodes@.len(),
    ensures
        walk_view(*final(w)) == walk_step(*snapshot, *prs, walk_view(*old(w)), index as int, raw_view(*seg), *ans),
        final(w).placed@.len() == old(w).placed@.len() + 1,
        match final(w).merged_top {
            Some(t) => t == index || old(w).merged_top == Some(t),
            None => true,
        },
        match final(w).candidate {
            Some((t, _, _)) => t == index || (old(w).candidate matches Some((u, _, _)) && u == t),
            None => true,
        },
{
    let ghost before = walk_view(*w);
    let ghost old_placed = w.placed@;
    let name = &seg.bookmark;
    let facts = crate::submit::segment_facts(&snapshot.nodes, &seg.nodes);
    let ids = facts.0;
    let open_pr: Option<PrSummary> = match prs.by_branch.get(name.as_str()) {
        Some(p) => Some(p.duplicate()),
        None => None,
    };
    assert(open_pr == prs.pr_for(name@));
    if !w.bottom_resolved {
        w.placed.push(LandSegment { bookmark: name.clone(), change_ids: ids, pr: open_pr, status: LandSegmentStatus::Stacked });
        assert(placed_views(w.placed@) =~= before.placed.push(w.placed@.last()@));
        return;
    }
    match open_pr {
        Some(pr) => {
            if w.merged_top.is_some() {
                w.placed.push(LandSegment { bookmark: name.clone(), change_ids: ids, pr: Some(pr.duplicate()), status: LandSegmentStatus::Stacked });
                assert(placed_views(w.placed@) =~= before.placed.push(w.placed@.last()@));
                w.candidate = Some((index, pr, None));
                w.bottom_resolved = false;
                return;
            }
            match ans {
                LandAnswer::State(land) => {
                    if land.state == PrState::Merged {
                        w.placed.push(LandSegment {
                            bookmark: name.clone(),
                            change_ids: ids,
                            pr: None,
                            status: LandSegmentStatus::Merged { number: pr.number, url: pr.url.clone() },
                        });
                        assert(placed_views(w.placed@) =~= before.placed.push(w.placed@.last()@));
                        w.merged_top = Some(index);
                    } else {
                        w.placed.push(LandSegment { bookmark: name.clone(), change_ids: ids, pr: Some(pr.duplicate()), status: LandSegmentStatus::Waiting });
                        assert(placed_views(w.placed@) =~= before.placed.push(w.placed@.last()@));
                        w.candidate = Some((index, pr, Some(land.duplicate())));
                        w.bottom_resolved = false;
                    }
                },
                _ => {
                    w.placed.push(LandSegment { bookmark: name.clone(), change_ids: ids, pr: Some(pr.duplicate()), status: LandSegmentStatus::Waiting });
                    assert(placed_views(w.placed@) =~= before.placed.push(w.placed@.last()@));
                    w.candidate = Some((index, pr, None));
                    w.bottom_resolved = false;
                },
            }
        },
        None => {
            match ans {
                LandAnswer::MergedPr(Some(m)) => {
                    w.placed.push(LandSegment {
                        bookmark: name.clone(),
                        change_ids: ids,
                        pr: None,
                        status: LandSegmentStatus::Merged { number: m.number, url: m.url.clone() },
                    });
                    assert(placed_views(w.placed@) =~= before.placed.push(w.placed@.last()@));
                    w.merged_top = Some(index);
                },
                _ => {
                    w.placed.push(LandSegment { bookmark: name.clone(), change_ids: ids, pr: None, status: LandSegmentStatus::Waiting });
                    assert(placed_views(w.placed@) =~= before.placed.push(w.placed@.last()@));
                    w.no_pr = Some(name.clone());
                    w.bottom_resolved = false;
                },
            }
        },
    }
}

impl PrLandState {
    /// A field-for-field copy.
    pub fn duplicate(&self) -> (r: PrLandState)
        ensures
            r == *self,
    {
        PrLandState {
            node_id: self.node_id.clone(),
            state: self.state,
            is_draft: self.is_draft,
            mergeable: self.mergeable,
            review: self.review,
            checks: self.checks,
            base_branch: self.base_branch.clone(),
            head_commit: self.head_commit.clone(),
            auto_merge_enabled: self.auto_merge_enabled,
            in_merge_queue: self.in_merge_queue,
            auto_merge_allowed: self.auto_merge_allowed,
            queue_on_base: self.queue_on_base,
            allows_squash: self.allows_squash,
            allows_merge: self.allows_merge,
            allows_rebase: self.allows_rebase,
        }
    }
}

/// Append copies of blockers.
fn extend_blockers(out: &mut Vec<LandBlocker>, more: &Vec<LandBlocker>)
    ensures
        blocker_views(final(out)@) == blocker_views(old(out)@) + blocker_views(more@),
{
    let ghost start = blocker_views(out@);
    let mut i: usize = 0;
    while i < more.len()
        invariant
            i <= more@.len(),
            blocker_views(out@) == start + blocker_views(more@.take(i as int)),
        decreases more@.len() - i,
    {
        push_blocker(out, more[i].duplicate());
        assert(more@.take(i + 1) =~= more@.take(i as int).push(more@[i as int]));
        assert(blocker_views(more@.take(i + 1)) =~= blocker_views(more@.take(i as int)).push(blocker_view(more@[i as int])));
        i += 1;
    }
    assert(more@.take(more@.len() as int) =~= more@);
}

/// The merge run for the candidate at `index` (see [`merge_run`]).
#[verifier::rlimit(80)]
fn merge_run_exec(
    snapshot: &RepoSnapshot,
    repo: &ForgeRepo,
    segs: &Vec<RawSegment>,
    placed: &Vec<LandSegment>,
    index: usize,
    pr: &PrSummary,
    land: &PrLandState,
    warnings: &mut Vec<String>,
) -> (r: (Vec<LandAction>, Vec<LandBlocker>))
    requires
        index < segs@.len(),
        placed@.len() == segs@.len(),
        segs@[index as int].nodes@.len() > 0,
        forall|u: int| 0 <= u < segs@[index as int].nodes@.len() ==> #[trigger] segs@[index as int].nodes@[u] < snapshot.nodes@.len(),
        crate::submit::is_local_branch(snapshot.bookmarks@, segs@[index as int].bookmark@),
    ensures
        (land_action_views(r.0@), blocker_views(r.1@)) == merge_run(
            *snapshot,
            *repo,
            raw_views(segs@),
            placed_views(placed@),
            index as int,
            *pr,
            *land,
        ),
        str_views(final(warnings)@) == str_views(old(warnings)@) + merge_run_warnings(
            *snapshot,
            *repo,
            raw_views(segs@),
            placed_views(placed@),
            index as int,
            *pr,
            *land,
        ),
{
    let ghost wstart = str_views(warnings@);
    let name = &segs[index].bookmark;
    assert(raw_views(segs@)[index as int] == raw_view(segs@[index as int]));
    let trunk = snapshot.trunk_bookmark.as_str();
    let mut blockers: Vec<LandBlocker> = Vec::new();
    let k = match find_bookmark(&snapshot.bookmarks, name.as_str(), false) {
        Some(k) => k,
        None => {
            proof {
                lemma_bookmark_index(snapshot.bookmarks@, name@, false);
                let j = choose|j: int|
                    0 <= j < snapshot.bookmarks@.len() && #[trigger] snapshot.bookmarks@[j].name@
                        == name@ && snapshot.bookmarks@[j].is_local && !snapshot.bookmarks@[j].is_trunk;
                assert(!(snapshot.bookmarks@[j].name@ == name@ && (!false || snapshot.bookmarks@[j].is_local)));
            }
            return (Vec::new(), Vec::new());
        },
    };
    proof {
        lemma_bookmark_index(snapshot.bookmarks@, name@, false);
    }
    if snapshot.bookmarks[k].sync != SyncState::Synced {
        push_blocker(&mut blockers, LandBlocker::needs_user(cat3("\u{201c}", name.as_str(), "\u{201d} and its GitHub branch differ \u{2014} publish the stack first, so what merges is what you see here")));
    }
    let method = pick_method(land);
    if method.is_none() {
        push_blocker(&mut blockers, LandBlocker::needs_user(cat4(repo.owner.as_str(), "/", repo.name.as_str(), " allows none of GitHub's merge methods \u{2014} check the repository's merge settings")));
    }
    let readiness = classify_candidate(pr.number, land, trunk);
    let ghost before_classify = blocker_views(blockers@);
    match &readiness {
        Readiness::Blocked(reasons) => extend_blockers(&mut blockers, reasons),
        Readiness::AutomationRunning(story) => {
            warnings.push(story.clone());
            assert(str_views(warnings@) =~= wstart.push(story@));
        },
        _ => {
            assert(str_views(warnings@) =~= wstart);
        },
    }
    let ghost w1 = str_views(warnings@);
    assert(w1 =~= wstart + automation_story(classify_spec(pr.number, *land, trunk@)));
    proof {
        let extra = match classify_spec(pr.number, *land, trunk@) {
            ReadinessView::Blocked(b) => b,
            _ => Seq::empty(),
        };
        assert(blocker_views(blockers@) =~= before_classify + extra);
        assert(blocker_views(blockers@) =~= merge_run_blockers(*snapshot, repo.owner@, repo.name@, name@, *pr, *land));
    }
    if blockers.len() > 0 {
        assert(w1 + Seq::<Seq<char>>::empty() =~= w1);
        return (Vec::new(), blockers);
    }
    let method = match method {
        Some(m) => m,
        None => return (Vec::new(), blockers),
    };
    let n = hash_text(pr.number);
    let mut actions: Vec<LandAction> = Vec::new();
    match readiness {
        Readiness::Ready => {
            if land.queue_on_base {
                push_land_action(&mut actions, LandAction::EnqueuePr { number: pr.number, bookmark: name.clone() });
                warnings.push(cat5("\u{201c}", trunk, "\u{201d} is protected by a merge queue; GitHub lands ", n.as_str(), " from here \u{2014} run Land again afterwards to reconcile"));
                assert(str_views(warnings@) =~= w1 + seq![queue_msg(trunk@, pr.number)]);
            } else {
                push_land_action(&mut actions, LandAction::MergePr { number: pr.number, bookmark: name.clone(), method, expected_head: land.head_commit.clone() });
                let mut flags: Vec<bool> = Vec::new();
                let mut t: usize = 0;
                while t < placed.len()
                    invariant
                        t <= placed@.len(),
                        flags@ == only_flag(index as int, placed@.len()).take(t as int),
                    decreases placed@.len() - t,
                {
                    flags.push(t == index);
                    t += 1;
                    assert(flags@ =~= only_flag(index as int, placed@.len()).take(t as int));
                }
                assert(flags@ =~= only_flag(index as int, placed@.len()));
                let tail = reconcile_actions(snapshot, repo.remote.as_str(), segs, placed, &flags, index, trunk, Some(method), warnings);
                let ghost head_part = land_action_views(actions@);
                let mut tail = tail;
                let ghost tail_v = land_action_views(tail@);
                actions.append(&mut tail);
                assert(land_action_views(actions@) =~= head_part + tail_v);
            }
        },
        Readiness::WaitingOnAutomatable(waits) => {
            if land.queue_on_base {
                push_land_action(&mut actions, LandAction::EnqueuePr { number: pr.number, bookmark: name.clone() });
                warnings.push(cat5("\u{201c}", trunk, "\u{201d} is protected by a merge queue; GitHub lands ", n.as_str(), " from here \u{2014} run Land again afterwards to reconcile"));
                assert(str_views(warnings@) =~= w1 + seq![queue_msg(trunk@, pr.number)]);
            } else if land.auto_merge_allowed {
                push_land_action(&mut actions, LandAction::EnableAutoMerge { number: pr.number, bookmark: name.clone(), method });
                let joined = crate::submit::join_strings(&waits, "; ");
                warnings.push(cat2(joined.as_str(), " \u{2014} auto-merge hands the wait to GitHub"));
                assert(str_views(warnings@) =~= w1 + seq![join_sep(str_views(waits@), "; "@) + " \u{2014} auto-merge hands the wait to GitHub"@]);
            } else {
                assert(w1 + Seq::<Seq<char>>::empty() =~= w1);
                let mut i: usize = 0;
                while i < waits.len()
                    invariant
                        i <= waits@.len(),
                        blocker_views(blockers@) == wait_blockers(str_views(waits@).take(i as int)),
                    decreases waits@.len() - i,
                {
                    push_blocker(&mut blockers, LandBlocker::transient(cat2(waits[i].as_str(), " \u{2014} this repository has auto-merge disabled, so land again when it settles")));
                    assert(str_views(waits@).take(i + 1) =~= str_views(waits@).take(i as int).push(waits@[i as int]@));
                    assert(blocker_views(blockers@) =~= wait_blockers(str_views(waits@).take(i + 1)));
                    i += 1;
                }
                assert(str_views(waits@).take(waits@.len() as int) =~= str_views(waits@));
            }
        },
        _ => {
            assert(w1 + Seq::<Seq<char>>::empty() =~= w1);
        },
    }
    (actions, blockers)
}

/// What the walk asks the forge at segment `k`, given the answers for the
/// segments below, and that `told` is the forge's answer to it: nothing
/// above the landing candidate, nor for an open PR over a merged segment;
/// the fresh land state against trunk of the segment's open PR; or the
/// merged PR the segment's branch once headed.
pub open spec fn owed_answer<F: LandForge>(
    forge: &F,
    snap: RepoSnapshot,
    prs: RepoPrState,
    segs: Seq<(Seq<char>, Seq<int>)>,
    answers: Seq<LandAnswer>,
    k: int,
    told: Result<LandAnswer, ForgeError>,
) -> bool {
    let w = walk_upto(snap, prs, segs, answers, k);
    let name = segs[k].0;
    if !w.bottom_resolved {
        told == Ok::<LandAnswer, ForgeError>(LandAnswer::NotAsked)
    } else {
        match prs.pr_for(name) {
            Some(pr) => if w.merged_top is Some {
                told == Ok::<LandAnswer, ForgeError>(LandAnswer::NotAsked)
            } else {
                match told {
                    Ok(LandAnswer::State(l)) => forge.land_state_answer(pr.number, snap.trunk_bookmark@, Ok(l)),
                    Err(e) => forge.land_state_answer(pr.number, snap.trunk_bookmark@, Err(e)),
                    _ => false,
                }
            },
            None => match told {
                Ok(LandAnswer::MergedPr(m)) => forge.merged_pr_answer(name, Ok(m)),
                Err(e) => forge.merged_pr_answer(name, Err(e)),
                _ => false,
            },
        }
    }
}

/// The first `n` answers are the forge's answers to what the walk asked.
pub open spec fn walk_answered<F: LandForge>(
    forge: &F,
    snap: RepoSnapshot,
    prs: RepoPrState,
    segs: Seq<(Seq<char>, Seq<int>)>,
    answers: Seq<LandAnswer>,
    n: int,
) -> bool {
    forall|k: int| 0 <= k < n ==> #[trigger] owed_answer(forge, snap, prs, segs, answers, k, Ok(answers[k]))
}

/// `plan` is [`land_plan_spec`] (with the warnings of
/// [`land_warnings_spec`]) of the forge's answers to what the walk asked.
pub open spec fn land_plan_asked<F: LandForge>(
    forge: &F,
    snapshot: RepoSnapshot,
    prs: RepoPrState,
    repo: ForgeRepo,
    head: Seq<char>,
    plan: LandPlan,
) -> bool {
    exists|answers: Seq<LandAnswer>|
        answers.len() == stack_segs(snapshot, prs, head).0.len() && #[trigger] walk_answered(
            forge,
            snapshot,
            prs,
            stack_segs(snapshot, prs, head).0,
            answers,
            answers.len() as int,
        ) && land_plan_spec(snapshot, prs, repo, head, answers) == (
            placed_views(plan.segments@),
            land_action_views(plan.actions@),
            blocker_views(plan.blockers@),
        ) && land_warnings_spec(snapshot, prs, repo, head, answers) == str_views(plan.warnings@)
}

/// The walk failed with `e`: the forge answered `e` to what the walk asked
/// at some segment, after answering everything below it.
pub open spec fn land_walk_failed<F: LandForge>(
    forge: &F,
    snapshot: RepoSnapshot,
    prs: RepoPrState,
    head: Seq<char>,
    e: ForgeError,
) -> bool {
    exists|answers: Seq<LandAnswer>|
        answers.len() < stack_segs(snapshot, prs, head).0.len() && #[trigger] walk_answered(
            forge,
            snapshot,
            prs,
            stack_segs(snapshot, prs, head).0,
            answers,
            answers.len() as int,
        ) && owed_answer(forge, snapshot, prs, stack_segs(snapshot, prs, head).0, answers, answers.len() as int, Err(e))
}

/// `plan` is a land plan for the stack under `head`: whatever the forge
/// answered while the walk asked it, the plan is [`land_plan_spec`] of
/// those answers with the warnings of [`land_warnings_spec`], and a
/// blocked plan acts on nothing.
pub open spec fn land_plan_of(
    snapshot: RepoSnapshot,
    prs: RepoPrState,
    repo: ForgeRepo,
    head: Seq<char>,
    plan: LandPlan,
) -> bool {
    &&& stack_error(snapshot, head) is None
    &&& plan.head_bookmark@ == head
    &&& plan.remote@ == repo.remote@
    &&& plan.base_branch@ == snapshot.trunk_bookmark@
    &&& (plan.blockers@.len() > 0 ==> plan.actions@.len() == 0)
    &&& exists|answers: Seq<LandAnswer>|
        answers.len() == stack_segs(snapshot, prs, head).0.len() && #[trigger] land_plan_spec(
            snapshot,
            prs,
            repo,
            head,
            answers,
        ) == (placed_views(plan.segments@), land_action_views(plan.actions@), blocker_views(plan.blockers@))
            && land_warnings_spec(snapshot, prs, repo, head, answers) == str_views(plan.warnings@)
}

/// What planning a land comes to: a stack error refuses; otherwise the
/// plan of [`land_plan_of`] and [`land_plan_asked`], or the error the forge
/// answered to what the walk asked (see [`land_walk_failed`]).
pub open spec fn plan_land_told<F: LandForge>(
    forge: &F,
    snapshot: RepoSnapshot,
    prs: RepoPrState,
    repo: ForgeRepo,
    head: Seq<char>,
    r: Result<LandPlan, ForgeError>,
) -> bool {
    match stack_error(snapshot, head) {
        Some(m) => r matches Err(ForgeError::Land(e)) && e@ == m,
        None => match r {
            Ok(plan) => land_plan_of(snapshot, prs, repo, head, plan) && land_plan_asked(forge, snapshot, prs, repo, head, plan),
            Err(e) => land_walk_failed(forge, snapshot, prs, head, e),
        },
    }
}

/// Build the landing plan for the stack under `head_bookmark`.
///
/// Bottom-up: segments whose PR GitHub already merged are recognized and
/// get their reconcile planned; the first unmerged segment is the landing
/// candidate, evaluated against fresh per-PR state; everything above
/// waits for a later run. When a segment below the candidate merged, this
/// run is reconcile-only. The forge's answers decide the walk; whatever
/// they are, the plan is [`land_plan_spec`] of them.
#[verifier::rlimit(60)]
pub fn plan_land<F: LandForge>(
    snapshot: &RepoSnapshot,
    prs: &RepoPrState,
    repo: &ForgeRepo,
    head_bookmark: &str,
    forge: &F,
) -> (r: Result<LandPlan, ForgeError>)
    ensures
        plan_land_told(forge, *snapshot, *prs, *repo, head_bookmark@, r),
{
    let (segs, warnings) = match stack_segments(snapshot, prs, head_bookmark) {
        Ok(x) => x,
        Err(m) => return Err(ForgeError::Land(m)),
    };
    let mut warnings = warnings;
    let ghost gsegs = stack_segs(*snapshot, *prs, head_bookmark@).0;
    proof {
        let chain = crate::submit::stack_chain(*snapshot, head_bookmark@);
        let b = bookmark_index(snapshot.bookmarks@, head_bookmark@, true)->0;
        crate::submit::lemma_chain_in_range(snapshot.nodes@, snapshot.bookmarks@[b].target@);
        crate::submit::lemma_segs_wf(snapshot.nodes@, snapshot.bookmarks@, chain, chain.len() as int, head_bookmark@, *prs);
    }
    let trunk = snapshot.trunk_bookmark.as_str();
    if prs.report.truncated {
        warnings.push(crate::text::owned("GitHub answered only the 100 most recently updated open PRs; a stack PR past that may read as missing"));
    }
    let ghost w0 = str_views(warnings@);
    assert(w0 =~= stack_segs(*snapshot, *prs, head_bookmark@).2 + crate::submit::truncation_warnings(*prs, land_truncation_msg()));
    let mut w = Walk { placed: Vec::new(), merged_top: None, candidate: None, no_pr: None, bottom_resolved: true };
    assert(placed_views(w.placed@) =~= Seq::<PlacedView>::empty());
    let ghost mut answers: Seq<LandAnswer> = Seq::empty();
    let mut index: usize = 0;
    while index < segs.len()
        invariant
            index <= segs@.len(),
            raw_views(segs@) == gsegs,
            crate::submit::segs_wf(snapshot.nodes@, snapshot.bookmarks@, gsegs),
            str_views(warnings@) == w0,
            answers.len() == index,
            gsegs == stack_segs(*snapshot, *prs, head_bookmark@).0,
            trunk@ == snapshot.trunk_bookmark@,
            walk_answered(forge, *snapshot, *prs, gsegs, answers, index as int),
            walk_view(w) == walk_upto(*snapshot, *prs, gsegs, answers, index as int),
            w.placed@.len() == index,
            match w.merged_top {
                Some(t) => t < index,
                None => true,
            },
            match w.candidate {
                Some((t, _, _)) => t < index,
                None => true,
            },
            stack_error(*snapshot, head_bookmark@) is None,
        decreases segs@.len() - index,
    {
        let seg = &segs[index];
        assert(raw_view(*seg) == gsegs[index as int]);
        assert forall|u: int| 0 <= u < seg.nodes@.len() implies #[trigger] seg.nodes@[u] < snapshot.nodes@.len() by {
            assert(ints(seg.nodes@)[u] == seg.nodes@[u] as int);
        }
        let ans: LandAnswer = if !w.bottom_resolved {
            LandAnswer::NotAsked
        } else {
            match prs.by_branch.get(seg.bookmark.as_str()) {
                Some(pr) => if w.merged_top.is_some() {
                    LandAnswer::NotAsked
                } else {
                    match forge.pr_land_state(pr.number, trunk) {
                        Ok(l) => LandAnswer::State(l),
                        Err(e) => {
                            assert(owed_answer(forge, *snapshot, *prs, gsegs, answers, index as int, Err(e)));
                            assert(walk_answered(forge, *snapshot, *prs, gsegs, answers, answers.len() as int));
                            return Err(e);
                        },
                    }
                },
                None => match forge.find_merged_pr(seg.bookmark.as_str()) {
                    Ok(m) => LandAnswer::MergedPr(m),
                    Err(e) => {
                        assert(owed_answer(forge, *snapshot, *prs, gsegs, answers, index as int, Err(e)));
                        assert(walk_answered(forge, *snapshot, *prs, gsegs, answers, answers.len() as int));
                        return Err(e);
                    },
                },
            }
        };
        assert(owed_answer(forge, *snapshot, *prs, gsegs, answers, index as int, Ok(ans)));
        let ghost prev_answers = answers;
        walk_step_exec(snapshot, prs, &mut w, index, seg, &ans);
        proof {
            answers = answers.push(ans);
            assert(answers.take(index as int) =~= prev_answers);
            assert(prev_answers.take(index as int) =~= prev_answers);
            lemma_walk_prefix(*snapshot, *prs, gsegs, prev_answers, answers, index as int);
            assert forall|k: int| 0 <= k < index + 1 implies #[trigger] owed_answer(
                forge,
                *snapshot,
                *prs,
                gsegs,
                answers,
                k,
                Ok(answers[k]),
            ) by {
                assert(answers.take(k) =~= prev_answers.take(k));
                lemma_walk_prefix(*snapshot, *prs, gsegs, prev_answers, answers, k);
                if k < index {
                    assert(owed_answer(forge, *snapshot, *prs, gsegs, prev_answers, k, Ok(prev_answers[k])));
                }
            }
        }
        index += 1;
    }
    let ghost wv = walk_view(w);
    let mut blockers: Vec<LandBlocker> = Vec::new();
    let mut actions: Vec<LandAction> = Vec::new();
    let mut placed = w.placed;
    assert(placed_views(placed@) == wv.placed);
    match w.merged_top {
        Some(top) => {
            match &w.no_pr {
                Some(b) => {
                    warnings.push(cat3("\u{201c}", b.as_str(), "\u{201d} has no pull request yet \u{2014} publish the stack once this reconcile lands"));
                    assert(str_views(warnings@) =~= w0.push("\u{201c}"@ + b@ + "\u{201d} has no pull request yet \u{2014} publish the stack once this reconcile lands"@));
                    restatus_named(&mut placed, b.as_str(), LandSegmentStatus::Stacked);
                },
                None => {},
            }
            let ghost w_mid = str_views(warnings@);
            let mut flags: Vec<bool> = Vec::new();
            let mut t: usize = 0;
            while t < placed.len()
                invariant
                    t <= placed@.len(),
                    flags@ == merged_flags(placed_views(placed@)).take(t as int),
                decreases placed@.len() - t,
            {
                let merged = match &placed[t].status {
                    LandSegmentStatus::Merged { .. } => true,
                    _ => false,
                };
                flags.push(merged);
                t += 1;
                assert(flags@ =~= merged_flags(placed_views(placed@)).take(t as int));
            }
            assert(flags@ =~= merged_flags(placed_views(placed@)));
            assert(raw_views(segs@)[top as int] == raw_view(segs@[top as int]));
            assert forall|u: int| 0 <= u < segs@[top as int].nodes@.len() implies #[trigger] segs@[top as int].nodes@[u] < snapshot.nodes@.len() by {
                assert(ints(segs@[top as int].nodes@)[u] == segs@[top as int].nodes@[u] as int);
            }
            actions = reconcile_actions(snapshot, repo.remote.as_str(), &segs, &placed, &flags, top, trunk, None, &mut warnings);
            proof {
                let nopr = match wv.no_pr {
                    Some(b) => seq![
                        "\u{201c}"@ + b + "\u{201d} has no pull request yet \u{2014} publish the stack once this reconcile lands"@,
                    ],
                    None => Seq::<Seq<char>>::empty(),
                };
                assert(w_mid =~= w0 + nopr);
                let rw = reconcile_warnings(snapshot.working_copy@, placed_views(placed@), flags@, None);
                assert(w0 + nopr + rw =~= w0 + (nopr + rw));
            }
        },
        None => {
            match &w.no_pr {
                Some(b) => {
                    push_blocker(&mut blockers, LandBlocker::needs_user(cat3("\u{201c}", b.as_str(), "\u{201d} has no pull request \u{2014} publish the stack first")));
                    assert(str_views(warnings@) =~= w0 + Seq::<Seq<char>>::empty());
                },
                None => {
                    match &w.candidate {
                        Some((index, pr, Some(land))) => {
                            let index = *index;
                            assert(raw_views(segs@)[index as int] == raw_view(segs@[index as int]));
                            assert forall|u: int| 0 <= u < segs@[index as int].nodes@.len() implies #[trigger] segs@[index as int].nodes@[u] < snapshot.nodes@.len() by {
                                assert(ints(segs@[index as int].nodes@)[u] == segs@[index as int].nodes@[u] as int);
                            }
                            let run = merge_run_exec(snapshot, repo, &segs, &placed, index, pr, land, &mut warnings);
                            actions = run.0;
                            blockers = run.1;
                            let status = if blockers.len() == 0 {
                                LandSegmentStatus::Landing
                            } else {
                                LandSegmentStatus::Waiting
                            };
                            restatus_at(&mut placed, index, status);
                        },
                        _ => {
                            assert(str_views(warnings@) =~= w0 + Seq::<Seq<char>>::empty());
                        },
                    }
                },
            }
        },
    }
    proof {
        lemma_plan_no_actions_when_blocked(*snapshot, *prs, *repo, head_bookmark@, answers);
        assert(land_plan_spec(*snapshot, *prs, *repo, head_bookmark@, answers) == (placed_views(placed@), land_action_views(actions@), blocker_views(blockers@)));
        assert(land_warnings_spec(*snapshot, *prs, *repo, head_bookmark@, answers) == str_views(warnings@));
        assert(walk_answered(forge, *snapshot, *prs, gsegs, answers, answers.len() as int));
    }
    Ok(
        LandPlan {
            head_bookmark: crate::text::owned(head_bookmark),
            remote: repo.remote.clone(),
            base_branch: snapshot.trunk_bookmark.clone(),
            segments: placed,
            actions,
            blockers,
            warnings,
        },
    )
}

/// The walk only reads the answers it has reached.
proof fn lemma_walk_prefix(
    snap: RepoSnapshot,
    prs: RepoPrState,
    segs: Seq<(Seq<char>, Seq<int>)>,
    a: Seq<LandAnswer>,
    b: Seq<LandAnswer>,
    k: int,
)
    requires
        0 <= k <= a.len(),
        k <= b.len(),
        a.take(k) == b.take(k),
    ensures
        walk_upto(snap, prs, segs, a, k) == walk_upto(snap, prs, segs, b, k),
    decreases k,
{
    if k > 0 {
        assert(a.take(k - 1) =~= a.take(k).take(k - 1));
        assert(b.take(k - 1) =~= b.take(k).take(k - 1));
        assert(a[k - 1] == a.take(k)[k - 1]);
        assert(b[k - 1] == b.take(k)[k - 1]);
        lemma_walk_prefix(snap, prs, segs, a, b, k - 1);
    }
}

/// A blocked plan acts on nothing.
proof fn lemma_plan_no_actions_when_blocked(
    snap: RepoSnapshot,
    prs: RepoPrState,
    repo: ForgeRepo,
    head: Seq<char>,
    answers: Seq<LandAnswer>,
)
    ensures
        land_plan_spec(snap, prs, repo, head, answers).2.len() > 0 ==> land_plan_spec(snap, prs, repo, head, answers).1.len() == 0,
{
}

/// Change the status of the first segment named `name`.
fn restatus_named(placed: &mut Vec<LandSegment>, name: &str, status: LandSegmentStatus)
    ensures
        placed_views(final(placed)@) == restatus(placed_views(old(placed)@), first_named(placed_views(old(placed)@), name@, 0), status@),
{
    let ghost pv = placed_views(placed@);
    let mut t: usize = 0;
    while t < placed.len()
        invariant
            t <= placed@.len(),
            placed@ == old(placed)@,
            pv == placed_views(placed@),
            first_named(pv, name@, 0) == first_named(pv, name@, t as int),
        decreases placed@.len() - t,
    {
        assert(pv[t as int] == placed@[t as int]@);
        if str_eq(placed[t].bookmark.as_str(), name) {
            restatus_at(placed, t, status);
            return;
        }
        t += 1;
    }
}

/// Change the status of the segment at `t`.
fn restatus_at(placed: &mut Vec<LandSegment>, t: usize, status: LandSegmentStatus)
    ensures
        placed_views(final(placed)@) == restatus(placed_views(old(placed)@), Some(t as int), status@),
{
    if t < placed.len() {
        let ghost pv = placed_views(placed@);
        let old_seg = &placed[t];
        let seg = LandSegment {
            bookmark: old_seg.bookmark.clone(),
            change_ids: copy_strings(&old_seg.change_ids),
            pr: clone_opt_pr(&old_seg.pr),
            status,
        };
        placed.set(t, seg);
        assert(placed_views(placed@) =~= pv.update(t as int, PlacedView { status: status@, ..pv[t as int] }));
    }
}

// ---------------------------------------------------------------------
// Execution
// ---------------------------------------------------------------------

/// A run's statuses: `Done` steps, then at most one `Failed`, then
/// `Skipped`.
pub open spec fn run_shape(st: Seq<SubmitStepStatus>) -> bool {
    &&& forall|i: int, j: int|
        0 <= i < j < st.len() && #[trigger] st[j] != SubmitStepStatus::Skipped ==> #[trigger] st[i]
            == SubmitStepStatus::Done
    &&& forall|i: int, j: int|
        0 <= i < j < st.len() && #[trigger] st[i] == SubmitStepStatus::Failed ==> #[trigger] st[j]
            == SubmitStepStatus::Skipped
}

/// The statuses of a land run's steps.
pub open spec fn land_statuses(steps: Seq<LandStep>) -> Seq<SubmitStepStatus> {
    steps.map_values(|s: LandStep| s.status)
}

/// The messages of a list of blockers.
pub open spec fn blocker_messages(v: Seq<LandBlocker>) -> Seq<Seq<char>> {
    v.map_values(|b: LandBlocker| b.message@)
}

/// Messages of blockers, as strings.
fn messages_of(v: &Vec<LandBlocker>) -> (r: Vec<String>)
    ensures
        str_views(r@) == blocker_messages(v@),
{
    let mut out: Vec<String> = Vec::new();
    let mut i: usize = 0;
    while i < v.len()
        invariant
            i <= v@.len(),
            str_views(out@) == blocker_messages(v@.take(i as int)),
        decreases v@.len() - i,
    {
        let ghost before = out@;
        out.push(v[i].message.clone());
        assert(str_views(out@) =~= str_views(before).push(v@[i as int].message@));
        assert(v@.take(i + 1) =~= v@.take(i as int).push(v@[i as int]));
        assert(blocker_messages(v@.take(i + 1)) =~= blocker_messages(v@.take(i as int)).push(v@[i as int].message@));
        i += 1;
    }
    assert(v@.take(v@.len() as int) =~= v@);
    out
}

/// What a rebase step finds in the refreshed snapshot.
pub enum RebaseCheck {
    /// The root change is gone.
    Gone,
    /// The root's only parent already is the trunk's target.
    OnTrunk,
    /// Still to rebase.
    Needed,
}

/// The trunk bookmark's target, if the snapshot has a trunk bookmark.
pub open spec fn trunk_target(bms: Seq<BookmarkState>) -> Option<Seq<char>>
    decreases bms.len(),
{
    if bms.len() == 0 {
        None
    } else if bms[0].is_trunk {
        Some(bms[0].target@)
    } else {
        trunk_target(bms.drop_first())
    }
}

/// The first node carrying `id`.
pub open spec fn first_node(nodes: Seq<GraphNode>, id: Seq<char>, t: int) -> Option<int>
    decreases nodes.len() - t,
{
    if t < 0 || t >= nodes.len() {
        None
    } else if nodes[t].id@ == id {
        Some(t)
    } else {
        first_node(nodes, id, t + 1)
    }
}

/// What a rebase of `root` finds in the snapshot.
pub open spec fn rebase_check_spec(snap: RepoSnapshot, root: Seq<char>) -> RebaseCheck {
    match first_node(snap.nodes@, root, 0) {
        None => RebaseCheck::Gone,
        Some(i) => {
            let n = snap.nodes@[i];
            match trunk_target(snap.bookmarks@) {
                Some(t) => if n.parents@.len() == 1 && n.parents@[0]@ == t {
                    RebaseCheck::OnTrunk
                } else {
                    RebaseCheck::Needed
                },
                None => RebaseCheck::Needed,
            }
        },
    }
}

/// The first node carrying `id`, at or after `from`.
fn first_node_exec(nodes: &Vec<GraphNode>, id: &str) -> (r: Option<usize>)
    ensures
        match r {
            Some(i) => first_node(nodes@, id@, 0) == Some(i as int) && i < nodes@.len(),
            None => first_node(nodes@, id@, 0) is None,
        },
{
    let mut t: usize = 0;
    while t < nodes.len()
        invariant
            t <= nodes@.len(),
            first_node(nodes@, id@, 0) == first_node(nodes@, id@, t as int),
        decreases nodes@.len() - t,
    {
        if str_eq(nodes[t].id.as_str(), id) {
            return Some(t);
        }
        t += 1;
    }
    None
}

/// The trunk bookmark's target, executed.
fn trunk_target_exec(bms: &Vec<BookmarkState>) -> (r: Option<&String>)
    ensures
        match r {
            Some(s) => trunk_target(bms@) == Some(s@),
            None => trunk_target(bms@) is None,
        },
{
    let mut t: usize = 0;
    assert(bms@.skip(0) =~= bms@);
    while t < bms.len()
        invariant
            t <= bms@.len(),
            trunk_target(bms@) == trunk_target(bms@.skip(t as int)),
        decreases bms@.len() - t,
    {
        assert(bms@.skip(t as int)[0] == bms@[t as int]);
        if bms[t].is_trunk {
            return Some(&bms[t].target);
        }
        assert(bms@.skip(t as int).drop_first() =~= bms@.skip(t + 1));
        t += 1;
    }
    None
}

/// What a rebase of `root` finds in the refreshed snapshot.
pub fn rebase_check(snap: &RepoSnapshot, root: &str) -> (r: RebaseCheck)
    ensures
        r == rebase_check_spec(*snap, root@),
{
    match first_node_exec(&snap.nodes, root) {
        None => RebaseCheck::Gone,
        Some(i) => {
            let n = &snap.nodes[i];
            match trunk_target_exec(&snap.bookmarks) {
                Some(t) => if n.parents.len() == 1 && str_eq(n.parents[0].as_str(), t.as_str()) {
                    RebaseCheck::OnTrunk
                } else {
                    RebaseCheck::Needed
                },
                None => RebaseCheck::Needed,
            }
        },
    }
}

/// A local bookmark named `name` tracks a remote.
pub open spec fn pushable(bms: Seq<BookmarkState>, name: Seq<char>) -> bool {
    exists|b: int| 0 <= b < bms.len() && #[trigger] bms[b].name@ == name && bms[b].is_local && bms[b].remote is Some
}

/// The planned bookmarks that are still local and tracked, in order.
pub open spec fn still_pushable(bms: Seq<BookmarkState>, names: Seq<Seq<char>>) -> Seq<Seq<char>>
    decreases names.len(),
{
    if names.len() == 0 {
        Seq::empty()
    } else {
        let p = still_pushable(bms, names.drop_last());
        if pushable(bms, names.last()) {
            p.push(names.last())
        } else {
            p
        }
    }
}

/// The planned bookmarks still worth pushing after the refresh.
pub fn live_to_push(snap: &RepoSnapshot, names: &Vec<String>) -> (r: Vec<String>)
    ensures
        str_views(r@) == still_pushable(snap.bookmarks@, str_views(names@)),
{
    let mut out: Vec<String> = Vec::new();
    let mut i: usize = 0;
    while i < names.len()
        invariant
            i <= names@.len(),
            str_views(out@) == still_pushable(snap.bookmarks@, str_views(names@).take(i as int)),
        decreases names@.len() - i,
    {
        let name = names[i].as_str();
        let mut found = false;
        let mut b: usize = 0;
        while b < snap.bookmarks.len()
            invariant
                b <= snap.bookmarks@.len(),
                found == exists|q: int| 0 <= q < b && #[trigger] snap.bookmarks@[q].name@ == name@ && snap.bookmarks@[q].is_local && snap.bookmarks@[q].remote is Some,
            decreases snap.bookmarks@.len() - b,
        {
            let bm = &snap.bookmarks[b];
            if str_eq(bm.name.as_str(), name) && bm.is_local && bm.remote.is_some() {
                found = true;
            }
            b += 1;
        }
        proof {
            let t = str_views(names@).take(i + 1);
            assert(t.drop_last() =~= str_views(names@).take(i as int));
            assert(t.last() == names@[i as int]@);
        }
        if found {
            let ghost before = out@;
            out.push(names[i].clone());
            assert(str_views(out@) =~= str_views(before).push(names@[i as int]@));
        }
        i += 1;
    }
    assert(str_views(names@).take(names@.len() as int) =~= str_views(names@));
    out
}

/// Whether the bookmark is local, and whether it has a remote, when the
/// refreshed snapshot still has it.
pub open spec fn cleanup_check_spec(snap: RepoSnapshot, name: Seq<char>) -> Option<(bool, bool)> {
    match bookmark_index(snap.bookmarks@, name, false) {
        Some(i) => Some((snap.bookmarks@[i].is_local, snap.bookmarks@[i].remote is Some)),
        None => None,
    }
}

/// Whether the bookmark is local, and whether it has a remote.
pub fn cleanup_check(snap: &RepoSnapshot, name: &str) -> (r: Option<(bool, bool)>)
    ensures
        r == cleanup_check_spec(*snap, name@),
{
    match find_bookmark(&snap.bookmarks, name, false) {
        Some(i) => {
            proof {
                lemma_bookmark_index(snap.bookmarks@, name@, false);
            }
            Some((snap.bookmarks[i].is_local, snap.bookmarks[i].remote.is_some()))
        },
        None => None,
    }
}

/// A mutable node carries `id`.
pub open spec fn still_mutable(nodes: Seq<GraphNode>, id: Seq<char>) -> bool {
    exists|t: int| 0 <= t < nodes.len() && #[trigger] nodes[t].id@ == id && nodes[t].kind != NodeKind::Immutable
}

/// The changes still to abandon, in planned order.
pub open spec fn sweep_spec(nodes: Seq<GraphNode>, ids: Seq<Seq<char>>) -> Seq<Seq<char>>
    decreases ids.len(),
{
    if ids.len() == 0 {
        Seq::empty()
    } else {
        let p = sweep_spec(nodes, ids.drop_last());
        if still_mutable(nodes, ids.last()) {
            p.push(ids.last())
        } else {
            p
        }
    }
}

/// The landed changes still mutable in the refreshed snapshot.
pub fn sweep(snap: &RepoSnapshot, ids: &Vec<String>) -> (r: Vec<String>)
    ensures
        str_views(r@) == sweep_spec(snap.nodes@, str_views(ids@)),
{
    let mut out: Vec<String> = Vec::new();
    let mut i: usize = 0;
    while i < ids.len()
        invariant
            i <= ids@.len(),
            str_views(out@) == sweep_spec(snap.nodes@, str_views(ids@).take(i as int)),
        decreases ids@.len() - i,
    {
        let id = ids[i].as_str();
        let mut found = false;
        let mut t: usize = 0;
        while t < snap.nodes.len()
            invariant
                t <= snap.nodes@.len(),
                found == exists|q: int| 0 <= q < t && #[trigger] snap.nodes@[q].id@ == id@ && snap.nodes@[q].kind != NodeKind::Immutable,
            decreases snap.nodes@.len() - t,
        {
            if str_eq(snap.nodes[t].id.as_str(), id) && snap.nodes[t].kind != NodeKind::Immutable {
                found = true;
            }
            t += 1;
        }
        proof {
            let s = str_views(ids@).take(i + 1);
            assert(s.drop_last() =~= str_views(ids@).take(i as int));
            assert(s.last() == ids@[i as int]@);
        }
        if found {
            let ghost before = out@;
            out.push(ids[i].clone());
            assert(str_views(out@) =~= str_views(before).push(ids@[i as int]@));
        }
        i += 1;
    }
    assert(str_views(ids@).take(ids@.len() as int) =~= str_views(ids@));
    out
}

/// What the just-in-time re-check of GitHub decides before a step writes.
#[derive(Debug, Clone, PartialEq, Eq)]
pub enum StepGate {
    /// Nothing left to write; the step is done with this detail.
    Settled(String),
    /// The step fails with this story.
    Refused(String),
    /// Make the write.
    Proceed,
}

/// The content of a [`StepGate`].
pub ghost enum GateView {
    Settled(Seq<char>),
    Refused(Seq<char>),
    Proceed,
}

impl View for StepGate {
    type V = GateView;

    open spec fn view(&self) -> GateView {
        match self {
            StepGate::Settled(m) => GateView::Settled(m@),
            StepGate::Refused(m) => GateView::Refused(m@),
            StepGate::Proceed => GateView::Proceed,
        }
    }
}

/// The texts of blocker views.
pub open spec fn view_messages(bs: Seq<(Seq<char>, bool)>) -> Seq<Seq<char>> {
    bs.map_values(|b: (Seq<char>, bool)| b.0)
}

/// The re-check of PR `n` before merging it: a merged PR is settled, a PR
/// that is no longer ready (automation running, waiting, blocked) refuses
/// with the reasons, and a ready PR whose head moved since planning
/// refuses too. Only a ready PR still at `expected_head` is merged.
pub open spec fn merge_gate_spec(n: u64, land: PrLandState, trunk: Seq<char>, expected_head: Seq<char>) -> GateView {
    let ns = hash_num(n);
    match classify_spec(n, land, trunk) {
        ReadinessView::AlreadyMerged => GateView::Settled(ns + " was already merged on GitHub; reconciling"@),
        ReadinessView::AutomationRunning(story) => GateView::Refused(story),
        ReadinessView::WaitingOnAutomatable(reasons) => GateView::Refused(
            ns + " is no longer ready to merge: "@ + join_sep(reasons, "; "@),
        ),
        ReadinessView::Blocked(bs) => GateView::Refused(
            ns + " is no longer ready to merge: "@ + join_sep(view_messages(bs), "; "@),
        ),
        ReadinessView::Ready => if land.head_commit@ != expected_head {
            GateView::Refused(
                ns + "'s branch moved since this plan was made \u{2014} review the fresh plan and land again"@,
            )
        } else {
            GateView::Proceed
        },
    }
}

/// The re-check before merging (see [`merge_gate_spec`]).
pub fn merge_gate(number: u64, land: &PrLandState, trunk: &str, expected_head: &str) -> (r: StepGate)
    ensures
        r@ == merge_gate_spec(number, *land, trunk@, expected_head@),
{
    let n = hash_text(number);
    let readiness = classify_candidate(number, land, trunk);
    match readiness {
        Readiness::AlreadyMerged => StepGate::Settled(cat2(n.as_str(), " was already merged on GitHub; reconciling")),
        Readiness::AutomationRunning(story) => StepGate::Refused(story),
        Readiness::WaitingOnAutomatable(reasons) => {
            let j = crate::submit::join_strings(&reasons, "; ");
            StepGate::Refused(cat3(n.as_str(), " is no longer ready to merge: ", j.as_str()))
        },
        Readiness::Blocked(blockers) => {
            let ms = messages_of(&blockers);
            assert(blocker_messages(blockers@) =~= view_messages(blocker_views(blockers@)));
            let j = crate::submit::join_strings(&ms, "; ");
            StepGate::Refused(cat3(n.as_str(), " is no longer ready to merge: ", j.as_str()))
        },
        Readiness::Ready => {
            if !str_eq(land.head_commit.as_str(), expected_head) {
                StepGate::Refused(cat2(n.as_str(), "'s branch moved since this plan was made \u{2014} review the fresh plan and land again"))
            } else {
                StepGate::Proceed
            }
        },
    }
}

/// The auto-merge (`enqueue` false) or merge-queue (`enqueue` true)
/// step: a merged PR `n`, or one that the automation of GitHub
/// already holds, needs no write.
pub open spec fn queue_gate_spec(n: u64, land: PrLandState, enqueue: bool) -> GateView {
    let ns = hash_num(n);
    if land.state == PrState::Merged {
        GateView::Settled(ns + " already merged on GitHub \u{2014} run Land again to reconcile"@)
    } else if enqueue {
        if land.in_merge_queue {
            GateView::Settled(ns + " is already in the merge queue"@)
        } else {
            GateView::Proceed
        }
    } else if land.auto_merge_enabled {
        GateView::Settled("auto-merge is already enabled on "@ + ns)
    } else {
        GateView::Proceed
    }
}

/// The re-check before enabling auto-merge or enqueueing (see [`queue_gate_spec`]).
pub fn queue_gate(number: u64, land: &PrLandState, enqueue: bool) -> (r: StepGate)
    ensures
        r@ == queue_gate_spec(number, *land, enqueue),
{
    let n = hash_text(number);
    if land.state == PrState::Merged {
        return StepGate::Settled(cat2(n.as_str(), " already merged on GitHub \u{2014} run Land again to reconcile"));
    }
    if enqueue {
        if land.in_merge_queue {
            StepGate::Settled(cat2(n.as_str(), " is already in the merge queue"))
        } else {
            StepGate::Proceed
        }
    } else if land.auto_merge_enabled {
        StepGate::Settled(cat2("auto-merge is already enabled on ", n.as_str()))
    } else {
        StepGate::Proceed
    }
}

/// The re-check of PR `n` before retargeting it: a PR that is no longer open
/// keeps its base, and one GitHub already moved onto `to_base` needs no
/// write.
pub open spec fn retarget_gate_spec(n: u64, land: PrLandState, to_base: Seq<char>) -> GateView {
    let ns = hash_num(n);
    if land.state != PrState::Open {
        GateView::Settled(ns + " is no longer open; leaving its base alone"@)
    } else if land.base_branch@ == to_base {
        GateView::Settled("GitHub already retargeted "@ + ns + " onto "@ + to_base)
    } else {
        GateView::Proceed
    }
}

/// The re-check before retargeting (see [`retarget_gate_spec`]).
pub fn retarget_gate(number: u64, land: &PrLandState, to_base: &str) -> (r: StepGate)
    ensures
        r@ == retarget_gate_spec(number, *land, to_base@),
{
    let n = hash_text(number);
    if land.state != PrState::Open {
        return StepGate::Settled(cat2(n.as_str(), " is no longer open; leaving its base alone"));
    }
    if str_eq(land.base_branch.as_str(), to_base) {
        StepGate::Settled(cat4("GitHub already retargeted ", n.as_str(), " onto ", to_base))
    } else {
        StepGate::Proceed
    }
}

/// `r` is the success `m`.
pub open spec fn told_ok(r: Result<String, String>, m: Seq<char>) -> bool {
    r matches Ok(x) && x@ == m
}

/// `r` is the failure `m`.
pub open spec fn told_err(r: Result<String, String>, m: Seq<char>) -> bool {
    r matches Err(x) && x@ == m
}

/// A jj answer passed on: its summary, or its error's message.
pub open spec fn passed_on(a: Result<String, BackendError>, r: Result<String, String>) -> bool {
    match a {
        Ok(s) => told_ok(r, s@),
        Err(e) => told_err(r, backend_message(e)),
    }
}

/// A forge write's answer: the story `done`, or the forge's error.
pub open spec fn write_told(a: Result<(), ForgeError>, done: Seq<char>, r: Result<String, String>) -> bool {
    match a {
        Ok(()) => told_ok(r, done),
        Err(e) => told_err(r, error_message(e)),
    }
}

/// The story of merging PR `n` of bookmark `b` into `trunk`.
pub open spec fn merged_msg(n: u64, b: Seq<char>, trunk: Seq<char>) -> Seq<char> {
    "Merged "@ + hash_num(n) + " ("@ + b + ") into "@ + trunk
}

/// The merge step once PR `number` was freshly read as `land`: as
/// [`merge_gate_spec`] says; only when it says proceed is the PR merged,
/// by `method` at `eh`. A merge the forge refuses is read once more: when
/// it went through after all it counts as merged, else the forge's error
/// stands.
pub open spec fn merge_step<F: LandForge>(
    forge: &F,
    number: u64,
    bookmark: Seq<char>,
    method: MergeMethod,
    eh: Seq<char>,
    trunk: Seq<char>,
    land: PrLandState,
    r: Result<String, String>,
) -> bool {
    let done = merged_msg(number, bookmark, trunk);
    match merge_gate_spec(number, land, trunk, eh) {
        GateView::Settled(m) => told_ok(r, m),
        GateView::Refused(m) => told_err(r, m),
        GateView::Proceed => exists|merged: Result<(), ForgeError>|
            #[trigger] forge.merge_answer(number, method, eh, merged) && match merged {
                Ok(()) => told_ok(r, done),
                Err(err) => exists|reread: Result<PrLandState, ForgeError>|
                    #[trigger] forge.land_state_answer(number, trunk, reread) && if reread matches Ok(after)
                        && after.state == PrState::Merged {
                        told_ok(r, done + " (GitHub reported an error, but the merge went through)"@)
                    } else {
                        told_err(r, error_message(err))
                    },
            },
    }
}

/// The auto-merge (`enqueue` false) or merge-queue (`enqueue` true) step
/// once PR `number` was freshly read as `land`: as [`queue_gate_spec`]
/// says; when it says proceed, the forge is asked to enable auto-merge by
/// `method`, or to enqueue, for the PR's node.
pub open spec fn queue_step<F: LandForge>(
    forge: &F,
    number: u64,
    method: MergeMethod,
    enqueue: bool,
    land: PrLandState,
    r: Result<String, String>,
) -> bool {
    match queue_gate_spec(number, land, enqueue) {
        GateView::Settled(m) => told_ok(r, m),
        GateView::Refused(m) => told_err(r, m),
        GateView::Proceed => if enqueue {
            exists|a: Result<(), ForgeError>| #[trigger] forge.enqueue_answer(land.node_id@, a) && write_told(
                a,
                hash_num(number) + " added to the merge queue \u{2014} run Land again once it lands"@,
                r,
            )
        } else {
            exists|a: Result<(), ForgeError>| #[trigger] forge.auto_merge_answer(land.node_id@, method, a) && write_told(
                a,
                "Auto-merge enabled on "@ + hash_num(number)
                    + "; GitHub merges it once its requirements are met \u{2014} run Land again afterwards to reconcile"@,
                r,
            )
        },
    }
}

/// The retarget step once PR `number` was freshly read as `land`: as
/// [`retarget_gate_spec`] says; when it says proceed, the PR is retargeted
/// onto `to`.
pub open spec fn retarget_step<F: LandForge>(forge: &F, number: u64, to: Seq<char>, land: PrLandState, r: Result<String, String>) -> bool {
    match retarget_gate_spec(number, land, to) {
        GateView::Settled(m) => told_ok(r, m),
        GateView::Refused(m) => told_err(r, m),
        GateView::Proceed => exists|a: Result<(), ForgeError>|
            #[trigger] forge.retarget_answer(number, to, a) && write_told(a, "Retargeted "@ + hash_num(number) + " onto "@ + to, r),
    }
}

/// What a GitHub step comes to: PR `number` is read fresh against `trunk`
/// first; a failed read fails the step with the forge's error, a fresh
/// state goes to the step proper.
pub open spec fn github_step<F: LandForge>(forge: &F, action: LandAction, trunk: Seq<char>, r: Result<String, String>) -> bool {
    match action {
        LandAction::MergePr { number, bookmark, method, expected_head } => exists|fresh: Result<PrLandState, ForgeError>|
            #[trigger] forge.land_state_answer(number, trunk, fresh) && match fresh {
                Err(e) => told_err(r, error_message(e)),
                Ok(land) => merge_step(forge, number, bookmark@, method, expected_head@, trunk, land, r),
            },
        LandAction::EnableAutoMerge { number, method, .. } => exists|fresh: Result<PrLandState, ForgeError>|
            #[trigger] forge.land_state_answer(number, trunk, fresh) && match fresh {
                Err(e) => told_err(r, error_message(e)),
                Ok(land) => queue_step(forge, number, method, false, land, r),
            },
        LandAction::EnqueuePr { number, .. } => exists|fresh: Result<PrLandState, ForgeError>|
            #[trigger] forge.land_state_answer(number, trunk, fresh) && match fresh {
                Err(e) => told_err(r, error_message(e)),
                Ok(land) => queue_step(forge, number, MergeMethod::Squash, true, land, r),
            },
        LandAction::RetargetPr { number, to_base, .. } => exists|fresh: Result<PrLandState, ForgeError>|
            #[trigger] forge.land_state_answer(number, trunk, fresh) && match fresh {
                Err(e) => told_err(r, error_message(e)),
                Ok(land) => retarget_step(forge, number, to_base@, land, r),
            },
        _ => false,
    }
}

/// The detail a cleanup of bookmark `b` reports.
pub open spec fn cleanup_msg(b: Seq<char>, remote: Seq<char>, local: bool, on_remote: bool) -> Seq<char> {
    if local && on_remote {
        "Deleted \u{201c}"@ + b + "\u{201d} here and on "@ + remote
    } else if local {
        "Deleted \u{201c}"@ + b + "\u{201d}"@
    } else {
        "Removed \u{201c}"@ + b + "\u{201d}'s leftover branch on "@ + remote
    }
}

/// The cleanup after the local bookmark was dealt with: a bookmark with a
/// remote is pushed alone to `remote` (deleting it there).
pub open spec fn cleanup_rest<V: LandVcs>(vcs: &V, b: Seq<char>, remote: Seq<char>, local: bool, on_remote: bool, r: Result<String, String>) -> bool {
    if on_remote {
        exists|p: Result<String, BackendError>| #[trigger] vcs.push_answer(seq![b], remote, p) && match p {
            Err(e) => told_err(r, backend_message(e)),
            Ok(_) => told_ok(r, cleanup_msg(b, remote, local, true)),
        }
    } else {
        told_ok(r, cleanup_msg(b, remote, local, false))
    }
}

/// What a jj step comes to once the refreshed snapshot is `snap`.
pub open spec fn jj_step<V: LandVcs>(vcs: &V, action: LandAction, remote: Seq<char>, snap: RepoSnapshot, r: Result<String, String>) -> bool {
    match action {
        LandAction::RebaseOntoTrunk { root_change, .. } => match rebase_check_spec(snap, root_change@) {
            RebaseCheck::Gone => told_ok(r, root_change@ + " is already gone \u{2014} nothing left to rebase"@),
            RebaseCheck::OnTrunk => told_ok(r, root_change@ + " is already on the new trunk"@),
            RebaseCheck::Needed => exists|a: Result<String, BackendError>|
                #[trigger] vcs.rebase_answer(root_change@, a) && passed_on(a, r),
        },
        LandAction::PushStack { bookmarks } => {
            let live = still_pushable(snap.bookmarks@, str_views(bookmarks@));
            if live.len() == 0 {
                told_ok(r, "nothing left to push"@)
            } else {
                exists|a: Result<String, BackendError>| #[trigger] vcs.push_answer(live, remote, a) && passed_on(a, r)
            }
        },
        LandAction::CleanupBookmark { bookmark } => match cleanup_check_spec(snap, bookmark@) {
            None => told_ok(
                r,
                "\u{201c}"@ + bookmark@
                    + "\u{201d} is already gone \u{2014} GitHub deleted it on merge and the fetch pruned it here"@,
            ),
            Some((local, on_remote)) => if local {
                exists|d: Result<String, BackendError>| #[trigger] vcs.delete_answer(bookmark@, d) && match d {
                    Err(e) => told_err(r, backend_message(e)),
                    Ok(_) => cleanup_rest(vcs, bookmark@, remote, true, on_remote, r),
                }
            } else {
                cleanup_rest(vcs, bookmark@, remote, false, on_remote, r)
            },
        },
        LandAction::AbandonLanded { bookmark, change_ids } => {
            let swept = sweep_spec(snap.nodes@, str_views(change_ids@));
            if swept.len() == 0 {
                told_ok(r, "\u{201c}"@ + bookmark@ + "\u{201d}'s landed changes are already part of trunk's history"@)
            } else {
                exists|a: Result<String, BackendError>| #[trigger] vcs.abandon_answer(swept, a) && passed_on(a, r)
            }
        },
        _ => false,
    }
}

/// What one land step comes to, request by request. The GitHub steps
/// re-check the PR first (see [`github_step`]); a fetch passes on what the
/// fetch from its remote answered; every other jj step reads the latest
/// snapshot first and adapts to it (see [`jj_step`]).
pub open spec fn land_step_told<V: LandVcs, F: LandForge>(
    vcs: &V,
    forge: &F,
    action: LandAction,
    trunk: Seq<char>,
    remote: Seq<char>,
    r: Result<String, String>,
) -> bool {
    match action {
        LandAction::MergePr { .. } | LandAction::EnableAutoMerge { .. } | LandAction::EnqueuePr { .. }
        | LandAction::RetargetPr { .. } => github_step(forge, action, trunk, r),
        LandAction::FetchRemote { remote: from } => exists|a: Result<String, BackendError>|
            #[trigger] vcs.fetch_answer(from@, a) && passed_on(a, r),
        _ => exists|sa: Result<RepoSnapshot, BackendError>| #[trigger] vcs.snapshot_answer(sa) && match sa {
            Err(e) => told_err(r, backend_message(e)),
            Ok(snap) => jj_step(vcs, action, remote, snap, r),
        },
    }
}

/// One step; the answer is the step's plain-language detail, the error
/// the failure story. What it asks the host, and what it makes of each
/// answer, is [`land_step_told`].
fn run_land_step<V: LandVcs, F: LandForge>(action: &LandAction, plan: &LandPlan, vcs: &V, forge: &F) -> (r: Result<String, String>)
    ensures
        land_step_told(vcs, forge, *action, plan.base_branch@, plan.remote@, r),
{
    let trunk = plan.base_branch.as_str();
    match action {
        LandAction::MergePr { number, bookmark, method, expected_head } => {
            let n = hash_text(*number);
            let fresh = forge.pr_land_state(*number, trunk);
            let ghost fresh_seen = fresh;
            let land = match fresh {
                Ok(l) => l,
                Err(e) => {
                    let r = Err(e.message());
                    assert(forge.land_state_answer(*number, trunk@, fresh_seen));
                    return r;
                },
            };
            let gate = merge_gate(*number, &land, trunk, expected_head.as_str());
            let r = match gate {
                StepGate::Settled(m) => Ok(m),
                StepGate::Refused(m) => Err(m),
                StepGate::Proceed => {
                    let merged = forge.merge_pr(*number, *method, expected_head.as_str());
                    let ghost merged_seen = merged;
                    match merged {
                        Ok(()) => {
                            let r = Ok(cat6("Merged ", n.as_str(), " (", bookmark.as_str(), ") into ", trunk));
                            assert(forge.merge_answer(*number, *method, expected_head@, merged_seen));
                            r
                        },
                        Err(err) => {
                            let reread = forge.pr_land_state(*number, trunk);
                            let ghost reread_seen = reread;
                            let after_merge = match reread {
                                Ok(after) => after.state == PrState::Merged,
                                Err(_) => false,
                            };
                            let r = if after_merge {
                                let m = cat6("Merged ", n.as_str(), " (", bookmark.as_str(), ") into ", trunk);
                                Ok(cat2(m.as_str(), " (GitHub reported an error, but the merge went through)"))
                            } else {
                                Err(err.message())
                            };
                            assert(forge.land_state_answer(*number, trunk@, reread_seen));
                            assert(forge.merge_answer(*number, *method, expected_head@, merged_seen));
                            r
                        },
                    }
                },
            };
            assert(merge_step(forge, *number, bookmark@, *method, expected_head@, trunk@, land, r));
            assert(forge.land_state_answer(*number, trunk@, fresh_seen));
            r
        },
        LandAction::EnableAutoMerge { number, method, .. } => {
            let n = hash_text(*number);
            let fresh = forge.pr_land_state(*number, trunk);
            let ghost fresh_seen = fresh;
            let land = match fresh {
                Ok(l) => l,
                Err(e) => {
                    let r = Err(e.message());
                    assert(forge.land_state_answer(*number, trunk@, fresh_seen));
                    return r;
                },
            };
            let gate = queue_gate(*number, &land, false);
            let r = match gate {
                StepGate::Settled(m) => Ok(m),
                StepGate::Refused(m) => Err(m),
                StepGate::Proceed => {
                    let a = forge.enable_auto_merge(land.node_id.as_str(), *method);
                    let ghost seen = a;
                    let r = match a {
                        Ok(()) => Ok(cat3("Auto-merge enabled on ", n.as_str(), "; GitHub merges it once its requirements are met \u{2014} run Land again afterwards to reconcile")),
                        Err(e) => Err(e.message()),
                    };
                    assert(forge.auto_merge_answer(land.node_id@, *method, seen));
                    r
                },
            };
            assert(queue_step(forge, *number, *method, false, land, r));
            assert(forge.land_state_answer(*number, trunk@, fresh_seen));
            r
        },
        LandAction::EnqueuePr { number, .. } => {
            let n = hash_text(*number);
            let fresh = forge.pr_land_state(*number, trunk);
            let ghost fresh_seen = fresh;
            let land = match fresh {
                Ok(l) => l,
                Err(e) => {
                    let r = Err(e.message());
                    assert(forge.land_state_answer(*number, trunk@, fresh_seen));
                    return r;
                },
            };
            let gate = queue_gate(*number, &land, true);
            let r = match gate {
                StepGate::Settled(m) => Ok(m),
                StepGate::Refused(m) => Err(m),
                StepGate::Proceed => {
                    let a = forge.enqueue_pr(land.node_id.as_str());
                    let ghost seen = a;
                    let r = match a {
                        Ok(()) => Ok(cat2(n.as_str(), " added to the merge queue \u{2014} run Land again once it lands")),
                        Err(e) => Err(e.message()),
                    };
                    assert(forge.enqueue_answer(land.node_id@, seen));
                    r
                },
            };
            assert(queue_step(forge, *number, MergeMethod::Squash, true, land, r));
            assert(forge.land_state_answer(*number, trunk@, fresh_seen));
            r
        },
        LandAction::FetchRemote { remote } => {
            let a = vcs.git_fetch(remote.as_str());
            let ghost seen = a;
            let r = match a {
                Ok(s) => Ok(s),
                Err(e) => Err(e.message()),
            };
            assert(vcs.fetch_answer(remote@, seen) && passed_on(seen, r));
            r
        },
        LandAction::RetargetPr { number, to_base, .. } => {
            let n = hash_text(*number);
            let fresh = forge.pr_land_state(*number, trunk);
            let ghost fresh_seen = fresh;
            let land = match fresh {
                Ok(l) => l,
                Err(e) => {
                    let r = Err(e.message());
                    assert(forge.land_state_answer(*number, trunk@, fresh_seen));
                    return r;
                },
            };
            let gate = retarget_gate(*number, &land, to_base.as_str());
            let r = match gate {
                StepGate::Settled(m) => Ok(m),
                StepGate::Refused(m) => Err(m),
                StepGate::Proceed => {
                    let a = forge.update_pr_base(*number, to_base.as_str());
                    let ghost seen = a;
                    let r = match a {
                        Ok(()) => Ok(cat4("Retargeted ", n.as_str(), " onto ", to_base.as_str())),
                        Err(e) => Err(e.message()),
                    };
                    assert(forge.retarget_answer(*number, to_base@, seen));
                    r
                },
            };
            assert(retarget_step(forge, *number, to_base@, land, r));
            assert(forge.land_state_answer(*number, trunk@, fresh_seen));
            r
        },
        _ => {
            let sa = vcs.snapshot();
            let ghost sa_seen = sa;
            let snapshot = match sa {
                Ok(s) => s,
                Err(e) => {
                    let r = Err(e.message());
                    assert(vcs.snapshot_answer(sa_seen));
                    return r;
                },
            };
            let r = jj_step_exec(action, plan, vcs, &snapshot);
            assert(vcs.snapshot_answer(sa_seen));
            r
        },
    }
}

/// A jj step (see [`jj_step`]) once the latest snapshot is in.
fn jj_step_exec<V: LandVcs>(action: &LandAction, plan: &LandPlan, vcs: &V, snapshot: &RepoSnapshot) -> (r: Result<String, String>)
    requires
        action is RebaseOntoTrunk || action is PushStack || action is CleanupBookmark || action is AbandonLanded,
    ensures
        jj_step(vcs, *action, plan.remote@, *snapshot, r),
{
    match action {
        LandAction::RebaseOntoTrunk { root_change, .. } => match rebase_check(snapshot, root_change.as_str()) {
            RebaseCheck::Gone => Ok(cat2(root_change.as_str(), " is already gone \u{2014} nothing left to rebase")),
            RebaseCheck::OnTrunk => Ok(cat2(root_change.as_str(), " is already on the new trunk")),
            RebaseCheck::Needed => {
                let a = vcs.rebase_onto_trunk(root_change.as_str());
                let ghost seen = a;
                let r = match a {
                    Ok(s) => Ok(s),
                    Err(e) => Err(e.message()),
                };
                assert(vcs.rebase_answer(root_change@, seen) && passed_on(seen, r));
                r
            },
        },
        LandAction::PushStack { bookmarks } => {
            let live = live_to_push(snapshot, bookmarks);
            if live.len() == 0 {
                return Ok(crate::text::owned("nothing left to push"));
            }
            let a = vcs.push_bookmarks(live.as_slice(), plan.remote.as_str());
            let ghost seen = a;
            let r = match a {
                Ok(s) => Ok(s),
                Err(e) => Err(e.message()),
            };
            assert(vcs.push_answer(str_views(live@), plan.remote@, seen) && passed_on(seen, r));
            r
        },
        LandAction::CleanupBookmark { bookmark } => {
            let (was_local, had_remote) = match cleanup_check(snapshot, bookmark.as_str()) {
                Some(x) => x,
                None => return Ok(cat3("\u{201c}", bookmark.as_str(), "\u{201d} is already gone \u{2014} GitHub deleted it on merge and the fetch pruned it here")),
            };
            let ghost mut deleted: Result<String, BackendError> = arbitrary();
            if was_local {
                let d = vcs.delete_bookmark(bookmark.as_str());
                proof {
                    deleted = d;
                }
                match d {
                    Ok(_) => {},
                    Err(e) => {
                        let r = Err(e.message());
                        assert(vcs.delete_answer(bookmark@, deleted));
                        return r;
                    },
                }
            }
            let ghost mut pushed: Result<String, BackendError> = arbitrary();
            if had_remote {
                let one: Vec<String> = vec![bookmark.clone()];
                assert(str_views(one@) =~= seq![bookmark@]);
                let p = vcs.push_bookmarks(one.as_slice(), plan.remote.as_str());
                proof {
                    pushed = p;
                }
                match p {
                    Ok(_) => {},
                    Err(e) => {
                        let r = Err(e.message());
                        assert(vcs.push_answer(seq![bookmark@], plan.remote@, pushed));
                        if was_local {
                            assert(vcs.delete_answer(bookmark@, deleted));
                        }
                        return r;
                    },
                }
            }
            let r = if was_local && had_remote {
                Ok(cat4("Deleted \u{201c}", bookmark.as_str(), "\u{201d} here and on ", plan.remote.as_str()))
            } else if was_local {
                Ok(cat3("Deleted \u{201c}", bookmark.as_str(), "\u{201d}"))
            } else {
                Ok(cat4("Removed \u{201c}", bookmark.as_str(), "\u{201d}'s leftover branch on ", plan.remote.as_str()))
            };
            if had_remote {
                assert(vcs.push_answer(seq![bookmark@], plan.remote@, pushed));
            }
            assert(cleanup_rest(vcs, bookmark@, plan.remote@, was_local, had_remote, r));
            if was_local {
                assert(vcs.delete_answer(bookmark@, deleted));
            }
            r
        },
        LandAction::AbandonLanded { bookmark, change_ids } => {
            let swept = sweep(snapshot, change_ids);
            if swept.len() == 0 {
                return Ok(cat3("\u{201c}", bookmark.as_str(), "\u{201d}'s landed changes are already part of trunk's history"));
            }
            let a = vcs.abandon_changes(swept.as_slice());
            let ghost seen = a;
            let r = match a {
                Ok(s) => Ok(s),
                Err(e) => Err(e.message()),
            };
            assert(vcs.abandon_answer(str_views(swept@), seen) && passed_on(seen, r));
            r
        },
        _ => Err(String::new()),
    }
}

/// A step that ran reports what [`land_step_told`] says of its action:
/// a done step the detail, a failed one the failure story.
pub open spec fn step_ran<V: LandVcs, F: LandForge>(
    vcs: &V,
    forge: &F,
    action: LandAction,
    trunk: Seq<char>,
    remote: Seq<char>,
    step: LandStep,
) -> bool {
    match step.detail {
        Some(d) => land_step_told(vcs, forge, action, trunk, remote, if step.status == SubmitStepStatus::Done {
            Ok::<String, String>(d)
        } else {
            Err::<String, String>(d)
        }),
        None => false,
    }
}

/// Run a confirmed land plan. The first failure stops execution — later
/// steps report as skipped. The merge step re-checks GitHub just-in-time,
/// and every cleanup step adapts to the refreshed snapshot. A plan with
/// blockers refuses to run at all.
pub fn execute_land<V: LandVcs, F: LandForge>(plan: &LandPlan, vcs: &V, forge: &F) -> (r: Result<LandOutcome, ForgeError>)
    ensures
        plan.blockers@.len() > 0 ==> (r matches Err(ForgeError::Land(m)) && m@ == crate::submit::blocked_msg(blocker_messages(plan.blockers@))),
        plan.blockers@.len() == 0 ==> (r matches Ok(out) && {
            &&& out.steps@.len() == plan.actions@.len()
            &&& forall|i: int| 0 <= i < out.steps@.len() ==> (#[trigger] out.steps@[i]).action@ == plan.actions@[i]@
            &&& run_shape(land_statuses(out.steps@))
            &&& out.failed == exists|i: int| 0 <= i < out.steps@.len() && #[trigger] out.steps@[i].status == SubmitStepStatus::Failed
            &&& forall|i: int|
                0 <= i < out.steps@.len() ==> ((#[trigger] out.steps@[i]).detail is Some <==> out.steps@[i].status
                    != SubmitStepStatus::Skipped)
            &&& !out.failed ==> forall|i: int| 0 <= i < out.steps@.len() ==> #[trigger] out.steps@[i].status == SubmitStepStatus::Done
            &&& forall|i: int| 0 <= i < out.steps@.len() && #[trigger] out.steps@[i].status != SubmitStepStatus::Skipped
                ==> step_ran(vcs, forge, plan.actions@[i], plan.base_branch@, plan.remote@, out.steps@[i])
        }),
{
    if plan.blockers.len() > 0 {
        let j = crate::submit::join_strings(&messages_of(&plan.blockers), "; ");
        return Err(ForgeError::Land(cat2("the plan has blockers: ", j.as_str())));
    }
    let n = plan.actions.len();
    let mut steps: Vec<LandStep> = Vec::new();
    let mut k: usize = 0;
    while k < n
        invariant
            n == plan.actions@.len(),
            k <= n,
            steps@.len() == k,
            forall|i: int| 0 <= i < k ==> (#[trigger] steps@[i]).action@ == plan.actions@[i]@,
            forall|i: int| 0 <= i < k ==> (#[trigger] steps@[i]).status == SubmitStepStatus::Skipped,
            forall|i: int| 0 <= i < k ==> (#[trigger] steps@[i]).detail is None,
        decreases n - k,
    {
        steps.push(LandStep { action: plan.actions[k].duplicate(), status: SubmitStepStatus::Skipped, detail: None });
        k += 1;
    }
    let mut i: usize = 0;
    while i < n
        invariant
            n == plan.actions@.len(),
            plan.blockers@.len() == 0,
            i <= n,
            steps@.len() == n,
            forall|t: int| 0 <= t < n ==> (#[trigger] steps@[t]).action@ == plan.actions@[t]@,
            forall|t: int| 0 <= t < i ==> (#[trigger] steps@[t]).status == SubmitStepStatus::Done,
            forall|t: int| i <= t < n ==> (#[trigger] steps@[t]).status == SubmitStepStatus::Skipped,
            forall|t: int| 0 <= t < i ==> (#[trigger] steps@[t]).detail is Some,
            forall|t: int| i <= t < n ==> (#[trigger] steps@[t]).detail is None,
            forall|t: int| 0 <= t < i ==> step_ran(vcs, forge, plan.actions@[t], plan.base_branch@, plan.remote@, #[trigger] steps@[t]),
        decreases n - i,
    {
        let result = run_land_step(&plan.actions[i], plan, vcs, forge);
        match result {
            Ok(detail) => {
                let step = LandStep { action: steps[i].action.duplicate(), status: SubmitStepStatus::Done, detail: Some(detail) };
                steps.set(i, step);
            },
            Err(message) => {
                let step = LandStep { action: steps[i].action.duplicate(), status: SubmitStepStatus::Failed, detail: Some(message) };
                steps.set(i, step);
                proof {
                    let st = land_statuses(steps@);
                    assert forall|a: int, b: int| 0 <= a < b < st.len() && #[trigger] st[b] != SubmitStepStatus::Skipped implies #[trigger] st[a] == SubmitStepStatus::Done by {
                        assert(st[b] == steps@[b].status);
                        assert(st[a] == steps@[a].status);
                    }
                    assert forall|a: int, b: int| 0 <= a < b < st.len() && #[trigger] st[a] == SubmitStepStatus::Failed implies #[trigger] st[b] == SubmitStepStatus::Skipped by {
                        assert(st[b] == steps@[b].status);
                        assert(st[a] == steps@[a].status);
                    }
                    assert(steps@[i as int].status == SubmitStepStatus::Failed);
                }
                return Ok(LandOutcome { steps, failed: true });
            },
        }
        i += 1;
    }
    proof {
        let st = land_statuses(steps@);
        assert forall|a: int, b: int| 0 <= a < b < st.len() && #[trigger] st[b] != SubmitStepStatus::Skipped implies #[trigger] st[a] == SubmitStepStatus::Done by {
            assert(st[a] == steps@[a].status);
        }
        assert forall|a: int, b: int| 0 <= a < b < st.len() && #[trigger] st[a] == SubmitStepStatus::Failed implies #[trigger] st[b] == SubmitStepStatus::Skipped by {
            assert(st[a] == steps@[a].status);
        }
        assert forall|t: int| 0 <= t < n implies (#[trigger] steps@[t]).status != SubmitStepStatus::Failed by {}
    }
    Ok(LandOutcome { steps, failed: false })
}


/// Two landing actions with the same content.
pub fn same_land_action(a: &LandAction, b: &LandAction) -> (r: bool)
    ensures
        r == (a@ == b@),
{
    match (a, b) {
        (
            LandAction::MergePr { number: n1, bookmark: b1, method: m1, expected_head: h1 },
            LandAction::MergePr { number: n2, bookmark: b2, method: m2, expected_head: h2 },
        ) => *n1 == *n2 && str_eq(b1.as_str(), b2.as_str()) && *m1 == *m2 && str_eq(h1.as_str(), h2.as_str()),
        (
            LandAction::EnableAutoMerge { number: n1, bookmark: b1, method: m1 },
            LandAction::EnableAutoMerge { number: n2, bookmark: b2, method: m2 },
        ) => *n1 == *n2 && str_eq(b1.as_str(), b2.as_str()) && *m1 == *m2,
        (LandAction::EnqueuePr { number: n1, bookmark: b1 }, LandAction::EnqueuePr { number: n2, bookmark: b2 }) => {
            *n1 == *n2 && str_eq(b1.as_str(), b2.as_str())
        },
        (LandAction::FetchRemote { remote: r1 }, LandAction::FetchRemote { remote: r2 }) => str_eq(
            r1.as_str(),
            r2.as_str(),
        ),
        (
            LandAction::RebaseOntoTrunk { root_change: c1, moves: m1 },
            LandAction::RebaseOntoTrunk { root_change: c2, moves: m2 },
        ) => str_eq(c1.as_str(), c2.as_str()) && *m1 == *m2,
        (LandAction::PushStack { bookmarks: b1 }, LandAction::PushStack { bookmarks: b2 }) => {
            crate::text::str_lists_eq(b1.as_slice(), b2.as_slice())
        },
        (
            LandAction::RetargetPr { number: n1, bookmark: b1, to_base: t1 },
            LandAction::RetargetPr { number: n2, bookmark: b2, to_base: t2 },
        ) => *n1 == *n2 && str_eq(b1.as_str(), b2.as_str()) && str_eq(t1.as_str(), t2.as_str()),
        (LandAction::CleanupBookmark { bookmark: b1 }, LandAction::CleanupBookmark { bookmark: b2 }) => str_eq(
            b1.as_str(),
            b2.as_str(),
        ),
        (
            LandAction::AbandonLanded { bookmark: b1, change_ids: c1 },
            LandAction::AbandonLanded { bookmark: b2, change_ids: c2 },
        ) => str_eq(b1.as_str(), b2.as_str()) && crate::text::str_lists_eq(c1.as_slice(), c2.as_slice()),
        _ => false,
    }
}

/// Two lists of landing actions with the same content, in order.
pub fn same_land_actions(a: &[LandAction], b: &[LandAction]) -> (r: bool)
    ensures
        r == (land_action_views(a@) == land_action_views(b@)),
{
    if a.len() != b.len() {
        assert(land_action_views(a@).len() != land_action_views(b@).len());
        return false;
    }
    let mut i: usize = 0;
    while i < a.len()
        invariant
            i <= a@.len(),
            a@.len() == b@.len(),
            forall|k: int| 0 <= k < i ==> (#[trigger] a@[k])@ == b@[k]@,
        decreases a@.len() - i,
    {
        if !same_land_action(&a[i], &b[i]) {
            assert(land_action_views(a@)[i as int] != land_action_views(b@)[i as int]);
            return false;
        }
        i += 1;
    }
    assert(land_action_views(a@) =~= land_action_views(b@));
    true
}

} // verus!
