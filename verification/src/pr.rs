//! PR state mapping: GitHub's answers, reshaped into Jiji-owned values, and
//! the head-branch attachment view that badges and publish flows hang on.

use vstd::prelude::*;

use crate::codec::{as_bool, as_str, as_u64, element, member, Json};
use crate::error::{error_message, ForgeError};
use crate::text::{chars_eq, chars_of, dec, decimal, lower, lower_chars, push_all, push_str, string_of};

verus! {

/// One pull request's review-relevant state.
#[derive(Debug, Clone, PartialEq, Eq)]
pub struct PrSummary {
    pub number: u64,
    pub title: String,
    /// Web URL of the PR.
    pub url: String,
    pub state: PrState,
    pub is_draft: bool,
    /// Branch the PR merges from — the pushed bookmark's name.
    pub head_branch: String,
    /// Full commit id of the PR's current head.
    pub head_commit: String,
    /// Owner of the repo the head branch lives in; differs from the base
    /// repo's owner for cross-fork PRs, `None` when the fork is gone.
    pub head_owner: Option<String>,
    pub base_branch: String,
    /// The PR description, when GitHub answered it.
    pub body: Option<String>,
    pub review: ReviewDecision,
    pub checks: ChecksRollup,
}

#[derive(Debug, Clone, Copy, PartialEq, Eq, Structural)]
pub enum PrState {
    Open,
    Merged,
    Closed,
}

/// GitHub's `reviewDecision`: `NoDecision` when the repo does not require
/// reviews.
#[derive(Debug, Clone, Copy, PartialEq, Eq, Structural)]
pub enum ReviewDecision {
    Approved,
    ChangesRequested,
    ReviewRequired,
    NoDecision,
}

/// CI state of the PR's head commit, GitHub's own rollup across check runs
/// and commit statuses. `NoChecks` when nothing is configured.
#[derive(Debug, Clone, Copy, PartialEq, Eq, Structural)]
pub enum ChecksRollup {
    Passing,
    Failing,
    Pending,
    NoChecks,
}

/// Copy of an optional string.
pub fn clone_opt_string(o: &Option<String>) -> (r: Option<String>)
    ensures
        r == *o,
{
    match o {
        Some(s) => Some(s.clone()),
        None => None,
    }
}

impl PrSummary {
    /// A field-for-field copy.
    pub fn duplicate(&self) -> (r: PrSummary)
        ensures
            r == *self,
    {
        PrSummary {
            number: self.number,
            title: self.title.clone(),
            url: self.url.clone(),
            state: self.state,
            is_draft: self.is_draft,
            head_branch: self.head_branch.clone(),
            head_commit: self.head_commit.clone(),
            head_owner: clone_opt_string(&self.head_owner),
            base_branch: self.base_branch.clone(),
            body: clone_opt_string(&self.body),
            review: self.review,
            checks: self.checks,
        }
    }
}

/// Copy of an optional PR.
pub fn clone_opt_pr(o: &Option<PrSummary>) -> (r: Option<PrSummary>)
    ensures
        r == *o,
{
    match o {
        Some(p) => Some(p.duplicate()),
        None => None,
    }
}

/// The open-PR state of one repository.
#[derive(Debug, Clone, PartialEq, Eq)]
pub struct PrStateReport {
    pub prs: Vec<PrSummary>,
    /// True when the repo has more open PRs than the one batched query
    /// returns (capped at 100, newest-updated first).
    pub truncated: bool,
}

/// A PR whose head branch lives in the repo `owner` owns (compared
/// ASCII-case-insensitively); cross-fork and deleted-fork PRs are not.
pub open spec fn same_repo(pr: PrSummary, owner: Seq<char>) -> bool {
    match pr.head_owner {
        Some(h) => lower(h@) == lower(owner),
        None => false,
    }
}

/// The first PR of a list with the given head branch.
pub open spec fn lookup_branch(prs: Seq<PrSummary>, branch: Seq<char>) -> Option<PrSummary>
    decreases prs.len(),
{
    if prs.len() == 0 {
        None
    } else if prs[0].head_branch@ == branch {
        Some(prs[0])
    } else {
        lookup_branch(prs.drop_first(), branch)
    }
}

/// The head-branch index of the first `n` PRs: same-repo PRs only, the
/// first PR per branch kept.
pub open spec fn branch_index(prs: Seq<PrSummary>, owner: Seq<char>, n: int) -> Seq<PrSummary>
    decreases n,
{
    if n <= 0 {
        Seq::empty()
    } else {
        let prev = branch_index(prs, owner, n - 1);
        let pr = prs[n - 1];
        if same_repo(pr, owner) && lookup_branch(prev, pr.head_branch@) is None {
            prev.push(pr)
        } else {
            prev
        }
    }
}

/// No two entries share a head branch.
pub open spec fn unique_branches(prs: Seq<PrSummary>) -> bool {
    forall|i: int, j: int|
        0 <= i < j < prs.len() ==> #[trigger] prs[i].head_branch@ != #[trigger] prs[j].head_branch@
}

/// Head branch → PR, one entry per branch.
#[derive(Debug, Clone, PartialEq, Eq)]
pub struct BranchMap {
    entries: Vec<PrSummary>,
}

impl View for BranchMap {
    type V = Seq<PrSummary>;

    closed spec fn view(&self) -> Seq<PrSummary> {
        self.entries@
    }
}

impl BranchMap {
    /// The map is an index: no two entries share a head branch.
    pub closed spec fn wf(&self) -> bool {
        unique_branches(self.entries@)
    }

    /// The PR indexed under `branch`.
    pub open spec fn lookup(&self, branch: Seq<char>) -> Option<PrSummary> {
        lookup_branch(self@, branch)
    }

    /// An empty index.
    pub fn new() -> (r: BranchMap)
        ensures
            r@ == Seq::<PrSummary>::empty(),
    {
        BranchMap { entries: Vec::new() }
    }

    /// Number of indexed branches.
    pub fn len(&self) -> (r: usize)
        ensures
            r == self@.len(),
    {
        self.entries.len()
    }

    /// The PR indexed under `branch`.
    pub fn get(&self, branch: &str) -> (r: Option<&PrSummary>)
        ensures
            match r {
                Some(p) => self.lookup(branch@) == Some(*p),
                None => self.lookup(branch@) is None,
            },
    {
        let b = chars_of(branch);
        let mut i: usize = 0;
        assert(self.entries@.skip(0) =~= self.entries@);
        while i < self.entries.len()
            invariant
                i <= self.entries@.len(),
                b@ == branch@,
                lookup_branch(self.entries@, branch@) == lookup_branch(
                    self.entries@.skip(i as int),
                    branch@,
                ),
            decreases self.entries@.len() - i,
        {
            let h = chars_of(self.entries[i].head_branch.as_str());
            if chars_eq(&h, &b) {
                return Some(&self.entries[i]);
            }
            assert(self.entries@.skip(i as int).drop_first() =~= self.entries@.skip(i + 1int));
            i += 1;
        }
        None
    }

    /// Whether a PR is indexed under `branch`.
    pub fn contains_key(&self, branch: &str) -> (r: bool)
        ensures
            r == self.lookup(branch@) is Some,
    {
        self.get(branch).is_some()
    }

    /// The indexed PRs, in index order.
    pub fn values(&self) -> (r: &Vec<PrSummary>)
        ensures
            r@ == self@,
    {
        &self.entries
    }

    /// Replace the body recorded for the PR under `branch`.
    pub fn set_body(&mut self, branch: &str, body: Option<String>)
        ensures
            final(self)@ == match branch_position(old(self)@, branch@, 0) {
                Some(i) => old(self)@.update(i, PrSummary { body, ..old(self)@[i] }),
                None => old(self)@,
            },
    {
        let b = chars_of(branch);
        let mut i: usize = 0;
        while i < self.entries.len()
            invariant
                i <= self.entries@.len(),
                b@ == branch@,
                self.entries@ == old(self).entries@,
                branch_position(self.entries@, branch@, 0) == branch_position(self.entries@, branch@, i as int),
            decreases self.entries@.len() - i,
        {
            let h = chars_of(self.entries[i].head_branch.as_str());
            if chars_eq(&h, &b) {
                let mut p = self.entries[i].duplicate();
                p.body = body;
                self.entries.set(i, p);
                return;
            }
            i += 1;
        }
    }

    /// Drop the entry under `branch`.
    pub fn remove(&mut self, branch: &str)
        ensures
            final(self)@ == match branch_position(old(self)@, branch@, 0) {
                Some(i) => old(self)@.remove(i),
                None => old(self)@,
            },
    {
        let b = chars_of(branch);
        let mut i: usize = 0;
        while i < self.entries.len()
            invariant
                i <= self.entries@.len(),
                b@ == branch@,
                self.entries@ == old(self).entries@,
                branch_position(self.entries@, branch@, 0) == branch_position(self.entries@, branch@, i as int),
            decreases self.entries@.len() - i,
        {
            let h = chars_of(self.entries[i].head_branch.as_str());
            if chars_eq(&h, &b) {
                self.entries.remove(i);
                return;
            }
            i += 1;
        }
    }
}

/// The position of the first PR under `branch` at or after `i`.
pub open spec fn branch_position(prs: Seq<PrSummary>, branch: Seq<char>, i: int) -> Option<int>
    decreases prs.len() - i,
{
    if i < 0 || i >= prs.len() {
        None
    } else if prs[i].head_branch@ == branch {
        Some(i)
    } else {
        branch_position(prs, branch, i + 1)
    }
}

/// `lookup_branch` finds nothing in a list without that branch.
proof fn lemma_lookup_absent(prs: Seq<PrSummary>, branch: Seq<char>)
    requires
        forall|i: int| 0 <= i < prs.len() ==> #[trigger] prs[i].head_branch@ != branch,
    ensures
        lookup_branch(prs, branch) is None,
    decreases prs.len(),
{
    if prs.len() > 0 {
        assert forall|i: int| 0 <= i < prs.drop_first().len() implies #[trigger] prs.drop_first()[i].head_branch@ != branch by {
            assert(prs.drop_first()[i] == prs[i + 1]);
        }
        lemma_lookup_absent(prs.drop_first(), branch);
    }
}

/// `lookup_branch` finds an entry that is present.
proof fn lemma_lookup_present(prs: Seq<PrSummary>, k: int)
    requires
        0 <= k < prs.len(),
        unique_branches(prs),
    ensures
        lookup_branch(prs, prs[k].head_branch@) == Some(prs[k]),
    decreases prs.len(),
{
    if k > 0 {
        assert(unique_branches(prs.drop_first())) by {
            assert forall|i: int, j: int| 0 <= i < j < prs.drop_first().len() implies #[trigger] prs.drop_first()[i].head_branch@ != #[trigger] prs.drop_first()[j].head_branch@ by {
                assert(prs.drop_first()[i] == prs[i + 1]);
                assert(prs.drop_first()[j] == prs[j + 1]);
            }
        }
        assert(prs.drop_first()[k - 1] == prs[k]);
        assert(prs[0].head_branch@ != prs[k].head_branch@);
        lemma_lookup_present(prs.drop_first(), k - 1);
    }
}

/// `lookup_branch` answers an entry with the asked branch.
pub proof fn lemma_lookup_sound(prs: Seq<PrSummary>, branch: Seq<char>)
    ensures
        match lookup_branch(prs, branch) {
            Some(p) => p.head_branch@ == branch && prs.contains(p),
            None => forall|i: int| 0 <= i < prs.len() ==> #[trigger] prs[i].head_branch@ != branch,
        },
    decreases prs.len(),
{
    if prs.len() > 0 {
        lemma_lookup_sound(prs.drop_first(), branch);
        if prs[0].head_branch@ != branch {
            match lookup_branch(prs.drop_first(), branch) {
                Some(p) => {
                    let k = choose|k: int| 0 <= k < prs.drop_first().len() && prs.drop_first()[k] == p;
                    assert(prs[k + 1] == p);
                },
                None => {
                    assert forall|i: int| 0 <= i < prs.len() implies #[trigger] prs[i].head_branch@ != branch by {
                        if i > 0 {
                            assert(prs[i] == prs.drop_first()[i - 1]);
                        }
                    }
                },
            }
        } else {
            assert(prs[0] == prs[0]);
            assert(prs.contains(prs[0]));
        }
    }
}

/// Index PRs by head branch so forge state can attach to local bookmarks.
/// Cross-fork PRs are excluded — a fork's branch name says nothing about
/// this repo's bookmarks. When several same-repo PRs share a head branch,
/// the first — newest-updated, per the query's ordering — wins.
pub fn prs_by_branch(prs: &[PrSummary], owner: &str) -> (r: BranchMap)
    ensures
        r.wf(),
        r@ == branch_index(prs@, owner@, prs@.len() as int),
{
    let lowered_owner = lower_chars(&chars_of(owner));
    let mut map = BranchMap::new();
    let mut i: usize = 0;
    while i < prs.len()
        invariant
            i <= prs@.len(),
            lowered_owner@ == lower(owner@),
            map.entries@ == branch_index(prs@, owner@, i as int),
            unique_branches(map.entries@),
        decreases prs@.len() - i,
    {
        let pr = &prs[i];
        let same = match &pr.head_owner {
            Some(h) => {
                let lh = lower_chars(&chars_of(h.as_str()));
                chars_eq(&lh, &lowered_owner)
            },
            None => false,
        };
        if same {
            let found = map.get(pr.head_branch.as_str());
            if found.is_none() {
                proof {
                    lemma_lookup_sound(map.entries@, pr.head_branch@);
                }
                map.entries.push(pr.duplicate());
            }
        }
        i += 1;
    }
    map
}

/// The open-PR answer as the UI consumes it: the report plus its
/// bookmark-attachment view — head branch → PR, fork-filtered via
/// [`prs_by_branch`], so a local bookmark's badge is one lookup.
#[derive(Debug, Clone, PartialEq, Eq)]
pub struct RepoPrState {
    pub report: PrStateReport,
    pub by_branch: BranchMap,
}

impl RepoPrState {
    /// `owner` is the detected repo's owner — the fork rule's anchor.
    pub fn new(report: PrStateReport, owner: &str) -> (r: RepoPrState)
        ensures
            r.report == report,
            r.by_branch.wf(),
            r.by_branch@ == branch_index(report.prs@, owner@, report.prs@.len() as int),
    {
        let by_branch = prs_by_branch(&report.prs, owner);
        RepoPrState { report, by_branch }
    }

    /// The open PR whose head is `branch`, fork-filtered.
    pub open spec fn pr_for(&self, branch: Seq<char>) -> Option<PrSummary> {
        self.by_branch.lookup(branch)
    }
}

/// An index entry is the PR first seen for its branch among same-repo PRs.
pub proof fn lemma_index_entry_is_first(prs: Seq<PrSummary>, owner: Seq<char>, n: int, branch: Seq<char>)
    requires
        0 <= n <= prs.len(),
    ensures
        match lookup_branch(branch_index(prs, owner, n), branch) {
            Some(p) => exists|k: int|
                0 <= k < n && prs[k] == p && same_repo(p, owner) && p.head_branch@ == branch
                    && forall|j: int|
                    0 <= j < k ==> !(same_repo(#[trigger] prs[j], owner) && prs[j].head_branch@
                        == branch),
            None => forall|j: int|
                0 <= j < n ==> !(same_repo(#[trigger] prs[j], owner) && prs[j].head_branch@
                    == branch),
        },
    decreases n,
{
    if n > 0 {
        lemma_index_entry_is_first(prs, owner, n - 1, branch);
        let prev = branch_index(prs, owner, n - 1);
        let pr = prs[n - 1];
        lemma_lookup_sound(prev, branch);
        if same_repo(pr, owner) && lookup_branch(prev, pr.head_branch@) is None {
            lemma_lookup_sound(prev, pr.head_branch@);
            lemma_lookup_push(prev, pr, branch);
        }
    }
}

/// Looking up in a list extended by one entry.
proof fn lemma_lookup_push(prs: Seq<PrSummary>, p: PrSummary, branch: Seq<char>)
    ensures
        lookup_branch(prs.push(p), branch) == (match lookup_branch(prs, branch) {
            Some(q) => Some(q),
            None => if p.head_branch@ == branch {
                Some(p)
            } else {
                None
            },
        }),
    decreases prs.len(),
{
    if prs.len() > 0 {
        assert(prs.push(p)[0] == prs[0]);
        assert(prs.push(p).drop_first() =~= prs.drop_first().push(p));
        lemma_lookup_push(prs.drop_first(), p, branch);
    } else {
        assert(prs.push(p)[0] == p);
        assert(prs.push(p).drop_first() =~= Seq::<PrSummary>::empty());
        assert(lookup_branch(Seq::<PrSummary>::empty(), branch) is None);
    }
}


// ---------------------------------------------------------------------
// Reading GitHub's answers
// ---------------------------------------------------------------------

/// `str`'s `Debug` rendering (quoted and escaped).
pub uninterp spec fn debug_quote(s: Seq<char>) -> Seq<char>;

/// `format!("{:?}", s)` for a string: quoted, with `Debug`'s escapes.
#[verifier::external_body]
fn debug_quoted(s: &str) -> (r: String)
    ensures
        r@ == debug_quote(s@),
{
    format!("{s:?}")
}

/// `Option<&str>`'s `Debug` rendering.
pub open spec fn debug_opt(s: Option<Seq<char>>) -> Seq<char> {
    match s {
        Some(t) => "Some("@ + debug_quote(t) + ")"@,
        None => "None"@,
    }
}

/// `Option<&str>`'s `Debug` rendering, executed.
pub fn debug_opt_str(s: Option<&str>) -> (r: String)
    ensures
        r@ == debug_opt(
            match s {
                Some(t) => Some(t@),
                None => None,
            },
        ),
{
    match s {
        Some(t) => {
            let mut v = chars_of("Some(");
            push_str(&mut v, debug_quoted(t).as_str());
            push_str(&mut v, ")");
            string_of(&v)
        },
        None => crate::text::owned("None"),
    }
}

/// A PR state as GitHub spells it.
pub open spec fn pr_state_of(s: Option<Seq<char>>) -> Option<PrState> {
    if s == Some("OPEN"@) {
        Some(PrState::Open)
    } else if s == Some("MERGED"@) {
        Some(PrState::Merged)
    } else if s == Some("CLOSED"@) {
        Some(PrState::Closed)
    } else {
        None
    }
}

/// A review decision as GitHub spells it; anything else reads as none.
pub open spec fn review_of(s: Option<Seq<char>>) -> ReviewDecision {
    if s == Some("APPROVED"@) {
        ReviewDecision::Approved
    } else if s == Some("CHANGES_REQUESTED"@) {
        ReviewDecision::ChangesRequested
    } else if s == Some("REVIEW_REQUIRED"@) {
        ReviewDecision::ReviewRequired
    } else {
        ReviewDecision::NoDecision
    }
}

/// A check rollup state as GitHub spells it. A state this build does not
/// know yet is by definition not final; no rollup reads as no checks.
pub open spec fn checks_of(s: Option<Seq<char>>) -> ChecksRollup {
    match s {
        None => ChecksRollup::NoChecks,
        Some(t) => if t == "SUCCESS"@ {
            ChecksRollup::Passing
        } else if t == "FAILURE"@ || t == "ERROR"@ {
            ChecksRollup::Failing
        } else {
            ChecksRollup::Pending
        },
    }
}

/// The rollup state of a PR node's head commit.
pub open spec fn rollup_state(node: Json) -> Option<Seq<char>> {
    as_str(
        member(
            member(member(element(member(member(node, "commits"@), "nodes"@), 0), "commit"@), "statusCheckRollup"@),
            "state"@,
        ),
    )
}

/// Whether a JSON string reads as the literal.
fn str_is(j: &Json, lit: &str) -> (r: bool)
    ensures
        r == (as_str(*j) == Some(lit@)),
{
    match j.str_value() {
        Some(s) => crate::text::str_eq(s, lit),
        None => false,
    }
}

/// `pr_state_of` executed.
pub fn pr_state_from(j: &Json) -> (r: Option<PrState>)
    ensures
        r == pr_state_of(as_str(*j)),
{
    if str_is(j, "OPEN") {
        Some(PrState::Open)
    } else if str_is(j, "MERGED") {
        Some(PrState::Merged)
    } else if str_is(j, "CLOSED") {
        Some(PrState::Closed)
    } else {
        None
    }
}

/// `review_of` executed.
pub fn review_from(j: &Json) -> (r: ReviewDecision)
    ensures
        r == review_of(as_str(*j)),
{
    if str_is(j, "APPROVED") {
        ReviewDecision::Approved
    } else if str_is(j, "CHANGES_REQUESTED") {
        ReviewDecision::ChangesRequested
    } else if str_is(j, "REVIEW_REQUIRED") {
        ReviewDecision::ReviewRequired
    } else {
        ReviewDecision::NoDecision
    }
}

/// `checks_of` of a PR node's rollup, executed.
pub fn checks_from(node: &Json) -> (r: ChecksRollup)
    ensures
        r == checks_of(rollup_state(*node)),
{
    let j = node.get("commits").get("nodes").at(0).get("commit").get("statusCheckRollup").get("state");
    match j.str_value() {
        None => ChecksRollup::NoChecks,
        Some(_) => if str_is(j, "SUCCESS") {
            ChecksRollup::Passing
        } else if str_is(j, "FAILURE") || str_is(j, "ERROR") {
            ChecksRollup::Failing
        } else {
            ChecksRollup::Pending
        },
    }
}

/// The message of the error an unexpected answer reports.
pub open spec fn malformed_msg(what: Seq<char>) -> Seq<char> {
    "GitHub request failed: unexpected GitHub answer: "@ + what
}

/// The error an unexpected answer reports.
pub fn malformed(what: &str) -> (r: ForgeError)
    ensures
        error_message(r) == malformed_msg(what@),
        r is Api,
{
    let mut v = chars_of("unexpected GitHub answer: ");
    push_str(&mut v, what);
    proof {
        reveal_strlit("GitHub request failed: ");
        reveal_strlit("unexpected GitHub answer: ");
        reveal_strlit("GitHub request failed: unexpected GitHub answer: ");
        assert("GitHub request failed: "@ + v@ =~= malformed_msg(what@));
    }
    ForgeError::Api(string_of(&v))
}

/// The string member `key`, if it is one.
pub open spec fn str_member(node: Json, key: Seq<char>) -> Option<String> {
    match member(node, key) {
        Json::Str(s) => Some(s),
        _ => None,
    }
}

/// One PR node of the open-PRs answer, or the message of the error it
/// reports. Fields are read in order; the first missing one is reported.
pub open spec fn pr_node_spec(node: Json) -> Result<PrSummary, Seq<char>> {
    match as_u64(member(node, "number"@)) {
        None => Err(malformed_msg("pull request without a number"@)),
        Some(n) => {
            let missing = |key: Seq<char>| malformed_msg("pull request #"@ + dec(n as nat) + " missing "@ + key);
            let st = as_str(member(node, "state"@));
            match pr_state_of(st) {
                None => Err(malformed_msg("pull request #"@ + dec(n as nat) + " has unexpected state "@ + debug_opt(st))),
                Some(state) => match (
                    str_member(node, "title"@),
                    str_member(node, "url"@),
                    str_member(node, "headRefName"@),
                    str_member(node, "headRefOid"@),
                    str_member(node, "baseRefName"@),
                ) {
                    (None, _, _, _, _) => Err(missing("title"@)),
                    (_, None, _, _, _) => Err(missing("url"@)),
                    (_, _, None, _, _) => Err(missing("headRefName"@)),
                    (_, _, _, None, _) => Err(missing("headRefOid"@)),
                    (_, _, _, _, None) => Err(missing("baseRefName"@)),
                    (Some(title), Some(url), Some(head_branch), Some(head_commit), Some(base_branch)) => Ok(PrSummary {
                        number: n,
                        title,
                        url,
                        state,
                        is_draft: match as_bool(member(node, "isDraft"@)) {
                            Some(b) => b,
                            None => false,
                        },
                        head_branch,
                        head_commit,
                        head_owner: str_member(member(node, "headRepositoryOwner"@), "login"@),
                        base_branch,
                        body: str_member(node, "body"@),
                        review: review_of(as_str(member(node, "reviewDecision"@))),
                        checks: checks_of(rollup_state(node)),
                    }),
                },
            }
        },
    }
}

/// The PR nodes in order, or the first node's error.
pub open spec fn pr_nodes_spec(a: Seq<Json>) -> Result<Seq<PrSummary>, Seq<char>>
    decreases a.len(),
{
    if a.len() == 0 {
        Ok(Seq::empty())
    } else {
        match pr_nodes_spec(a.drop_last()) {
            Err(m) => Err(m),
            Ok(p) => match pr_node_spec(a.last()) {
                Err(m) => Err(m),
                Ok(pr) => Ok(p.push(pr)),
            },
        }
    }
}

/// The open-PRs answer as (PRs, truncated), or the message of its error.
pub open spec fn open_prs_spec(data: Json) -> Result<(Seq<PrSummary>, bool), Seq<char>> {
    let repo = member(data, "repository"@);
    if repo is Null {
        Err("Not found on GitHub: the repository is not visible to this token"@)
    } else {
        let conn = member(repo, "pullRequests"@);
        let truncated = match as_bool(member(member(conn, "pageInfo"@), "hasNextPage"@)) {
            Some(b) => b,
            None => false,
        };
        match member(conn, "nodes"@) {
            Json::Array(a) => match pr_nodes_spec(a@) {
                Ok(prs) => Ok((prs, truncated)),
                Err(m) => Err(m),
            },
            _ => Err(malformed_msg("pullRequests.nodes missing"@)),
        }
    }
}

/// The string member `key`, or the "missing" error for PR `n`.
fn str_field(node: &Json, key: &str, n: u64) -> (r: Result<String, ForgeError>)
    ensures
        match r {
            Ok(s) => str_member(*node, key@) == Some(s),
            Err(e) => str_member(*node, key@) is None && error_message(e) == malformed_msg(
                "pull request #"@ + dec(n as nat) + " missing "@ + key@,
            ),
        },
{
    match node.get(key) {
        Json::Str(s) => Ok(s.clone()),
        _ => {
            let mut v = chars_of("pull request #");
            push_all(&mut v, &decimal(n));
            push_str(&mut v, " missing ");
            push_str(&mut v, key);
            let what = string_of(&v);
            Err(malformed(what.as_str()))
        },
    }
}

/// An optional string member.
fn opt_str_field(node: &Json, key: &str) -> (r: Option<String>)
    ensures
        r == str_member(*node, key@),
{
    match node.get(key) {
        Json::Str(s) => Some(s.clone()),
        _ => None,
    }
}

/// One PR node of the open-PRs answer.
fn parse_pr_node(node: &Json) -> (r: Result<PrSummary, ForgeError>)
    ensures
        match r {
            Ok(pr) => pr_node_spec(*node) == Ok::<PrSummary, Seq<char>>(pr),
            Err(e) => pr_node_spec(*node) == Err::<PrSummary, Seq<char>>(error_message(e)),
        },
{
    let n = match node.get("number").u64_value() {
        Some(n) => n,
        None => return Err(malformed("pull request without a number")),
    };
    let st = node.get("state");
    let state = match pr_state_from(st) {
        Some(s) => s,
        None => {
            let mut v = chars_of("pull request #");
            push_all(&mut v, &decimal(n));
            push_str(&mut v, " has unexpected state ");
            push_str(&mut v, debug_opt_str(st.str_value()).as_str());
            let what = string_of(&v);
            return Err(malformed(what.as_str()));
        },
    };
    let title = match str_field(node, "title", n) {
        Ok(s) => s,
        Err(e) => return Err(e),
    };
    let url = match str_field(node, "url", n) {
        Ok(s) => s,
        Err(e) => return Err(e),
    };
    let head_branch = match str_field(node, "headRefName", n) {
        Ok(s) => s,
        Err(e) => return Err(e),
    };
    let head_commit = match str_field(node, "headRefOid", n) {
        Ok(s) => s,
        Err(e) => return Err(e),
    };
    let base_branch = match str_field(node, "baseRefName", n) {
        Ok(s) => s,
        Err(e) => return Err(e),
    };
    Ok(
        PrSummary {
            number: n,
            title,
            url,
            state,
            is_draft: match node.get("isDraft").bool_value() {
                Some(b) => b,
                None => false,
            },
            head_branch,
            head_commit,
            head_owner: opt_str_field(node.get("headRepositoryOwner"), "login"),
            base_branch,
            body: opt_str_field(node, "body"),
            review: review_from(node.get("reviewDecision")),
            checks: checks_from(node),
        },
    )
}

/// Reshape the batched open-PRs GraphQL answer (`data`) into the report.
/// A missing repository is `NotFound`; malformed nodes are refused, not
/// skipped.
pub fn parse_open_prs(data: &Json) -> (r: Result<PrStateReport, ForgeError>)
    ensures
        match r {
            Ok(report) => open_prs_spec(*data) == Ok::<(Seq<PrSummary>, bool), Seq<char>>((report.prs@, report.truncated)),
            Err(e) => open_prs_spec(*data) == Err::<(Seq<PrSummary>, bool), Seq<char>>(error_message(e)),
        },
{
    let repo = data.get("repository");
    if repo.is_null() {
        let m = crate::text::owned("the repository is not visible to this token");
        proof {
            reveal_strlit("Not found on GitHub: ");
            reveal_strlit("the repository is not visible to this token");
            reveal_strlit("Not found on GitHub: the repository is not visible to this token");
            assert("Not found on GitHub: "@ + m@ =~= "Not found on GitHub: the repository is not visible to this token"@);
        }
        return Err(ForgeError::NotFound(m));
    }
    let conn = repo.get("pullRequests");
    let truncated = match conn.get("pageInfo").get("hasNextPage").bool_value() {
        Some(b) => b,
        None => false,
    };
    let nodes = match conn.get("nodes") {
        Json::Array(a) => a,
        _ => return Err(malformed("pullRequests.nodes missing")),
    };
    let mut prs: Vec<PrSummary> = Vec::new();
    let mut i: usize = 0;
    while i < nodes.len()
        invariant
            i <= nodes@.len(),
            pr_nodes_spec(nodes@.take(i as int)) == Ok::<Seq<PrSummary>, Seq<char>>(prs@),
            !(member(*data, "repository"@) is Null),
            member(member(member(*data, "repository"@), "pullRequests"@), "nodes"@) == Json::Array(*nodes),
            truncated == match as_bool(member(member(member(member(*data, "repository"@), "pullRequests"@), "pageInfo"@), "hasNextPage"@)) {
                Some(b) => b,
                None => false,
            },
        decreases nodes@.len() - i,
    {
        proof {
            let t = nodes@.take(i + 1);
            assert(t.drop_last() =~= nodes@.take(i as int));
            assert(t.last() == nodes@[i as int]);
        }
        match parse_pr_node(&nodes[i]) {
            Ok(pr) => prs.push(pr),
            Err(e) => {
                proof {
                    lemma_nodes_err_prefix(nodes@, i + 1, error_message(e));
                }
                return Err(e);
            },
        }
        i += 1;
    }
    assert(nodes@.take(nodes@.len() as int) =~= nodes@);
    Ok(PrStateReport { prs, truncated })
}

/// An error in a prefix of the nodes is the error of the whole answer.
proof fn lemma_nodes_err_prefix(a: Seq<Json>, k: int, m: Seq<char>)
    requires
        0 <= k <= a.len(),
        pr_nodes_spec(a.take(k)) == Err::<Seq<PrSummary>, Seq<char>>(m),
    ensures
        pr_nodes_spec(a) == Err::<Seq<PrSummary>, Seq<char>>(m),
    decreases a.len() - k,
{
    if k < a.len() {
        assert(a.take(k + 1).drop_last() =~= a.take(k));
        lemma_nodes_err_prefix(a, k + 1, m);
    } else {
        assert(a.take(k) =~= a);
    }
}


// ---------------------------------------------------------------------
// One PR as the REST API answers it
// ---------------------------------------------------------------------

/// The string a JSON value holds, if it is one.
pub open spec fn str_val(j: Json) -> Option<String> {
    match j {
        Json::Str(s) => Some(s),
        _ => None,
    }
}

/// A REST PR's state: a merge time marks it merged; otherwise GitHub's
/// lower-case `open` or `closed`.
pub open spec fn rest_state_of(node: Json) -> Option<PrState> {
    if as_str(member(node, "merged_at"@)) is Some {
        Some(PrState::Merged)
    } else if as_str(member(node, "state"@)) == Some("open"@) {
        Some(PrState::Open)
    } else if as_str(member(node, "state"@)) == Some("closed"@) {
        Some(PrState::Closed)
    } else {
        None
    }
}

/// One REST pull-request object (`GET /pulls/{n}`, the list endpoints,
/// the create answer), or the message of the error it reports. REST
/// carries no review decision or check rollup: those read as none.
pub open spec fn rest_pr_spec(node: Json) -> Result<PrSummary, Seq<char>> {
    match as_u64(member(node, "number"@)) {
        None => Err(malformed_msg("pull request without a number"@)),
        Some(n) => {
            let missing = |key: Seq<char>| malformed_msg("pull request #"@ + dec(n as nat) + " missing "@ + key);
            let head = member(node, "head"@);
            match rest_state_of(node) {
                None => Err(
                    malformed_msg(
                        "pull request #"@ + dec(n as nat) + " has unexpected state "@ + debug_opt(
                            as_str(member(node, "state"@)),
                        ),
                    ),
                ),
                Some(state) => match (
                    str_member(node, "title"@),
                    str_member(node, "html_url"@),
                    str_val(member(head, "ref"@)),
                    str_val(member(head, "sha"@)),
                    str_val(member(member(node, "base"@), "ref"@)),
                ) {
                    (None, _, _, _, _) => Err(missing("title"@)),
                    (_, None, _, _, _) => Err(missing("html_url"@)),
                    (_, _, None, _, _) => Err(missing("head.ref"@)),
                    (_, _, _, None, _) => Err(missing("head.sha"@)),
                    (_, _, _, _, None) => Err(missing("base.ref"@)),
                    (Some(title), Some(url), Some(head_branch), Some(head_commit), Some(base_branch)) => Ok(
                        PrSummary {
                            number: n,
                            title,
                            url,
                            state,
                            is_draft: match as_bool(member(node, "draft"@)) {
                                Some(b) => b,
                                None => false,
                            },
                            head_branch,
                            head_commit,
                            head_owner: str_member(member(member(head, "repo"@), "owner"@), "login"@),
                            base_branch,
                            body: str_member(node, "body"@),
                            review: ReviewDecision::NoDecision,
                            checks: ChecksRollup::NoChecks,
                        },
                    ),
                },
            }
        },
    }
}

/// A string value, or the "missing" error for PR `n` naming `label`.
fn req_str(j: &Json, label: &str, n: u64) -> (r: Result<String, ForgeError>)
    ensures
        match r {
            Ok(s) => str_val(*j) == Some(s),
            Err(e) => str_val(*j) is None && error_message(e) == malformed_msg(
                "pull request #"@ + dec(n as nat) + " missing "@ + label@,
            ),
        },
{
    match j {
        Json::Str(s) => Ok(s.clone()),
        _ => {
            let mut v = chars_of("pull request #");
            push_all(&mut v, &decimal(n));
            push_str(&mut v, " missing ");
            push_str(&mut v, label);
            let what = string_of(&v);
            Err(malformed(what.as_str()))
        },
    }
}

/// One REST pull-request object reshaped into a summary.
pub fn parse_rest_pr(node: &Json) -> (r: Result<PrSummary, ForgeError>)
    ensures
        match r {
            Ok(pr) => rest_pr_spec(*node) == Ok::<PrSummary, Seq<char>>(pr),
            Err(e) => rest_pr_spec(*node) == Err::<PrSummary, Seq<char>>(error_message(e)),
        },
{
    let n = match node.get("number").u64_value() {
        Some(n) => n,
        None => return Err(malformed("pull request without a number")),
    };
    let st = node.get("state");
    let state = if node.get("merged_at").str_value().is_some() {
        PrState::Merged
    } else if str_is(st, "open") {
        PrState::Open
    } else if str_is(st, "closed") {
        PrState::Closed
    } else {
        let mut v = chars_of("pull request #");
        push_all(&mut v, &decimal(n));
        push_str(&mut v, " has unexpected state ");
        push_str(&mut v, debug_opt_str(st.str_value()).as_str());
        let what = string_of(&v);
        return Err(malformed(what.as_str()));
    };
    let head = node.get("head");
    let title = match req_str(node.get("title"), "title", n) {
        Ok(s) => s,
        Err(e) => return Err(e),
    };
    let url = match req_str(node.get("html_url"), "html_url", n) {
        Ok(s) => s,
        Err(e) => return Err(e),
    };
    let head_branch = match req_str(head.get("ref"), "head.ref", n) {
        Ok(s) => s,
        Err(e) => return Err(e),
    };
    let head_commit = match req_str(head.get("sha"), "head.sha", n) {
        Ok(s) => s,
        Err(e) => return Err(e),
    };
    let base_branch = match req_str(node.get("base").get("ref"), "base.ref", n) {
        Ok(s) => s,
        Err(e) => return Err(e),
    };
    Ok(
        PrSummary {
            number: n,
            title,
            url,
            state,
            is_draft: match node.get("draft").bool_value() {
                Some(b) => b,
                None => false,
            },
            head_branch,
            head_commit,
            head_owner: opt_str_field(head.get("repo").get("owner"), "login"),
            base_branch,
            body: opt_str_field(node, "body"),
            review: ReviewDecision::NoDecision,
            checks: ChecksRollup::NoChecks,
        },
    )
}

} // verus!
