//! Ship directly to trunk: moving the trunk bookmark to a stack's head and
//! pushing it — the PR-less way to land work when repo policy allows
//! pushing trunk — as the same plan → confirm → execute shape as submit
//! and land.
//!
//! The host fetches before planning, so the plan previews against current
//! remote state and says whether a rebase is needed; the push's
//! force-with-lease expectation is the trunk-moved-again guard. Like
//! submit, an already-shipped stack plans zero actions instead of failing.

use vstd::prelude::*;

use crate::error::{backend_message, error_message, BackendError, ForgeError};
use crate::land::{first_node, passed_on, run_shape, told_ok};
use crate::pr::RepoPrState;
use crate::snapshot::{
    bookmark_conflicted, find_node, is_bookmark_conflicted, lemma_node_index, node_index,
    BookmarkState, GraphNode, NodeKind, RepoSnapshot, SyncState,
};
use crate::submit::{
    blocked_msg, change_blockers, join_strings, segment_blockers, str_views, SubmitStepStatus,
};
use crate::text::{
    cat2, cat3, cat4, cat5, chars_of, dec, lines, lines_of, push_str, str_eq, string_of,
};

verus! {

/// One shipping action, in execution order.
#[derive(Debug, Clone, PartialEq, Eq)]
pub enum ShipAction {
    /// Rebase the stack (the root and all its descendants) onto the
    /// fetched trunk first.
    RebaseOntoTrunk { root_change: String, moves: u32 },
    /// Point the trunk bookmark at the stack's head.
    MoveTrunk { bookmark: String, to: String },
    /// Push the trunk bookmark, force-with-lease inside.
    PushTrunk { bookmark: String, remote: String },
    /// The working copy ships with the stack: start a fresh empty change
    /// on the new trunk.
    NewWorkingCopy { on: String },
}

/// The content of a shipping action.
pub ghost enum ShipActionView {
    RebaseOntoTrunk { root_change: Seq<char>, moves: u32 },
    MoveTrunk { bookmark: Seq<char>, to: Seq<char> },
    PushTrunk { bookmark: Seq<char>, remote: Seq<char> },
    NewWorkingCopy { on: Seq<char> },
}

impl View for ShipAction {
    type V = ShipActionView;

    open spec fn view(&self) -> ShipActionView {
        match self {
            ShipAction::RebaseOntoTrunk { root_change, moves } => ShipActionView::RebaseOntoTrunk {
                root_change: root_change@,
                moves: *moves,
            },
            ShipAction::MoveTrunk { bookmark, to } => ShipActionView::MoveTrunk { bookmark: bookmark@, to: to@ },
            ShipAction::PushTrunk { bookmark, remote } => ShipActionView::PushTrunk { bookmark: bookmark@, remote: remote@ },
            ShipAction::NewWorkingCopy { on } => ShipActionView::NewWorkingCopy { on: on@ },
        }
    }
}

impl ShipAction {
    /// A copy with the same content.
    pub fn duplicate(&self) -> (r: ShipAction)
        ensures
            r@ == self@,
    {
        match self {
            ShipAction::RebaseOntoTrunk { root_change, moves } => ShipAction::RebaseOntoTrunk {
                root_change: root_change.clone(),
                moves: *moves,
            },
            ShipAction::MoveTrunk { bookmark, to } => ShipAction::MoveTrunk { bookmark: bookmark.clone(), to: to.clone() },
            ShipAction::PushTrunk { bookmark, remote } => ShipAction::PushTrunk { bookmark: bookmark.clone(), remote: remote.clone() },
            ShipAction::NewWorkingCopy { on } => ShipAction::NewWorkingCopy { on: on.clone() },
        }
    }
}

/// The contents of a list of shipping actions.
pub open spec fn ship_action_views(v: Seq<ShipAction>) -> Seq<ShipActionView> {
    v.map_values(|a: ShipAction| a@)
}

/// What shipping a stack to trunk will do, derived before anything runs.
#[derive(Debug, Clone, PartialEq, Eq)]
pub struct ShipPlan {
    /// The stack head being shipped (a snapshot node id).
    pub head_change: String,
    /// First line of the head's description, for the panel.
    pub head_title: String,
    pub trunk_bookmark: String,
    pub remote: String,
    /// The shipped chain, bottom-up (first parents from trunk to head).
    pub change_ids: Vec<String>,
    /// Everything this run will do, in order. Empty with no blockers
    /// means the stack is already shipped.
    pub actions: Vec<ShipAction>,
    /// Problems that stop the plan from running at all.
    pub blockers: Vec<String>,
    pub warnings: Vec<String>,
}

#[derive(Debug, Clone, PartialEq, Eq)]
pub struct ShipStep {
    pub action: ShipAction,
    pub status: SubmitStepStatus,
    /// Plain-language result: what happened, or why it was skipped.
    pub detail: Option<String>,
}

#[derive(Debug, Clone, PartialEq, Eq)]
pub struct ShipOutcome {
    pub steps: Vec<ShipStep>,
    pub failed: bool,
}

/// The jj side of executing a ship plan, host-implemented; `snapshot`
/// answers the latest snapshot so steps can skip politely.
///
/// Each request has a name for its answers, which a host may define (one
/// that does not leaves every answer open) and the library assumes nothing
/// of: it only lets a contract say which request, with which arguments, an
/// answer came from.
pub trait ShipVcs {
    /// `r` answers a request for the latest snapshot.
    closed spec fn snapshot_answer(&self, r: Result<RepoSnapshot, BackendError>) -> bool {
        true
    }

    /// `r` answers a rebase of the changes from `root` onto trunk.
    closed spec fn rebase_answer(&self, root: Seq<char>, r: Result<String, BackendError>) -> bool {
        true
    }

    /// `r` answers moving bookmark `name` to change `to`.
    closed spec fn move_answer(&self, name: Seq<char>, to: Seq<char>, r: Result<String, BackendError>) -> bool {
        true
    }

    /// `r` answers a push of `bookmarks` to `remote`.
    closed spec fn push_answer(&self, bookmarks: Seq<Seq<char>>, remote: Seq<char>, r: Result<String, BackendError>) -> bool {
        true
    }

    /// `r` answers starting a new change on `parent`.
    closed spec fn new_change_answer(&self, parent: Seq<char>, r: Result<String, BackendError>) -> bool {
        true
    }

    fn snapshot(&self) -> (r: Result<RepoSnapshot, BackendError>)
        ensures
            self.snapshot_answer(r),
    ;

    /// `jj rebase -s <root> -d <trunk>`.
    fn rebase_onto_trunk(&self, root_change: &str) -> (r: Result<String, BackendError>)
        ensures
            self.rebase_answer(root_change@, r),
    ;

    fn move_bookmark(&self, name: &str, to_change: &str) -> (r: Result<String, BackendError>)
        ensures
            self.move_answer(name@, to_change@, r),
    ;

    fn push_bookmarks(&self, bookmarks: &[String], remote: &str) -> (r: Result<String, BackendError>)
        ensures
            self.push_answer(str_views(bookmarks@), remote@, r),
    ;

    /// `jj new <rev>`.
    fn new_change(&self, parent_change: &str) -> (r: Result<String, BackendError>)
        ensures
            self.new_change_answer(parent_change@, r),
    ;
}

// ---------------------------------------------------------------------
// Planning
// ---------------------------------------------------------------------

/// The first trunk bookmark.
pub open spec fn trunk_index(bms: Seq<BookmarkState>, t: int) -> Option<int>
    decreases bms.len() - t,
{
    if t < 0 || t >= bms.len() {
        None
    } else if bms[t].is_trunk {
        Some(t)
    } else {
        trunk_index(bms, t + 1)
    }
}

/// The first-parent walk up from node `cur` (head first), stopping at
/// the first immutable parent (the base) or a parent outside the
/// snapshot, at most `fuel` changes long.
pub open spec fn climb(nodes: Seq<GraphNode>, cur: int, fuel: nat) -> (Seq<int>, Option<int>)
    decreases fuel,
{
    if fuel == 0 || !(0 <= cur < nodes.len()) {
        (Seq::empty(), None)
    } else {
        let parent = if nodes[cur].parents@.len() > 0 {
            node_index(nodes, nodes[cur].parents@[0]@)
        } else {
            None
        };
        match parent {
            None => (seq![cur], None),
            Some(p) => if nodes[p].kind == NodeKind::Immutable {
                (seq![cur], Some(p))
            } else {
                let rest = climb(nodes, p, (fuel - 1) as nat);
                (seq![cur] + rest.0, rest.1)
            },
        }
    }
}

/// Why a stack cannot be planned at all, if it cannot.
pub open spec fn ship_error(snap: RepoSnapshot, head_id: Seq<char>) -> Option<Seq<char>> {
    match node_index(snap.nodes@, head_id) {
        None => Some("Cannot ship this stack: no change "@ + head_id + " in this snapshot \u{2014} refresh and pick again"@),
        Some(h) => if snap.nodes@[h].kind == NodeKind::Immutable {
            Some("Cannot ship this stack: "@ + head_id + " is already immutable history \u{2014} there is nothing to ship"@)
        } else if trunk_index(snap.bookmarks@, 0) is None {
            Some("Cannot ship this stack: this repository has no trunk bookmark \u{2014} shipping needs somewhere to land"@)
        } else {
            None
        },
    }
}

/// The trunk bookmark's own problems.
pub open spec fn trunk_blockers(snap: RepoSnapshot, t: BookmarkState) -> Seq<Seq<char>> {
    (if !t.is_local {
        seq!["\u{201c}"@ + t.name@ + "\u{201d} exists only on the remote here \u{2014} create a local \u{201c}"@ + t.name@ + "\u{201d} bookmark first"@]
    } else {
        Seq::empty()
    }) + (if bookmark_conflicted(snap.conflicts@, t.name@) {
        seq!["bookmark \u{201c}"@ + t.name@ + "\u{201d} is conflicted; repoint it before shipping"@]
    } else {
        Seq::empty()
    }) + (match t.sync {
        SyncState::Behind => seq!["\u{201c}"@ + t.name@ + "\u{201d} is behind its remote \u{2014} shipping now would push a trunk missing those commits"@],
        SyncState::Diverged => seq!["\u{201c}"@ + t.name@ + "\u{201d} and its remote have diverged \u{2014} reconcile them before shipping"@],
        _ => Seq::empty(),
    })
}

/// The shipped chain, bottom-up.
pub open spec fn ship_chain(snap: RepoSnapshot, h: int) -> Seq<int> {
    let up = climb(snap.nodes@, h, snap.nodes@.len() as nat).0;
    Seq::new(up.len(), |t: int| up[up.len() - 1 - t])
}

/// The chain's ids.
pub open spec fn chain_ids(nodes: Seq<GraphNode>, chain: Seq<int>) -> Seq<Seq<char>> {
    chain.map_values(|t: int| nodes[t].id@)
}

/// Some chain node has this id.
pub open spec fn chain_has(nodes: Seq<GraphNode>, chain: Seq<int>, id: Seq<char>) -> bool {
    exists|t: int| 0 <= t < chain.len() && #[trigger] nodes[chain[t]].id@ == id
}

/// The plan's actions for head `h`, trunk bookmark `t`.
pub open spec fn ship_actions(snap: RepoSnapshot, remote: Seq<char>, h: int, t: BookmarkState) -> Seq<ShipActionView> {
    let nodes = snap.nodes@;
    let chain = ship_chain(snap, h);
    let base = climb(nodes, h, nodes.len() as nat).1;
    let head = nodes[h];
    let already = t.target@ == head.id@;
    let on_trunk = match base {
        Some(b) => nodes[b].id@ == t.target@,
        None => false,
    } || chain_has(nodes, chain, t.target@);
    (if base is Some && !on_trunk {
        seq![ShipActionView::RebaseOntoTrunk { root_change: nodes[chain[0]].id@, moves: chain.len() as u32 }]
    } else {
        Seq::empty()
    }) + (if !already {
        seq![ShipActionView::MoveTrunk { bookmark: t.name@, to: head.id@ }]
    } else {
        Seq::empty()
    }) + (if !already || t.sync != SyncState::Synced {
        seq![ShipActionView::PushTrunk { bookmark: t.name@, remote }]
    } else {
        Seq::empty()
    }) + (if chain_has(nodes, chain, snap.working_copy@) {
        seq![ShipActionView::NewWorkingCopy { on: head.id@ }]
    } else {
        Seq::empty()
    })
}

/// The plan's blockers for head `h`, trunk bookmark `t`.
pub open spec fn ship_blockers(snap: RepoSnapshot, h: int, t: BookmarkState) -> Seq<Seq<char>> {
    let nodes = snap.nodes@;
    trunk_blockers(snap, t) + (if climb(nodes, h, nodes.len() as nat).1 is None {
        seq!["the stack's base is outside this snapshot's view \u{2014} refresh and try again"@]
    } else {
        Seq::empty()
    }) + segment_blockers(nodes, ship_chain(snap, h))
}

/// What the trunk bookmark's position warns about.
pub open spec fn trunk_warnings(t: BookmarkState, remote: Seq<char>) -> Seq<Seq<char>> {
    let name = t.name@;
    match t.sync {
        SyncState::LocalOnly => seq![remote + " has no \u{201c}"@ + name + "\u{201d} yet \u{2014} this push creates it"@],
        SyncState::Ahead => seq![
            "\u{201c}"@ + name + "\u{201d} is already ahead of its remote \u{2014} the push includes that work too"@,
        ],
        _ => Seq::empty(),
    }
}

/// The warnings for the open PRs of the first `b` bookmark names on a
/// change: shipping the same commits to trunk marks each merged.
pub open spec fn named_pr_warnings(names: Seq<String>, prs: RepoPrState, trunk: Seq<char>, b: int) -> Seq<
    Seq<char>,
>
    decreases b,
{
    if b <= 0 {
        Seq::empty()
    } else {
        let rest = named_pr_warnings(names, prs, trunk, b - 1);
        let name = names[b - 1]@;
        match prs.pr_for(name) {
            Some(p) => rest.push(
                "#"@ + dec(p.number as nat) + " ("@ + name
                    + ") is open for this work \u{2014} pushing the same commits to \u{201c}"@ + trunk
                    + "\u{201d} marks it merged on GitHub"@,
            ),
            None => rest,
        }
    }
}

/// The open-PR warnings for the first `c` changes of the chain, bottom up.
pub open spec fn open_pr_warnings(
    nodes: Seq<GraphNode>,
    chain: Seq<int>,
    prs: RepoPrState,
    trunk: Seq<char>,
    c: int,
) -> Seq<Seq<char>>
    decreases c,
{
    if c <= 0 {
        Seq::empty()
    } else {
        let names = nodes[chain[c - 1]].bookmarks@;
        open_pr_warnings(nodes, chain, prs, trunk, c - 1) + named_pr_warnings(names, prs, trunk, names.len() as int)
    }
}

/// Everything a ship plan warns about, in order: the trunk's position, an
/// empty head change, and every open PR for the shipped work.
pub open spec fn ship_warnings(
    snap: RepoSnapshot,
    prs: Option<RepoPrState>,
    remote: Seq<char>,
    h: int,
    t: BookmarkState,
) -> Seq<Seq<char>> {
    let chain = ship_chain(snap, h);
    trunk_warnings(t, remote) + (if snap.nodes@[h].is_empty {
        seq!["the head change has no file changes \u{2014} shipping records an empty commit on trunk"@]
    } else {
        Seq::empty()
    }) + match prs {
        Some(p) => open_pr_warnings(snap.nodes@, chain, p, t.name@, chain.len() as int),
        None => Seq::empty(),
    }
}

/// First line of a description, or nothing.
pub open spec fn title_of(desc: Seq<char>) -> Seq<char> {
    if lines(desc).len() > 0 {
        lines(desc)[0]
    } else {
        Seq::empty()
    }
}

/// The walk up from the head, executed.
fn climb_exec(nodes: &Vec<GraphNode>, h: usize) -> (r: (Vec<usize>, Option<usize>))
    requires
        h < nodes@.len(),
    ensures
        crate::submit::ints(r.0@) == climb(nodes@, h as int, nodes@.len() as nat).0,
        match r.1 {
            Some(b) => climb(nodes@, h as int, nodes@.len() as nat).1 == Some(b as int) && b < nodes@.len(),
            None => climb(nodes@, h as int, nodes@.len() as nat).1 is None,
        },
        forall|t: int| 0 <= t < r.0@.len() ==> #[trigger] r.0@[t] < nodes@.len(),
{
    let mut up: Vec<usize> = Vec::new();
    let mut cur: usize = h;
    let mut fuel: usize = nodes.len();
    let ghost total = climb(nodes@, h as int, nodes@.len() as nat);
    loop
        invariant
            cur < nodes@.len(),
            fuel <= nodes@.len(),
            forall|t: int| 0 <= t < up@.len() ==> #[trigger] up@[t] < nodes@.len(),
            total == climb(nodes@, h as int, nodes@.len() as nat),
            crate::submit::ints(up@) + climb(nodes@, cur as int, fuel as nat).0 == total.0,
            climb(nodes@, cur as int, fuel as nat).1 == total.1,
        decreases fuel,
    {
        let ghost before = crate::submit::ints(up@);
        if fuel == 0 {
            assert(before + Seq::<int>::empty() =~= before);
            return (up, None);
        }
        up.push(cur);
        assert(crate::submit::ints(up@) =~= before.push(cur as int));
        let parent = if nodes[cur].parents.len() > 0 {
            let p = find_node(nodes, nodes[cur].parents[0].as_str());
            proof {
                lemma_node_index(nodes@, nodes@[cur as int].parents@[0]@);
            }
            p
        } else {
            None
        };
        match parent {
            None => {
                assert(before + seq![cur as int] =~= before.push(cur as int));
                return (up, None);
            },
            Some(p) => {
                if nodes[p].kind == NodeKind::Immutable {
                    assert(before + seq![cur as int] =~= before.push(cur as int));
                    return (up, Some(p));
                }
                let ghost rest = climb(nodes@, p as int, (fuel - 1) as nat);
                assert(before + (seq![cur as int] + rest.0) =~= before.push(cur as int) + rest.0);
                cur = p;
                fuel -= 1;
            },
        }
    }
}

/// The first trunk bookmark, executed.
fn trunk_of(bms: &Vec<BookmarkState>) -> (r: Option<usize>)
    ensures
        match r {
            Some(t) => trunk_index(bms@, 0) == Some(t as int) && t < bms@.len(),
            None => trunk_index(bms@, 0) is None,
        },
{
    let mut t: usize = 0;
    while t < bms.len()
        invariant
            t <= bms@.len(),
            trunk_index(bms@, 0) == trunk_index(bms@, t as int),
        decreases bms@.len() - t,
    {
        if bms[t].is_trunk {
            return Some(t);
        }
        t += 1;
    }
    None
}

/// Push one string, keeping the views in step.
fn push_text(v: &mut Vec<String>, s: String)
    ensures
        str_views(final(v)@) == str_views(old(v)@).push(s@),
{
    let ghost before = v@;
    v.push(s);
    assert(str_views(v@) =~= str_views(before).push(s@));
}

/// Push one action, keeping the views in step.
fn push_ship_action(v: &mut Vec<ShipAction>, a: ShipAction)
    ensures
        ship_action_views(final(v)@) == ship_action_views(old(v)@).push(a@),
{
    let ghost before = v@;
    v.push(a);
    assert(ship_action_views(v@) =~= ship_action_views(before).push(a@));
}

/// Whether some chain node has this id.
fn chain_has_exec(nodes: &Vec<GraphNode>, chain: &Vec<usize>, id: &str) -> (r: bool)
    requires
        forall|t: int| 0 <= t < chain@.len() ==> #[trigger] chain@[t] < nodes@.len(),
    ensures
        r == chain_has(nodes@, crate::submit::ints(chain@), id@),
{
    let mut t: usize = 0;
    while t < chain.len()
        invariant
            t <= chain@.len(),
            forall|q: int| 0 <= q < chain@.len() ==> #[trigger] chain@[q] < nodes@.len(),
            forall|q: int| 0 <= q < t ==> #[trigger] nodes@[crate::submit::ints(chain@)[q]].id@ != id@,
        decreases chain@.len() - t,
    {
        assert(crate::submit::ints(chain@)[t as int] == chain@[t as int] as int);
        if str_eq(nodes[chain[t]].id.as_str(), id) {
            return true;
        }
        t += 1;
    }
    false
}

/// The trunk bookmark's problems, executed.
fn trunk_problems(snapshot: &RepoSnapshot, t: &BookmarkState, remote: &str, blockers: &mut Vec<String>, warnings: &mut Vec<String>)
    ensures
        str_views(final(blockers)@) == str_views(old(blockers)@) + trunk_blockers(*snapshot, *t),
        str_views(final(warnings)@) == str_views(old(warnings)@) + trunk_warnings(*t, remote@),
{
    let ghost wstart = str_views(warnings@);
    let ghost start = str_views(blockers@);
    let name = t.name.as_str();
    if !t.is_local {
        push_text(blockers, cat5("\u{201c}", name, "\u{201d} exists only on the remote here \u{2014} create a local \u{201c}", name, "\u{201d} bookmark first"));
    }
    let ghost b1 = str_views(blockers@);
    if is_bookmark_conflicted(&snapshot.conflicts, name) {
        push_text(blockers, cat3("bookmark \u{201c}", name, "\u{201d} is conflicted; repoint it before shipping"));
    }
    let ghost b2 = str_views(blockers@);
    match t.sync {
        SyncState::Behind => push_text(blockers, cat3("\u{201c}", name, "\u{201d} is behind its remote \u{2014} shipping now would push a trunk missing those commits")),
        SyncState::Diverged => push_text(blockers, cat3("\u{201c}", name, "\u{201d} and its remote have diverged \u{2014} reconcile them before shipping")),
        SyncState::LocalOnly => push_text(warnings, cat4(remote, " has no \u{201c}", name, "\u{201d} yet \u{2014} this push creates it")),
        SyncState::Ahead => push_text(warnings, cat3("\u{201c}", name, "\u{201d} is already ahead of its remote \u{2014} the push includes that work too")),
        SyncState::Synced => {},
    }
    assert(str_views(blockers@) =~= start + trunk_blockers(*snapshot, *t));
    assert(str_views(warnings@) =~= wstart + trunk_warnings(*t, remote@));
}

/// Build the ship plan for the stack under `head_id` (any mutable
/// change; shipping needs no PR and no bookmark other than trunk's own).
/// `prs` only feeds the open-PR honesty warning.
pub fn plan_ship(snapshot: &RepoSnapshot, prs: Option<&RepoPrState>, remote: &str, head_id: &str) -> (r: Result<ShipPlan, ForgeError>)
    ensures
        match ship_error(*snapshot, head_id@) {
            Some(m) => r matches Err(e) && e is Ship && error_message(e) == m,
            None => r matches Ok(plan) && {
                let h = node_index(snapshot.nodes@, head_id@)->0;
                let t = snapshot.bookmarks@[trunk_index(snapshot.bookmarks@, 0)->0];
                let chain = ship_chain(*snapshot, h);
                &&& plan.head_change@ == snapshot.nodes@[h].id@
                &&& plan.head_title@ == title_of(snapshot.nodes@[h].description@)
                &&& plan.trunk_bookmark@ == t.name@
                &&& plan.remote@ == remote@
                &&& str_views(plan.change_ids@) == chain_ids(snapshot.nodes@, chain)
                &&& ship_action_views(plan.actions@) == ship_actions(*snapshot, remote@, h, t)
                &&& str_views(plan.blockers@) == ship_blockers(*snapshot, h, t)
                &&& str_views(plan.warnings@) == ship_warnings(
                    *snapshot,
                    match prs {
                        Some(p) => Some(*p),
                        None => None,
                    },
                    remote@,
                    h,
                    t,
                )
            },
        },
{
    let h = match find_node(&snapshot.nodes, head_id) {
        Some(h) => h,
        None => {
            let m = cat3("no change ", head_id, " in this snapshot \u{2014} refresh and pick again");
            assert("Cannot ship this stack: "@ + m@ =~= "Cannot ship this stack: no change "@ + head_id@ + " in this snapshot \u{2014} refresh and pick again"@) by {
                reveal_strlit("Cannot ship this stack: ");
                reveal_strlit("no change ");
                reveal_strlit("Cannot ship this stack: no change ");
            }
            return Err(ForgeError::Ship(m));
        },
    };
    proof {
        lemma_node_index(snapshot.nodes@, head_id@);
    }
    let head = &snapshot.nodes[h];
    if head.kind == NodeKind::Immutable {
        let m = cat2(head_id, " is already immutable history \u{2014} there is nothing to ship");
        return Err(ForgeError::Ship(m));
    }
    let ti = match trunk_of(&snapshot.bookmarks) {
        Some(t) => t,
        None => {
            let m = crate::text::owned("this repository has no trunk bookmark \u{2014} shipping needs somewhere to land");
            assert("Cannot ship this stack: "@ + m@ =~= "Cannot ship this stack: this repository has no trunk bookmark \u{2014} shipping needs somewhere to land"@) by {
                reveal_strlit("Cannot ship this stack: ");
                reveal_strlit("this repository has no trunk bookmark \u{2014} shipping needs somewhere to land");
                reveal_strlit("Cannot ship this stack: this repository has no trunk bookmark \u{2014} shipping needs somewhere to land");
            }
            return Err(ForgeError::Ship(m));
        },
    };
    let trunk = &snapshot.bookmarks[ti];
    let mut blockers: Vec<String> = Vec::new();
    let mut warnings: Vec<String> = Vec::new();
    assert(str_views(blockers@) =~= Seq::<Seq<char>>::empty());
    trunk_problems(snapshot, trunk, remote, &mut blockers, &mut warnings);

    let (up, base) = climb_exec(&snapshot.nodes, h);
    let mut chain: Vec<usize> = Vec::new();
    let mut i: usize = up.len();
    while i > 0
        invariant
            i <= up@.len(),
            chain@.len() == up@.len() - i,
            forall|q: int| 0 <= q < chain@.len() ==> #[trigger] chain@[q] == up@[up@.len() - 1 - q],
        decreases i,
    {
        chain.push(up[i - 1]);
        i -= 1;
    }
    let ghost gchain = ship_chain(*snapshot, h as int);
    assert(crate::submit::ints(chain@) =~= gchain);
    assert forall|q: int| 0 <= q < chain@.len() implies #[trigger] chain@[q] < snapshot.nodes@.len() by {
        assert(chain@[q] == up@[up@.len() - 1 - q]);
    }
    if base.is_none() {
        push_text(&mut blockers, crate::text::owned("the stack's base is outside this snapshot's view \u{2014} refresh and try again"));
    }
    crate::submit::push_change_blockers(&snapshot.nodes, &chain, &mut blockers);
    if head.is_empty {
        push_text(&mut warnings, crate::text::owned("the head change has no file changes \u{2014} shipping records an empty commit on trunk"));
    }
    let ghost w0 = str_views(warnings@);
    match prs {
        Some(prs) => {
            let mut c: usize = 0;
            assert(w0 + Seq::<Seq<char>>::empty() =~= w0);
            while c < chain.len()
                invariant
                    c <= chain@.len(),
                    forall|q: int| 0 <= q < chain@.len() ==> #[trigger] chain@[q] < snapshot.nodes@.len(),
                    crate::submit::ints(chain@) == gchain,
                    str_views(warnings@) == w0 + open_pr_warnings(snapshot.nodes@, gchain, *prs, trunk.name@, c as int),
                decreases chain@.len() - c,
            {
                let node = &snapshot.nodes[chain[c]];
                assert(gchain[c as int] == chain@[c as int] as int);
                let ghost wc = str_views(warnings@);
                let mut b: usize = 0;
                assert(wc + Seq::<Seq<char>>::empty() =~= wc);
                while b < node.bookmarks.len()
                    invariant
                        b <= node.bookmarks@.len(),
                        str_views(warnings@) == wc + named_pr_warnings(node.bookmarks@, *prs, trunk.name@, b as int),
                    decreases node.bookmarks@.len() - b,
                {
                    let name = node.bookmarks[b].as_str();
                    let ghost before = named_pr_warnings(node.bookmarks@, *prs, trunk.name@, b as int);
                    match prs.by_branch.get(name) {
                        Some(pr) => {
                            let n = crate::text::string_of(&crate::text::decimal(pr.number));
                            let first = cat5("#", n.as_str(), " (", name, ") is open for this work \u{2014} pushing the same commits to \u{201c}");
                            let line = cat3(first.as_str(), trunk.name.as_str(), "\u{201d} marks it merged on GitHub");
                            push_text(&mut warnings, line);
                            assert(wc + before.push(line@) =~= (wc + before).push(line@));
                        },
                        None => {},
                    }
                    b += 1;
                }
                let ghost added = named_pr_warnings(node.bookmarks@, *prs, trunk.name@, node.bookmarks@.len() as int);
                assert(w0 + open_pr_warnings(snapshot.nodes@, gchain, *prs, trunk.name@, c as int) + added
                    =~= w0 + (open_pr_warnings(snapshot.nodes@, gchain, *prs, trunk.name@, c as int) + added));
                c += 1;
            }
        },
        None => {
            assert(w0 + Seq::<Seq<char>>::empty() =~= w0);
        },
    }

    let mut actions: Vec<ShipAction> = Vec::new();
    let already = str_eq(trunk.target.as_str(), head.id.as_str());
    let base_on_trunk = match base {
        Some(b) => str_eq(snapshot.nodes[b].id.as_str(), trunk.target.as_str()),
        None => false,
    };
    let on_trunk = base_on_trunk || chain_has_exec(&snapshot.nodes, &chain, trunk.target.as_str());
    if base.is_some() && !on_trunk {
        assert(chain@.len() > 0);
        assert(crate::submit::ints(chain@)[0] == chain@[0] as int);
        push_ship_action(&mut actions, ShipAction::RebaseOntoTrunk { root_change: snapshot.nodes[chain[0]].id.clone(), moves: chain.len() as u32 });
    }
    let ghost a1 = ship_action_views(actions@);
    if !already {
        push_ship_action(&mut actions, ShipAction::MoveTrunk { bookmark: trunk.name.clone(), to: head.id.clone() });
    }
    let ghost a2 = ship_action_views(actions@);
    if !already || trunk.sync != SyncState::Synced {
        push_ship_action(&mut actions, ShipAction::PushTrunk { bookmark: trunk.name.clone(), remote: crate::text::owned(remote) });
    }
    let ghost a3 = ship_action_views(actions@);
    if chain_has_exec(&snapshot.nodes, &chain, snapshot.working_copy.as_str()) {
        push_ship_action(&mut actions, ShipAction::NewWorkingCopy { on: head.id.clone() });
    }
    assert(ship_action_views(actions@) =~= ship_actions(*snapshot, remote@, h as int, *trunk));

    let mut ids: Vec<String> = Vec::new();
    let mut c: usize = 0;
    while c < chain.len()
        invariant
            c <= chain@.len(),
            forall|q: int| 0 <= q < chain@.len() ==> #[trigger] chain@[q] < snapshot.nodes@.len(),
            str_views(ids@) == chain_ids(snapshot.nodes@, crate::submit::ints(chain@).take(c as int)),
        decreases chain@.len() - c,
    {
        let ghost before = ids@;
        ids.push(snapshot.nodes[chain[c]].id.clone());
        proof {
            let t = crate::submit::ints(chain@).take(c + 1);
            assert(t =~= crate::submit::ints(chain@).take(c as int).push(chain@[c as int] as int));
            assert(str_views(ids@) =~= str_views(before).push(snapshot.nodes@[chain@[c as int] as int].id@));
            assert(chain_ids(snapshot.nodes@, t) =~= chain_ids(snapshot.nodes@, crate::submit::ints(chain@).take(c as int)).push(snapshot.nodes@[chain@[c as int] as int].id@));
        }
        c += 1;
    }
    assert(crate::submit::ints(chain@).take(chain@.len() as int) =~= crate::submit::ints(chain@));

    let desc = chars_of(head.description.as_str());
    let ls = lines_of(&desc);
    let title = if ls.len() > 0 {
        string_of(&ls[0])
    } else {
        String::new()
    };
    Ok(
        ShipPlan {
            head_change: head.id.clone(),
            head_title: title,
            trunk_bookmark: trunk.name.clone(),
            remote: crate::text::owned(remote),
            change_ids: ids,
            actions,
            blockers,
            warnings,
        },
    )
}

// ---------------------------------------------------------------------
// Execution
// ---------------------------------------------------------------------

/// The trunk bookmark already points at `to` locally.
pub open spec fn trunk_moved(snap: RepoSnapshot, bookmark: Seq<char>, to: Seq<char>) -> bool {
    exists|b: int|
        0 <= b < snap.bookmarks@.len() && #[trigger] snap.bookmarks@[b].name@ == bookmark
            && snap.bookmarks@[b].is_local && snap.bookmarks@[b].target@ == to
}

/// Whether the trunk bookmark already points at `to` locally.
pub fn trunk_already_moved(snap: &RepoSnapshot, bookmark: &str, to: &str) -> (r: bool)
    ensures
        r == trunk_moved(*snap, bookmark@, to@),
{
    let mut b: usize = 0;
    while b < snap.bookmarks.len()
        invariant
            b <= snap.bookmarks@.len(),
            forall|q: int|
                0 <= q < b ==> !(#[trigger] snap.bookmarks@[q].name@ == bookmark@ && snap.bookmarks@[q].is_local
                    && snap.bookmarks@[q].target@ == to@),
        decreases snap.bookmarks@.len() - b,
    {
        let bm = &snap.bookmarks[b];
        if str_eq(bm.name.as_str(), bookmark) && bm.is_local && str_eq(bm.target.as_str(), to) {
            return true;
        }
        b += 1;
    }
    false
}

/// What one ship step comes to, request by request: a rebase, a push of
/// the trunk bookmark alone, or a new change passes on what jj answered;
/// moving trunk reads the latest snapshot first and leaves a bookmark that
/// already points at its target alone.
pub open spec fn ship_step_told<V: ShipVcs>(vcs: &V, action: ShipAction, r: Result<String, String>) -> bool {
    match action {
        ShipAction::RebaseOntoTrunk { root_change, .. } => exists|a: Result<String, BackendError>|
            #[trigger] vcs.rebase_answer(root_change@, a) && passed_on(a, r),
        ShipAction::MoveTrunk { bookmark, to } => exists|sa: Result<RepoSnapshot, BackendError>|
            #[trigger] vcs.snapshot_answer(sa) && match sa {
                Err(e) => r matches Err(x) && x@ == backend_message(e),
                Ok(snap) => if trunk_moved(snap, bookmark@, to@) {
                    told_ok(r, "\u{201c}"@ + bookmark@ + "\u{201d} already points at "@ + to@)
                } else {
                    exists|a: Result<String, BackendError>| #[trigger] vcs.move_answer(bookmark@, to@, a) && passed_on(a, r)
                },
            },
        ShipAction::PushTrunk { bookmark, remote } => exists|a: Result<String, BackendError>|
            #[trigger] vcs.push_answer(seq![bookmark@], remote@, a) && passed_on(a, r),
        ShipAction::NewWorkingCopy { on } => exists|a: Result<String, BackendError>|
            #[trigger] vcs.new_change_answer(on@, a) && passed_on(a, r),
    }
}

/// One step; the answer is the step's plain-language detail, the error
/// the failure story (see [`ship_step_told`]).
fn run_ship_step<V: ShipVcs>(action: &ShipAction, vcs: &V) -> (r: Result<String, String>)
    ensures
        ship_step_told(vcs, *action, r),
{
    match action {
        ShipAction::RebaseOntoTrunk { root_change, .. } => {
            let a = vcs.rebase_onto_trunk(root_change.as_str());
            let ghost seen = a;
            let r = match a {
                Ok(s) => Ok(s),
                Err(e) => Err(e.message()),
            };
            assert(vcs.rebase_answer(root_change@, seen) && passed_on(seen, r));
            r
        },
        ShipAction::MoveTrunk { bookmark, to } => {
            let sa = vcs.snapshot();
            let ghost sa_seen = sa;
            let snap = match sa {
                Ok(s) => s,
                Err(e) => {
                    let r = Err(e.message());
                    assert(vcs.snapshot_answer(sa_seen));
                    return r;
                },
            };
            if trunk_already_moved(&snap, bookmark.as_str(), to.as_str()) {
                let r = Ok(cat4("\u{201c}", bookmark.as_str(), "\u{201d} already points at ", to.as_str()));
                assert(vcs.snapshot_answer(sa_seen));
                return r;
            }
            let a = vcs.move_bookmark(bookmark.as_str(), to.as_str());
            let ghost seen = a;
            let r = match a {
                Ok(s) => Ok(s),
                Err(e) => Err(e.message()),
            };
            assert(vcs.move_answer(bookmark@, to@, seen) && passed_on(seen, r));
            assert(vcs.snapshot_answer(sa_seen));
            r
        },
        ShipAction::PushTrunk { bookmark, remote } => {
            let one: Vec<String> = vec![bookmark.clone()];
            assert(str_views(one@) =~= seq![bookmark@]);
            let a = vcs.push_bookmarks(one.as_slice(), remote.as_str());
            let ghost seen = a;
            let r = match a {
                Ok(s) => Ok(s),
                Err(e) => Err(e.message()),
            };
            assert(vcs.push_answer(seq![bookmark@], remote@, seen) && passed_on(seen, r));
            r
        },
        ShipAction::NewWorkingCopy { on } => {
            let a = vcs.new_change(on.as_str());
            let ghost seen = a;
            let r = match a {
                Ok(s) => Ok(s),
                Err(e) => Err(e.message()),
            };
            assert(vcs.new_change_answer(on@, seen) && passed_on(seen, r));
            r
        },
    }
}

/// A step that ran reports what [`ship_step_told`] says of its action: a
/// done step the detail, a failed one the failure story.
pub open spec fn ship_step_ran<V: ShipVcs>(vcs: &V, action: ShipAction, step: ShipStep) -> bool {
    match step.detail {
        Some(d) => ship_step_told(vcs, action, if step.status == SubmitStepStatus::Done {
            Ok::<String, String>(d)
        } else {
            Err::<String, String>(d)
        }),
        None => false,
    }
}

/// The statuses of a ship run's steps.
pub open spec fn ship_statuses(steps: Seq<ShipStep>) -> Seq<SubmitStepStatus> {
    steps.map_values(|s: ShipStep| s.status)
}

/// Run a confirmed ship plan. The first failure stops execution — later
/// steps report as skipped. A plan with blockers refuses to run at all.
pub fn execute_ship<V: ShipVcs>(plan: &ShipPlan, vcs: &V) -> (r: Result<ShipOutcome, ForgeError>)
    ensures
        plan.blockers@.len() > 0 ==> (r matches Err(ForgeError::Ship(m)) && m@ == blocked_msg(str_views(plan.blockers@))),
        plan.blockers@.len() == 0 ==> (r matches Ok(out) && {
            &&& out.steps@.len() == plan.actions@.len()
            &&& forall|i: int| 0 <= i < out.steps@.len() ==> (#[trigger] out.steps@[i]).action@ == plan.actions@[i]@
            &&& run_shape(ship_statuses(out.steps@))
            &&& out.failed == exists|i: int| 0 <= i < out.steps@.len() && #[trigger] out.steps@[i].status == SubmitStepStatus::Failed
            &&& forall|i: int|
                0 <= i < out.steps@.len() ==> ((#[trigger] out.steps@[i]).detail is Some <==> out.steps@[i].status
                    != SubmitStepStatus::Skipped)
            &&& !out.failed ==> forall|i: int| 0 <= i < out.steps@.len() ==> #[trigger] out.steps@[i].status == SubmitStepStatus::Done
            &&& forall|i: int| 0 <= i < out.steps@.len() && #[trigger] out.steps@[i].status != SubmitStepStatus::Skipped
                ==> ship_step_ran(vcs, plan.actions@[i], out.steps@[i])
        }),
{
    if plan.blockers.len() > 0 {
        let j = join_strings(&plan.blockers, "; ");
        return Err(ForgeError::Ship(cat2("the plan has blockers: ", j.as_str())));
    }
    let n = plan.actions.len();
    let mut steps: Vec<ShipStep> = Vec::new();
    let mut k: usize = 0;
    while k < n
        invariant
            n == plan.actions@.len(),
            k <= n,
            steps@.len() == k,
            forall|i: int| 0 <= i < k ==> (#[trigger] steps@[i]).action@ == plan.actions@[i]@,
            forall|i: int| 0 <= i < k ==> (#[trigger] steps@[i]).status == SubmitStepStatus::Skipped,
            forall|i: int| 0 <= i < k ==> (#[trigger] steps@[i]).detail is None,
        decreases n - k,
    {
        steps.push(ShipStep { action: plan.actions[k].duplicate(), status: SubmitStepStatus::Skipped, detail: None });
        k += 1;
    }
    let mut i: usize = 0;
    while i < n
        invariant
            n == plan.actions@.len(),
            plan.blockers@.len() == 0,
            i <= n,
            steps@.len() == n,
            forall|t: int| 0 <= t < n ==> (#[trigger] steps@[t]).action@ == plan.actions@[t]@,
            forall|t: int| 0 <= t < i ==> (#[trigger] steps@[t]).status == SubmitStepStatus::Done,
            forall|t: int| i <= t < n ==> (#[trigger] steps@[t]).status == SubmitStepStatus::Skipped,
            forall|t: int| 0 <= t < i ==> (#[trigger] steps@[t]).detail is Some,
            forall|t: int| i <= t < n ==> (#[trigger] steps@[t]).detail is None,
            forall|t: int| 0 <= t < i ==> ship_step_ran(vcs, plan.actions@[t], #[trigger] steps@[t]),
        decreases n - i,
    {
        match run_ship_step(&plan.actions[i], vcs) {
            Ok(detail) => {
                let step = ShipStep { action: steps[i].action.duplicate(), status: SubmitStepStatus::Done, detail: Some(detail) };
                steps.set(i, step);
            },
            Err(message) => {
                let step = ShipStep { action: steps[i].action.duplicate(), status: SubmitStepStatus::Failed, detail: Some(message) };
                steps.set(i, step);
                proof {
                    let st = ship_statuses(steps@);
                    assert forall|a: int, b: int| 0 <= a < b < st.len() && #[trigger] st[b] != SubmitStepStatus::Skipped implies #[trigger] st[a] == SubmitStepStatus::Done by {
                        assert(st[b] == steps@[b].status);
                        assert(st[a] == steps@[a].status);
                    }
                    assert forall|a: int, b: int| 0 <= a < b < st.len() && #[trigger] st[a] == SubmitStepStatus::Failed implies #[trigger] st[b] == SubmitStepStatus::Skipped by {
                        assert(st[b] == steps@[b].status);
                        assert(st[a] == steps@[a].status);
                    }
                    assert(steps@[i as int].status == SubmitStepStatus::Failed);
                }
                return Ok(ShipOutcome { steps, failed: true });
            },
        }
        i += 1;
    }
    proof {
        let st = ship_statuses(steps@);
        assert forall|a: int, b: int| 0 <= a < b < st.len() && #[trigger] st[b] != SubmitStepStatus::Skipped implies #[trigger] st[a] == SubmitStepStatus::Done by {
            assert(st[a] == steps@[a].status);
        }
        assert forall|a: int, b: int| 0 <= a < b < st.len() && #[trigger] st[a] == SubmitStepStatus::Failed implies #[trigger] st[b] == SubmitStepStatus::Skipped by {
            assert(st[a] == steps@[a].status);
        }
        assert forall|t: int| 0 <= t < n implies (#[trigger] steps@[t]).status != SubmitStepStatus::Failed by {}
    }
    Ok(ShipOutcome { steps, failed: false })
}


/// Where "rebase onto trunk" lands: the first trunk bookmark's target, or
/// a refusal when the repository has none.
pub fn trunk_target(snapshot: &RepoSnapshot) -> (r: Result<String, BackendError>)
    ensures
        match trunk_index(snapshot.bookmarks@, 0) {
            Some(t) => r matches Ok(s) && s@ == snapshot.bookmarks@[t].target@,
            None => r matches Err(BackendError::MutationFailed(m)) && m@
                == "the repository has no trunk bookmark to rebase onto"@,
        },
{
    match trunk_of(&snapshot.bookmarks) {
        Some(t) => Ok(snapshot.bookmarks[t].target.clone()),
        None => Err(BackendError::MutationFailed(crate::text::owned("the repository has no trunk bookmark to rebase onto"))),
    }
}

} // verus!
