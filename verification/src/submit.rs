//! The submit engine: analyze a bookmark's stack from the repo snapshot,
//! plan the minimum set of remote actions, then execute the plan.
//!
//! Every submission derives an explicit plan first — which bookmarks push,
//! which PRs open and against which bases, which existing PRs retarget —
//! and execution walks that plan. That is what makes submit idempotent:
//! re-running against an already-consistent stack plans nothing.

use vstd::prelude::*;

use crate::comment::{
    fossils_of, inherit_fossils, parse_stack_data, parse_stack_data_spec, render_spec,
    render_stack_comment, StackDataItem, StackEntry,
};
use crate::error::{backend_message, error_message, BackendError, ForgeError};
use crate::pr::{clone_opt_pr, clone_opt_string, PrSummary, RepoPrState};
use crate::reconcile::{opt_view, plan_pr_text, plan_pr_text_spec, TextWarning};
use crate::remote::ForgeRepo;
use crate::snapshot::{
    bookmark_conflicted, bookmark_index, find_bookmark, find_node, is_bookmark_conflicted,
    lemma_bookmark_index, lemma_node_index, node_index, BookmarkState, GraphNode, NodeKind,
    RepoSnapshot, SyncState,
};
use crate::template::{new_pr_body, new_pr_body_spec, PrTemplate};
use crate::text::{
    cat, cat2, cat3, cat4, cat5, dec, decimal, chars_eq, chars_less, chars_of, is_blank, lines, lines_of, lower, lower_chars, push_all,
    push_str, seq_less, split_once, split_once_chars, str_eq, string_of, trim, trim_chars,
    trim_end, trim_end_chars,
};

verus! {

// ---------------------------------------------------------------------
// Titles and bodies from change descriptions
// ---------------------------------------------------------------------

/// The git trailer keys dropped from PR bodies, lower-cased.
pub open spec fn is_trailer_key(k: Seq<char>) -> bool {
    ||| k == "co-authored-by"@
    ||| k == "co-developed-by"@
    ||| k == "signed-off-by"@
    ||| k == "helped-by"@
    ||| k == "reviewed-by"@
    ||| k == "acked-by"@
    ||| k == "tested-by"@
    ||| k == "reported-by"@
    ||| k == "suggested-by"@
    ||| k == "change-id"@
}

/// A trimmed line is a recognized trailer: `key: value` with a known key
/// and a non-blank value.
pub open spec fn is_trailer_line(line: Seq<char>) -> bool {
    match split_once(line, ':') {
        Some((k, v)) => trim(v).len() > 0 && is_trailer_key(lower(trim(k))),
        None => false,
    }
}

/// How many leading lines survive once the trailing block of blank lines
/// and trailers (scanning up from line `end`) is dropped.
pub open spec fn kept_lines(ls: Seq<Seq<char>>, end: int) -> int
    decreases end,
{
    if end <= 0 {
        0
    } else {
        let l = trim(ls[end - 1]);
        if l.len() == 0 || is_trailer_line(l) {
            kept_lines(ls, end - 1)
        } else {
            end
        }
    }
}

/// Lines joined with `\n`.
pub open spec fn join_lines(ls: Seq<Seq<char>>) -> Seq<char>
    decreases ls.len(),
{
    if ls.len() == 0 {
        Seq::empty()
    } else if ls.len() == 1 {
        ls[0]
    } else {
        join_lines(ls.drop_last()) + seq!['\n'] + ls.last()
    }
}

/// The body with its trailing trailer block dropped.
pub open spec fn strip_trailers_spec(body: Seq<char>) -> Seq<char> {
    let ls = lines(body);
    trim_end(join_lines(ls.take(kept_lines(ls, ls.len() as int))))
}

/// PR title and body from a change description.
pub open spec fn derive_title_body_spec(description: Seq<char>, fallback: Seq<char>) -> (
    Seq<char>,
    Seq<char>,
) {
    let d = trim(description);
    if d.len() == 0 {
        (fallback, Seq::empty())
    } else {
        let t = lines(d)[0];
        (t, strip_trailers_spec(trim(d.skip(t.len() as int))))
    }
}

/// Whether a trimmed line is a recognized trailer.
fn trailer_line(line: &[char]) -> (r: bool)
    ensures
        r == is_trailer_line(line@),
{
    match split_once_chars(line, ':') {
        Some((k, v)) => {
            if is_blank(&v) {
                return false;
            }
            let key = lower_chars(&trim_chars(&k));
            let keys: [&str; 10] = [
                "co-authored-by",
                "co-developed-by",
                "signed-off-by",
                "helped-by",
                "reviewed-by",
                "acked-by",
                "tested-by",
                "reported-by",
                "suggested-by",
                "change-id",
            ];
            assert(keys@[0]@ == "co-authored-by"@);
            assert(keys@[1]@ == "co-developed-by"@);
            assert(keys@[2]@ == "signed-off-by"@);
            assert(keys@[3]@ == "helped-by"@);
            assert(keys@[4]@ == "reviewed-by"@);
            assert(keys@[5]@ == "acked-by"@);
            assert(keys@[6]@ == "tested-by"@);
            assert(keys@[7]@ == "reported-by"@);
            assert(keys@[8]@ == "suggested-by"@);
            assert(keys@[9]@ == "change-id"@);
            let mut i: usize = 0;
            while i < 10
                invariant
                    i <= 10,
                    forall|j: int| 0 <= j < 10 ==> is_trailer_key(#[trigger] keys@[j]@),
                    key@ == lower(trim(k@)),
                    trim(v@).len() > 0,
                    split_once(line@, ':') == Some((k@, v@)),
                    keys@ == seq![
                        "co-authored-by",
                        "co-developed-by",
                        "signed-off-by",
                        "helped-by",
                        "reviewed-by",
                        "acked-by",
                        "tested-by",
                        "reported-by",
                        "suggested-by",
                        "change-id",
                    ],
                    forall|j: int| 0 <= j < i ==> key@ != (#[trigger] keys@[j])@,
                decreases 10 - i,
            {
                let cand = chars_of(keys[i]);
                if chars_eq(&key, &cand) {
                    assert(is_trailer_key(keys@[i as int]@));
                    return true;
                }
                i += 1;
            }
            assert(keys@[0]@ == "co-authored-by"@);
            assert(keys@[1]@ == "co-developed-by"@);
            assert(keys@[2]@ == "signed-off-by"@);
            assert(keys@[3]@ == "helped-by"@);
            assert(keys@[4]@ == "reviewed-by"@);
            assert(keys@[5]@ == "acked-by"@);
            assert(keys@[6]@ == "tested-by"@);
            assert(keys@[7]@ == "reported-by"@);
            assert(keys@[8]@ == "suggested-by"@);
            assert(keys@[9]@ == "change-id"@);
            false
        },
        None => false,
    }
}

/// Drop a trailing block of recognized git trailers (and the blank lines
/// around it). A trailer mid-body, or any non-trailer line, stops the scan.
pub fn strip_trailers(body: &str) -> (r: String)
    ensures
        r@ == strip_trailers_spec(body@),
{
    let text = chars_of(body);
    let ls = lines_of(&text);
    let ghost gl = lines(body@);
    assert(ls@.len() == gl.len());
    let mut end: usize = ls.len();
    while end > 0
        invariant
            end <= ls@.len(),
            ls@.len() == gl.len(),
            gl == lines(body@),
            forall|i: int| 0 <= i < ls@.len() ==> #[trigger] ls@[i]@ == gl[i],
            kept_lines(gl, gl.len() as int) == kept_lines(gl, end as int),
        ensures
            kept_lines(gl, gl.len() as int) == end,
        decreases end,
    {
        let line = trim_chars(&ls[end - 1]);
        assert(ls@[end - 1]@ == gl[end - 1]);
        if line.len() == 0 || trailer_line(&line) {
            end -= 1;
        } else {
            break;
        }
    }
    let mut joined: Vec<char> = Vec::new();
    let mut i: usize = 0;
    while i < end
        invariant
            i <= end <= ls@.len(),
            ls@.len() == gl.len(),
            forall|k: int| 0 <= k < ls@.len() ==> #[trigger] ls@[k]@ == gl[k],
            joined@ == join_lines(gl.take(i as int)),
        decreases end - i,
    {
        if i > 0 {
            joined.push('\n');
        }
        push_all(&mut joined, &ls[i]);
        proof {
            let t = gl.take(i + 1);
            assert(t.drop_last() =~= gl.take(i as int));
            assert(t.last() == gl[i as int]);
            if i == 0 {
                assert(joined@ =~= gl[0]);
            } else {
                assert(joined@ =~= join_lines(gl.take(i as int)) + seq!['\n'] + gl[i as int]);
            }
        }
        i += 1;
    }
    let out = trim_end_chars(&joined);
    string_of(&out)
}

/// PR title and body from a change description: first line titles, the
/// rest bodies, with a trailing block of git trailers dropped.
pub fn derive_title_body(description: &str, fallback: &str) -> (r: (String, String))
    ensures
        (r.0@, r.1@) == derive_title_body_spec(description@, fallback@),
{
    let d = trim_chars(&chars_of(description));
    if d.len() == 0 {
        return (crate::text::owned(fallback), String::new());
    }
    let ls = lines_of(&d);
    proof {
        crate::text::lemma_lines_nonempty(d@);
    }
    let title = string_of(&ls[0]);
    let tl = ls[0].len();
    let rest = if tl <= d.len() {
        crate::text::slice_chars(&d, tl, d.len())
    } else {
        Vec::new()
    };
    proof {
        crate::text::lemma_first_line_prefix(d@);
    }
    assert(rest@ =~= d@.skip(tl as int));
    let rest_t = trim_chars(&rest);
    let body = strip_trailers(&string_of(&rest_t));
    (title, body)
}


// ---------------------------------------------------------------------
// Stack analysis
// ---------------------------------------------------------------------

/// The next change down a node's first-parent line.
pub open spec fn first_parent(nodes: Seq<GraphNode>, i: int) -> Option<int> {
    if nodes[i].parents@.len() > 0 {
        node_index(nodes, nodes[i].parents@[0]@)
    } else {
        None
    }
}

/// The mutable changes from `cursor` down the first-parent line, top
/// first, stopping at immutable history (at most `fuel` of them).
pub open spec fn walk_down(nodes: Seq<GraphNode>, cursor: Option<int>, fuel: nat) -> Seq<int>
    decreases fuel,
{
    match cursor {
        None => Seq::empty(),
        Some(i) => {
            if fuel == 0 || !(0 <= i < nodes.len()) || nodes[i].kind == NodeKind::Immutable {
                Seq::empty()
            } else {
                seq![i] + walk_down(nodes, first_parent(nodes, i), (fuel - 1) as nat)
            }
        },
    }
}

/// A top-first walk listed bottom-up.
pub open spec fn bottom_up(w: Seq<int>) -> Seq<int> {
    Seq::new(w.len(), |t: int| w[w.len() - 1 - t])
}

/// The stack's mutable chain under the change `target`, bottom-up.
pub open spec fn chain_under(nodes: Seq<GraphNode>, target: Seq<char>) -> Seq<int> {
    bottom_up(walk_down(nodes, node_index(nodes, target), nodes.len()))
}

/// A local, non-trunk bookmark carries this name.
pub open spec fn is_local_branch(bms: Seq<BookmarkState>, name: Seq<char>) -> bool {
    exists|j: int|
        0 <= j < bms.len() && #[trigger] bms[j].name@ == name && bms[j].is_local
            && !bms[j].is_trunk
}

/// The names that end a segment: the node's bookmarks that are local and
/// not trunk, in the node's order.
pub open spec fn keep_local(names: Seq<Seq<char>>, bms: Seq<BookmarkState>) -> Seq<Seq<char>>
    decreases names.len(),
{
    if names.len() == 0 {
        Seq::empty()
    } else {
        let p = keep_local(names.drop_last(), bms);
        if is_local_branch(bms, names.last()) {
            p.push(names.last())
        } else {
            p
        }
    }
}

/// The views of a list of strings.
pub open spec fn str_views(v: Seq<String>) -> Seq<Seq<char>> {
    v.map_values(|s: String| s@)
}

/// The names a node's bookmark list contributes to segmentation.
pub open spec fn node_names(node: GraphNode, bms: Seq<BookmarkState>) -> Seq<Seq<char>> {
    keep_local(str_views(node.bookmarks@), bms)
}

/// Publishing preference among names on one change: the head bookmark
/// first, then names GitHub already has a PR for, then name order.
pub open spec fn key_less(a: Seq<char>, b: Seq<char>, head: Seq<char>, prs: RepoPrState) -> bool {
    let ah = a != head;
    let bh = b != head;
    let ap = prs.pr_for(a) is None;
    let bp = prs.pr_for(b) is None;
    if ah != bh {
        !ah
    } else if ap != bp {
        !ap
    } else {
        seq_less(a, b)
    }
}

/// The name a collapsed segment publishes through: the first most
/// preferred one.
pub open spec fn best_name(names: Seq<Seq<char>>, head: Seq<char>, prs: RepoPrState) -> Seq<char>
    decreases names.len(),
{
    if names.len() <= 1 {
        names[0]
    } else {
        let b = best_name(names.drop_last(), head, prs);
        if key_less(names.last(), b, head, prs) {
            names.last()
        } else {
            b
        }
    }
}

/// The index of the first most preferred name (see [`best_name`]).
pub open spec fn best_index(names: Seq<Seq<char>>, head: Seq<char>, prs: RepoPrState) -> int
    decreases names.len(),
{
    if names.len() <= 1 {
        0
    } else {
        let b = best_index(names.drop_last(), head, prs);
        if key_less(names.last(), names[b], head, prs) {
            names.len() - 1
        } else {
            b
        }
    }
}

/// The best index names the best name.
pub proof fn lemma_best_index(names: Seq<Seq<char>>, head: Seq<char>, prs: RepoPrState)
    requires
        names.len() > 0,
    ensures
        0 <= best_index(names, head, prs) < names.len(),
        names[best_index(names, head, prs)] == best_name(names, head, prs),
    decreases names.len(),
{
    if names.len() > 1 {
        lemma_best_index(names.drop_last(), head, prs);
    }
}

/// The names in publishing preference, most preferred first: the first
/// most preferred name, then the rest in preference (a stable sort by
/// [`key_less`]).
pub open spec fn pref_order(names: Seq<Seq<char>>, head: Seq<char>, prs: RepoPrState) -> Seq<Seq<char>>
    decreases names.len(),
{
    if names.len() == 0 {
        Seq::empty()
    } else {
        proof {
            lemma_best_index(names, head, prs);
        }
        let i = best_index(names, head, prs);
        seq![names[i]] + pref_order(names.remove(i), head, prs)
    }
}

/// The warning for a change that carries several names.
pub open spec fn collapse_msg(names: Seq<Seq<char>>, head: Seq<char>, prs: RepoPrState) -> Seq<char> {
    join_sep(pref_order(names, head, prs), " and "@) + " point at the same change; publishing through \u{201c}"@
        + best_name(names, head, prs) + "\u{201d}"@
}

/// Segmentation of the first `k` chain entries: the finished segments
/// (publishing name, node indices bottom-up), the nodes still pending,
/// and the warnings for segments that collapsed several names.
pub open spec fn segs_upto(
    nodes: Seq<GraphNode>,
    bms: Seq<BookmarkState>,
    chain: Seq<int>,
    k: int,
    head: Seq<char>,
    prs: RepoPrState,
) -> (Seq<(Seq<char>, Seq<int>)>, Seq<int>, Seq<Seq<char>>)
    decreases k,
{
    if k <= 0 {
        (Seq::empty(), Seq::empty(), Seq::empty())
    } else {
        let prev = segs_upto(nodes, bms, chain, k - 1, head, prs);
        let i = chain[k - 1];
        let pend = prev.1.push(i);
        let names = node_names(nodes[i], bms);
        if names.len() == 0 {
            (prev.0, pend, prev.2)
        } else {
            (
                prev.0.push((best_name(names, head, prs), pend)),
                Seq::empty(),
                if names.len() > 1 {
                    prev.2.push(collapse_msg(names, head, prs))
                } else {
                    prev.2
                },
            )
        }
    }
}

/// Why the stack under `head` cannot be analyzed, if it cannot.
pub open spec fn stack_error(snap: RepoSnapshot, head: Seq<char>) -> Option<Seq<char>> {
    match bookmark_index(snap.bookmarks@, head, true) {
        None => Some("there is no local bookmark named \u{201c}"@ + head + "\u{201d}"@),
        Some(b) => {
            if snap.bookmarks@[b].is_trunk {
                Some(
                    "\u{201c}"@ + head
                        + "\u{201d} is the trunk \u{2014} it is what stacks land on, not a stack of its own"@,
                )
            } else if chain_under(snap.nodes@, snap.bookmarks@[b].target@).len() == 0 {
                Some(
                    "\u{201c}"@ + head
                        + "\u{201d} points at immutable history \u{2014} everything under it is already part of trunk"@,
                )
            } else {
                None
            }
        },
    }
}

/// The stack's chain, once `stack_error` is `None`.
pub open spec fn stack_chain(snap: RepoSnapshot, head: Seq<char>) -> Seq<int> {
    let b = bookmark_index(snap.bookmarks@, head, true)->0;
    chain_under(snap.nodes@, snap.bookmarks@[b].target@)
}

/// The stack's segments, once `stack_error` is `None`.
pub open spec fn stack_segs(snap: RepoSnapshot, prs: RepoPrState, head: Seq<char>) -> (
    Seq<(Seq<char>, Seq<int>)>,
    Seq<int>,
    Seq<Seq<char>>,
) {
    let chain = stack_chain(snap, head);
    segs_upto(snap.nodes@, snap.bookmarks@, chain, chain.len() as int, head, prs)
}

/// One bookmark-bounded run of the stack, bottom-up — the shape submit and
/// land planning share. `nodes` index the snapshot's node list.
#[derive(Debug, Clone, PartialEq, Eq)]
pub struct RawSegment {
    pub bookmark: String,
    pub nodes: Vec<usize>,
}

/// Indices widened to integers.
pub open spec fn ints(v: Seq<usize>) -> Seq<int> {
    v.map_values(|x: usize| x as int)
}

/// The mathematical content of a raw segment.
pub open spec fn raw_view(s: RawSegment) -> (Seq<char>, Seq<int>) {
    (s.bookmark@, ints(s.nodes@))
}

/// The mathematical content of a list of raw segments.
pub open spec fn raw_views(v: Seq<RawSegment>) -> Seq<(Seq<char>, Seq<int>)> {
    v.map_values(|s: RawSegment| raw_view(s))
}

/// The mutable first-parent chain from the change `target`, top first.
fn walk_chain(nodes: &Vec<GraphNode>, target: &str) -> (r: Vec<usize>)
    ensures
        ints(r@) == walk_down(
            nodes@,
            node_index(nodes@, target@),
            nodes@.len() as nat,
        ),
        forall|t: int| 0 <= t < r@.len() ==> #[trigger] r@[t] < nodes@.len(),
{
    let mut out: Vec<usize> = Vec::new();
    let mut cursor: Option<usize> = find_node(nodes, target);
    let mut fuel: usize = nodes.len();
    let ghost start = node_index(nodes@, target@);
    proof {
        lemma_node_index(nodes@, target@);
    }
    loop
        invariant
            start == node_index(nodes@, target@),
            fuel <= nodes@.len(),
            match cursor {
                Some(i) => i < nodes@.len(),
                None => true,
            },
            forall|t: int| 0 <= t < out@.len() ==> #[trigger] out@[t] < nodes@.len(),
            ints(out@) + walk_down(
                nodes@,
                match cursor {
                    Some(i) => Some(i as int),
                    None => None,
                },
                fuel as nat,
            ) == walk_down(nodes@, start, nodes@.len() as nat),
        decreases fuel,
    {
        let ghost before = ints(out@);
        match cursor {
            None => {
                assert(walk_down(nodes@, None, fuel as nat) =~= Seq::<int>::empty());
                assert(before + Seq::<int>::empty() =~= before);
                return out;
            },
            Some(i) => {
                if fuel == 0 || nodes[i].kind == NodeKind::Immutable {
                    assert(walk_down(nodes@, Some(i as int), fuel as nat) =~= Seq::<int>::empty());
                    assert(before + Seq::<int>::empty() =~= before);
                    return out;
                }
                out.push(i);
                let next = if nodes[i].parents.len() > 0 {
                    let n = find_node(nodes, nodes[i].parents[0].as_str());
                    proof {
                        lemma_node_index(nodes@, nodes@[i as int].parents@[0]@);
                    }
                    n
                } else {
                    None
                };
                proof {
                    assert(ints(out@) =~= before.push(i as int));
                    let rest = walk_down(
                        nodes@,
                        match next {
                            Some(j) => Some(j as int),
                            None => None,
                        },
                        (fuel - 1) as nat,
                    );
                    assert(match next {
                        Some(j) => Some(j as int),
                        None => None,
                    } == first_parent(nodes@, i as int));
                    assert(before.push(i as int) + rest =~= before + (seq![i as int] + rest));
                }
                cursor = next;
                fuel -= 1;
            },
        }
    }
}

/// Whether a local, non-trunk bookmark carries `name`.
fn local_branch(bms: &Vec<BookmarkState>, name: &str) -> (r: bool)
    ensures
        r == is_local_branch(bms@, name@),
{
    let want = chars_of(name);
    let mut j: usize = 0;
    while j < bms.len()
        invariant
            j <= bms@.len(),
            want@ == name@,
            forall|t: int|
                0 <= t < j ==> !(#[trigger] bms@[t].name@ == name@ && bms@[t].is_local
                    && !bms@[t].is_trunk),
        decreases bms@.len() - j,
    {
        let have = chars_of(bms[j].name.as_str());
        if chars_eq(&have, &want) && bms[j].is_local && !bms[j].is_trunk {
            return true;
        }
        j += 1;
    }
    false
}

/// The node's segment-ending names, in the node's order.
fn names_on(node: &GraphNode, bms: &Vec<BookmarkState>) -> (r: Vec<String>)
    ensures
        str_views(r@) == node_names(*node, bms@),
{
    let mut out: Vec<String> = Vec::new();
    let mut i: usize = 0;
    while i < node.bookmarks.len()
        invariant
            i <= node.bookmarks@.len(),
            str_views(out@) == keep_local(str_views(node.bookmarks@).take(i as int), bms@),
        decreases node.bookmarks@.len() - i,
    {
        let name = node.bookmarks[i].as_str();
        let keep = local_branch(bms, name);
        proof {
            let t = str_views(node.bookmarks@).take(i + 1);
            assert(t.drop_last() =~= str_views(node.bookmarks@).take(i as int));
            assert(t.last() == node.bookmarks@[i as int]@);
        }
        if keep {
            let ghost prev = out@;
            out.push(node.bookmarks[i].clone());
            assert(str_views(out@) =~= str_views(prev).push(node.bookmarks@[i as int]@));
        }
        i += 1;
    }
    assert(str_views(node.bookmarks@).take(node.bookmarks@.len() as int) =~= str_views(
        node.bookmarks@,
    ));
    out
}

/// `key_less` executed.
fn prefer(a: &str, b: &str, head: &str, prs: &RepoPrState) -> (r: bool)
    ensures
        r == key_less(a@, b@, head@, *prs),
{
    let ah = !str_eq(a, head);
    let bh = !str_eq(b, head);
    let ap = prs.by_branch.get(a).is_none();
    let bp = prs.by_branch.get(b).is_none();
    if ah != bh {
        !ah
    } else if ap != bp {
        !ap
    } else {
        chars_less(&chars_of(a), &chars_of(b))
    }
}

/// Index of the name a collapsed segment publishes through.
fn pick_name(names: &Vec<String>, head: &str, prs: &RepoPrState) -> (r: usize)
    requires
        names@.len() > 0,
    ensures
        r < names@.len(),
        r == best_index(str_views(names@), head@, *prs),
        names@[r as int]@ == best_name(str_views(names@), head@, *prs),
{
    proof {
        lemma_best_index(str_views(names@), head@, *prs);
    }
    let mut best: usize = 0;
    let mut i: usize = 1;
    proof {
        assert(str_views(names@).take(1) =~= seq![names@[0]@]);
    }
    while i < names.len()
        invariant
            1 <= i <= names@.len(),
            best < i,
            best == best_index(str_views(names@).take(i as int), head@, *prs),
        decreases names@.len() - i,
    {
        proof {
            let t = str_views(names@).take(i + 1);
            assert(t.drop_last() =~= str_views(names@).take(i as int));
            assert(t.last() == names@[i as int]@);
            assert(t[best as int] == names@[best as int]@);
        }
        if prefer(names[i].as_str(), names[best].as_str(), head, prs) {
            best = i;
        }
        i += 1;
    }
    assert(str_views(names@).take(names@.len() as int) =~= str_views(names@));
    best
}

/// The names in publishing preference, most preferred first.
fn preference_order(names: &Vec<String>, head: &str, prs: &RepoPrState) -> (r: Vec<String>)
    ensures
        str_views(r@) == pref_order(str_views(names@), head@, *prs),
{
    let mut left: Vec<String> = names.clone();
    assert(str_views(left@) =~= str_views(names@)) by {
        assert forall|q: int| 0 <= q < left@.len() implies left@[q] == names@[q] by {
            assert(cloned::<String>(names@[q], left@[q]));
        }
    }
    let mut out: Vec<String> = Vec::new();
    assert(str_views(out@) =~= Seq::<Seq<char>>::empty());
    while left.len() > 0
        invariant
            str_views(out@) + pref_order(str_views(left@), head@, *prs) == pref_order(str_views(names@), head@, *prs),
        decreases left@.len(),
    {
        let ghost lv = str_views(left@);
        let k = pick_name(&left, head, prs);
        proof {
            lemma_best_index(lv, head@, *prs);
        }
        let n = left.remove(k);
        proof {
            assert(str_views(left@) =~= lv.remove(k as int));
        }
        let ghost before = str_views(out@);
        out.push(n);
        assert(str_views(out@) =~= before.push(n@));
        assert(before.push(n@) + pref_order(lv.remove(k as int), head@, *prs) =~= before + (seq![lv[k as int]]
            + pref_order(lv.remove(k as int), head@, *prs)));
    }
    assert(str_views(out@) + pref_order(str_views(left@), head@, *prs) =~= str_views(out@));
    out
}

/// The names joined with " and ".
fn join_and(names: &Vec<String>) -> (r: Vec<char>)
    ensures
        r@ == join_sep(str_views(names@), " and "@),
{
    let j = join_strings(names, " and ");
    let mut out: Vec<char> = Vec::new();
    push_str(&mut out, j.as_str());
    out
}

/// Walk the snapshot graph from `head_bookmark` down first parents to the
/// immutable base and cut the mutable chain at local non-trunk bookmarks.
/// Several names on one change collapse into one segment (the PR-known
/// name preferred, the head bookmark always publishing through itself),
/// each collapse reported in the returned warnings. Errors are plain
/// messages for each caller to wrap in its own error flavor.
pub fn stack_segments(snapshot: &RepoSnapshot, prs: &RepoPrState, head_bookmark: &str) -> (r:
    Result<(Vec<RawSegment>, Vec<String>), String>)
    ensures
        match r {
            Err(m) => stack_error(*snapshot, head_bookmark@) == Some(m@),
            Ok((segs, warnings)) => {
                &&& stack_error(*snapshot, head_bookmark@) is None
                &&& raw_views(segs@) == stack_segs(
                    *snapshot,
                    *prs,
                    head_bookmark@,
                ).0
                &&& str_views(warnings@) == stack_segs(*snapshot, *prs, head_bookmark@).2
                &&& forall|t: int, u: int|
                    0 <= t < segs@.len() && 0 <= u < segs@[t].nodes@.len() ==> #[trigger] segs@[t].nodes@[u]
                        < snapshot.nodes@.len()
            },
        },
{
    let head = head_bookmark;
    let b = match find_bookmark(&snapshot.bookmarks, head, true) {
        None => {
            let mut m: Vec<char> = chars_of("there is no local bookmark named \u{201c}");
            push_str(&mut m, head);
            push_str(&mut m, "\u{201d}");
            return Err(string_of(&m));
        },
        Some(b) => b,
    };
    proof {
        lemma_bookmark_index(snapshot.bookmarks@, head@, true);
    }
    if snapshot.bookmarks[b].is_trunk {
        let mut m: Vec<char> = chars_of("\u{201c}");
        push_str(&mut m, head);
        push_str(
            &mut m,
            "\u{201d} is the trunk \u{2014} it is what stacks land on, not a stack of its own",
        );
        return Err(string_of(&m));
    }
    let top = walk_chain(&snapshot.nodes, snapshot.bookmarks[b].target.as_str());
    let ghost w = walk_down(
        snapshot.nodes@,
        node_index(snapshot.nodes@, snapshot.bookmarks@[b as int].target@),
        snapshot.nodes@.len() as nat,
    );
    assert(top@.len() == w.len());
    if top.len() == 0 {
        let mut m: Vec<char> = chars_of("\u{201c}");
        push_str(&mut m, head);
        push_str(
            &mut m,
            "\u{201d} points at immutable history \u{2014} everything under it is already part of trunk",
        );
        return Err(string_of(&m));
    }
    let ghost chain = stack_chain(*snapshot, head@);
    assert(chain =~= bottom_up(w));
    let mut segs: Vec<RawSegment> = Vec::new();
    let mut warnings: Vec<String> = Vec::new();
    let mut pending: Vec<usize> = Vec::new();
    let mut k: usize = 0;
    let n = top.len();
    while k < n
        invariant
            n == top@.len(),
            k <= n,
            chain.len() == n,
            forall|t: int| 0 <= t < n ==> #[trigger] chain[t] == top@[n - 1 - t] as int,
            forall|t: int| 0 <= t < top@.len() ==> #[trigger] top@[t] < snapshot.nodes@.len(),
            raw_views(segs@) == segs_upto(
                snapshot.nodes@,
                snapshot.bookmarks@,
                chain,
                k as int,
                head@,
                *prs,
            ).0,
            ints(pending@) == segs_upto(
                snapshot.nodes@,
                snapshot.bookmarks@,
                chain,
                k as int,
                head@,
                *prs,
            ).1,
            str_views(warnings@) == segs_upto(
                snapshot.nodes@,
                snapshot.bookmarks@,
                chain,
                k as int,
                head@,
                *prs,
            ).2,
            forall|t: int, u: int|
                0 <= t < segs@.len() && 0 <= u < segs@[t].nodes@.len() ==> #[trigger] segs@[t].nodes@[u]
                    < snapshot.nodes@.len(),
            forall|u: int| 0 <= u < pending@.len() ==> #[trigger] pending@[u] < snapshot.nodes@.len(),
        decreases n - k,
    {
        let i = top[n - 1 - k];
        assert(chain[k as int] == i as int);
        let ghost prev_pending = ints(pending@);
        let ghost prev_segs = raw_views(segs@);
        pending.push(i);
        assert(ints(pending@) =~= prev_pending.push(i as int));
        let names = names_on(&snapshot.nodes[i], &snapshot.bookmarks);
        if names.len() > 0 {
            let p = pick_name(&names, head, prs);
            if names.len() > 1 {
                let ordered = preference_order(&names, head, prs);
                let mut m = join_and(&ordered);
                push_str(&mut m, " point at the same change; publishing through \u{201c}");
                push_str(&mut m, names[p].as_str());
                push_str(&mut m, "\u{201d}");
                let ghost before = str_views(warnings@);
                warnings.push(string_of(&m));
                assert(str_views(warnings@) =~= before.push(m@));
            }
            let seg = RawSegment { bookmark: names[p].clone(), nodes: pending };
            segs.push(seg);
            assert(raw_views(segs@) =~= prev_segs.push(
                raw_view(seg),
            ));
            pending = Vec::new();
            assert(ints(pending@) =~= Seq::<int>::empty());
        }
        k += 1;
    }
    Ok((segs, warnings))
}

// ---------------------------------------------------------------------
// Plans
// ---------------------------------------------------------------------

/// One publishable run of changes under a bookmark, listed bottom-up in
/// [`SubmitPlan::segments`]: the commits between the bookmark below (or
/// trunk) and this segment's bookmark.
#[derive(Debug, Clone, PartialEq, Eq)]
pub struct SubmitSegment {
    pub bookmark: String,
    /// Branch this segment's PR merges into: the trunk branch for the
    /// bottom segment, the bookmark below otherwise.
    pub base: String,
    /// Change ids in the segment, bottom-first.
    pub change_ids: Vec<String>,
    /// PR title the segment would get (or has): the bottom change's
    /// description first line.
    pub title: String,
    /// The open PR GitHub already has for this bookmark, when one exists.
    pub pr: Option<PrSummary>,
}

/// The mathematical content of a [`SubmitSegment`].
pub ghost struct SegmentView {
    pub bookmark: Seq<char>,
    pub base: Seq<char>,
    pub change_ids: Seq<Seq<char>>,
    pub title: Seq<char>,
    pub pr: Option<PrSummary>,
}

impl View for SubmitSegment {
    type V = SegmentView;

    open spec fn view(&self) -> SegmentView {
        SegmentView {
            bookmark: self.bookmark@,
            base: self.base@,
            change_ids: str_views(self.change_ids@),
            title: self.title@,
            pr: self.pr,
        }
    }
}

/// One remote action the plan will run, in execution order.
#[derive(Debug, Clone, PartialEq, Eq)]
pub enum SubmitAction {
    /// Update the remote branch behind a bookmark; all pushes in a plan
    /// run as one batched operation.
    Push { bookmark: String, create: bool },
    /// Open a pull request for a segment.
    CreatePr { bookmark: String, base: String, title: String, body: String },
    /// Point an existing PR at the base the stack shape expects.
    RetargetPr { number: u64, bookmark: String, from_base: String, to_base: String },
    /// Rewrite an existing PR's Jiji-managed text from the commits. Hand
    /// edits survive: only text Jiji provably wrote is replaced.
    UpdatePrText {
        number: u64,
        bookmark: String,
        /// The title to set; `None` leaves the PR's title alone.
        title: Option<String>,
        /// The full replacement body.
        body: String,
        /// True when nothing visible changes — the write only records
        /// Jiji's fingerprints on a PR it recognizes as its own.
        seed: bool,
    },
    /// Post or refresh the stack-info comment.
    SyncStackComment {
        bookmark: String,
        /// The PR's number; `None` when the PR is created earlier in this
        /// same plan and the number is not known yet.
        number: Option<u64>,
        /// True posts a new comment; false edits the existing one.
        create: bool,
    },
}

/// The mathematical content of a [`SubmitAction`].
pub ghost enum ActionView {
    Push { bookmark: Seq<char>, create: bool },
    CreatePr { bookmark: Seq<char>, base: Seq<char>, title: Seq<char>, body: Seq<char> },
    RetargetPr { number: u64, bookmark: Seq<char>, from_base: Seq<char>, to_base: Seq<char> },
    UpdatePrText {
        number: u64,
        bookmark: Seq<char>,
        title: Option<Seq<char>>,
        body: Seq<char>,
        seed: bool,
    },
    SyncStackComment { bookmark: Seq<char>, number: Option<u64>, create: bool },
}

impl View for SubmitAction {
    type V = ActionView;

    open spec fn view(&self) -> ActionView {
        match self {
            SubmitAction::Push { bookmark, create } => ActionView::Push {
                bookmark: bookmark@,
                create: *create,
            },
            SubmitAction::CreatePr { bookmark, base, title, body } => ActionView::CreatePr {
                bookmark: bookmark@,
                base: base@,
                title: title@,
                body: body@,
            },
            SubmitAction::RetargetPr { number, bookmark, from_base, to_base } => {
                ActionView::RetargetPr {
                    number: *number,
                    bookmark: bookmark@,
                    from_base: from_base@,
                    to_base: to_base@,
                }
            },
            SubmitAction::UpdatePrText { number, bookmark, title, body, seed } => {
                ActionView::UpdatePrText {
                    number: *number,
                    bookmark: bookmark@,
                    title: opt_view(*title),
                    body: body@,
                    seed: *seed,
                }
            },
            SubmitAction::SyncStackComment { bookmark, number, create } => {
                ActionView::SyncStackComment { bookmark: bookmark@, number: *number, create: *create }
            },
        }
    }
}

/// The views of a list of actions.
pub open spec fn action_views(v: Seq<SubmitAction>) -> Seq<ActionView> {
    v.map_values(|a: SubmitAction| a@)
}

impl SubmitAction {
    /// A copy with the same content.
    pub fn duplicate(&self) -> (r: SubmitAction)
        ensures
            r@ == self@,
    {
        match self {
            SubmitAction::Push { bookmark, create } => SubmitAction::Push {
                bookmark: bookmark.clone(),
                create: *create,
            },
            SubmitAction::CreatePr { bookmark, base, title, body } => SubmitAction::CreatePr {
                bookmark: bookmark.clone(),
                base: base.clone(),
                title: title.clone(),
                body: body.clone(),
            },
            SubmitAction::RetargetPr { number, bookmark, from_base, to_base } => {
                SubmitAction::RetargetPr {
                    number: *number,
                    bookmark: bookmark.clone(),
                    from_base: from_base.clone(),
                    to_base: to_base.clone(),
                }
            },
            SubmitAction::UpdatePrText { number, bookmark, title, body, seed } => {
                SubmitAction::UpdatePrText {
                    number: *number,
                    bookmark: bookmark.clone(),
                    title: clone_opt_string(title),
                    body: body.clone(),
                    seed: *seed,
                }
            },
            SubmitAction::SyncStackComment { bookmark, number, create } => {
                SubmitAction::SyncStackComment {
                    bookmark: bookmark.clone(),
                    number: *number,
                    create: *create,
                }
            },
        }
    }

    /// Whether this is a push.
    pub fn is_push(&self) -> (r: bool)
        ensures
            r == (self is Push),
    {
        match self {
            SubmitAction::Push { .. } => true,
            _ => false,
        }
    }
}

/// What submitting a stack will do, derived before anything runs.
#[derive(Debug, Clone, PartialEq, Eq)]
pub struct SubmitPlan {
    /// The bookmark the plan publishes up to (the stack's top bookmark).
    pub head_bookmark: String,
    /// Git remote the pushes go to — the detected forge repo's remote.
    pub remote: String,
    /// The trunk branch the bottom segment's PR targets.
    pub base_branch: String,
    /// The stack's publishable segments, bottom-up.
    pub segments: Vec<SubmitSegment>,
    /// Everything that will run, in order. Empty means up to date.
    pub actions: Vec<SubmitAction>,
    /// Problems that stop the plan from running at all.
    pub blockers: Vec<String>,
    /// Worth knowing, but the plan still runs.
    pub warnings: Vec<String>,
    /// The stack-info comment as it will read, rendered for the panel
    /// when the plan syncs comments.
    pub stack_comment_preview: Option<String>,
    /// Where the repo's PR template lives, when this plan creates a PR
    /// whose body folds it in.
    pub pr_template_path: Option<String>,
}

/// A PR's existing Jiji stack comment, found by its sentinel.
#[derive(Debug, Clone, PartialEq, Eq)]
pub struct ExistingComment {
    pub id: u64,
    pub body: String,
}

/// Where planning reads existing stack comments from. Split out of
/// [`SubmitForge`] because planning only reads.
///
/// Each request has a name for its answers, which a host may define (one
/// that does not leaves every answer open) and the library assumes nothing
/// of: it only lets a contract say which request an answer came from.
pub trait StackCommentSource {
    /// `r` answers the question which stack comment PR `number` carries.
    closed spec fn comment_answer(&self, number: u64, r: Result<Option<ExistingComment>, ForgeError>) -> bool {
        true
    }

    fn stack_comment(&self, number: u64) -> (r: Result<Option<ExistingComment>, ForgeError>)
        ensures
            self.comment_answer(number, r),
    ;
}

/// `a` is what the source answered for a segment's PR, if it has one.
pub open spec fn comment_asked<C: StackCommentSource>(comments: &C, pr: Option<PrSummary>, a: Option<ExistingComment>) -> bool {
    match pr {
        Some(p) => comments.comment_answer(p.number, Ok(a)),
        None => a is None,
    }
}

/// `answers` are the source's answers for the PRs of `live`, segment by
/// segment (nothing for a segment without a PR).
pub open spec fn comments_answered<C: StackCommentSource>(
    comments: &C,
    live: Seq<(Seq<char>, Option<PrSummary>)>,
    answers: Seq<Option<ExistingComment>>,
) -> bool {
    &&& answers.len() == live.len()
    &&& forall|i: int| 0 <= i < live.len() ==> #[trigger] comment_asked(comments, live[i].1, answers[i])
}

/// The source failed with `e` when asked for the comment of one of the
/// PRs of `live`.
pub open spec fn comment_read_failed<C: StackCommentSource>(
    comments: &C,
    live: Seq<(Seq<char>, Option<PrSummary>)>,
    e: ForgeError,
) -> bool {
    exists|i: int| 0 <= i < live.len() && #[trigger] pr_comment_failed(comments, live[i].1, e)
}

/// The source failed with `e` when asked for the comment of the PR `pr`.
pub open spec fn pr_comment_failed<C: StackCommentSource>(comments: &C, pr: Option<PrSummary>, e: ForgeError) -> bool {
    match pr {
        Some(p) => comments.comment_answer(p.number, Err(e)),
        None => false,
    }
}

/// The forge side of executing a plan; implemented by the host over the
/// real client, a stub in tests. Its requests have names for their
/// answers, as [`StackCommentSource`]'s do.
pub trait SubmitForge: StackCommentSource {
    /// `r` answers opening a PR titled `title` with `body`, from `head` onto `base`.
    closed spec fn create_answer(
        &self,
        title: Seq<char>,
        body: Seq<char>,
        head: Seq<char>,
        base: Seq<char>,
        r: Result<PrSummary, ForgeError>,
    ) -> bool {
        true
    }

    /// `r` answers retargeting PR `number` onto `base`.
    closed spec fn retarget_answer(&self, number: u64, base: Seq<char>, r: Result<(), ForgeError>) -> bool {
        true
    }

    /// `r` answers rewriting PR `number`'s body to `body` (and its title to
    /// `title`, when given).
    closed spec fn text_answer(&self, number: u64, title: Option<Seq<char>>, body: Seq<char>, r: Result<(), ForgeError>) -> bool {
        true
    }

    /// `r` answers posting a comment reading `body` on PR `number`.
    closed spec fn post_answer(&self, number: u64, body: Seq<char>, r: Result<(), ForgeError>) -> bool {
        true
    }

    /// `r` answers editing comment `id` to read `body`.
    closed spec fn edit_answer(&self, id: u64, body: Seq<char>, r: Result<(), ForgeError>) -> bool {
        true
    }

    fn create_pr(&self, title: &str, body: &str, head: &str, base: &str) -> (r: Result<PrSummary, ForgeError>)
        ensures
            self.create_answer(title@, body@, head@, base@, r),
    ;

    fn update_pr_base(&self, number: u64, base: &str) -> (r: Result<(), ForgeError>)
        ensures
            self.retarget_answer(number, base@, r),
    ;

    fn update_pr_text(&self, number: u64, title: Option<&str>, body: &str) -> (r: Result<(), ForgeError>)
        ensures
            self.text_answer(number, opt_str_view(title), body@, r),
    ;

    fn create_comment(&self, number: u64, body: &str) -> (r: Result<(), ForgeError>)
        ensures
            self.post_answer(number, body@, r),
    ;

    fn update_comment(&self, comment_id: u64, body: &str) -> (r: Result<(), ForgeError>)
        ensures
            self.edit_answer(comment_id, body@, r),
    ;
}

/// The text of an optional string slice.
pub open spec fn opt_str_view(o: Option<&str>) -> Option<Seq<char>> {
    match o {
        Some(t) => Some(t@),
        None => None,
    }
}

/// The jj side of executing a plan: one call pushes all of a plan's
/// bookmarks as one operation; the answer is the outcome summary. Its
/// answers have a name, as [`SubmitForge`]'s do.
pub trait SubmitVcs {
    /// `r` answers a push of `bookmarks` to `remote`.
    closed spec fn push_answer(&self, bookmarks: Seq<Seq<char>>, remote: Seq<char>, r: Result<String, BackendError>) -> bool {
        true
    }

    fn push_bookmarks(&self, bookmarks: &[String], remote: &str) -> (r: Result<String, BackendError>)
        ensures
            self.push_answer(str_views(bookmarks@), remote@, r),
    ;
}

// ---------------------------------------------------------------------
// Planning, one segment at a time
// ---------------------------------------------------------------------

/// Planning progress after some segments.
pub ghost struct PlanAcc {
    /// The base the next segment's PR targets.
    pub base: Seq<char>,
    pub segments: Seq<SegmentView>,
    pub pushes: Seq<ActionView>,
    pub creates: Seq<ActionView>,
    pub retargets: Seq<ActionView>,
    pub texts: Seq<ActionView>,
    pub blockers: Seq<Seq<char>>,
    /// Segments that will have a PR once the plan runs, bottom-up.
    pub live: Seq<(Seq<char>, Option<PrSummary>)>,
}

/// Every change of the segment is empty.
pub open spec fn all_empty(nodes: Seq<GraphNode>, idx: Seq<int>) -> bool {
    forall|t: int| 0 <= t < idx.len() ==> #[trigger] nodes[idx[t]].is_empty
}

/// Why one change cannot be pushed.
pub open spec fn change_blockers(n: GraphNode) -> Seq<Seq<char>> {
    (if n.description@.len() == 0 {
        seq![n.change_id@ + " has no description; describe it first"@]
    } else {
        Seq::empty()
    }) + (if n.has_conflict {
        seq![n.change_id@ + " has conflicts; resolve them first"@]
    } else {
        Seq::empty()
    }) + (if n.is_divergent {
        seq![n.change_id@ + " is divergent; resolve the divergence first"@]
    } else {
        Seq::empty()
    })
}

/// Why the segment's changes cannot be pushed, bottom-up.
pub open spec fn segment_blockers(nodes: Seq<GraphNode>, idx: Seq<int>) -> Seq<Seq<char>>
    decreases idx.len(),
{
    if idx.len() == 0 {
        Seq::empty()
    } else {
        segment_blockers(nodes, idx.drop_last()) + change_blockers(nodes[idx.last()])
    }
}

/// The blocker for a conflicted bookmark.
pub open spec fn conflicted_bookmark_msg(name: Seq<char>) -> Seq<char> {
    "bookmark \u{201c}"@ + name + "\u{201d} is conflicted; repoint it before publishing"@
}

/// The ids of the segment's changes.
pub open spec fn segment_ids(nodes: Seq<GraphNode>, idx: Seq<int>) -> Seq<Seq<char>> {
    idx.map_values(|t: int| nodes[t].id@)
}

/// The body the PR text is reconciled against.
pub open spec fn body_or_empty(b: Option<String>) -> Seq<char> {
    match b {
        Some(s) => s@,
        None => Seq::empty(),
    }
}

/// Planning one more segment.
pub open spec fn plan_step(
    snap: RepoSnapshot,
    prs: RepoPrState,
    template: Option<Seq<char>>,
    acc: PlanAcc,
    seg: (Seq<char>, Seq<int>),
) -> PlanAcc {
    let nodes = snap.nodes@;
    let bms = snap.bookmarks@;
    let name = seg.0;
    let idx = seg.1;
    let bottom = nodes[idx[0]];
    let tb = derive_title_body_spec(bottom.description@, name);
    let pr = prs.pr_for(name);
    let segment = SegmentView {
        bookmark: name,
        base: acc.base,
        change_ids: segment_ids(nodes, idx),
        title: tb.0,
        pr,
    };
    if all_empty(nodes, idx) {
        PlanAcc { base: name, segments: acc.segments.push(segment), ..acc }
    } else {
        let st = bms[bookmark_index(bms, name, false)->0];
        let needs_push = st.sync != SyncState::Synced || st.remote is None;
        let blockers = if needs_push {
            acc.blockers + (if bookmark_conflicted(snap.conflicts@, name) {
                seq![conflicted_bookmark_msg(name)]
            } else {
                Seq::empty()
            }) + segment_blockers(nodes, idx)
        } else {
            acc.blockers
        };
        let pushes = if needs_push {
            acc.pushes.push(ActionView::Push { bookmark: name, create: st.sync == SyncState::LocalOnly })
        } else {
            acc.pushes
        };
        let creates = match pr {
            Some(_) => acc.creates,
            None => acc.creates.push(
                ActionView::CreatePr {
                    bookmark: name,
                    base: acc.base,
                    title: tb.0,
                    body: new_pr_body_spec(tb.1, tb.0, template),
                },
            ),
        };
        let retargets = match pr {
            Some(p) => if p.base_branch@ != acc.base {
                acc.retargets.push(
                    ActionView::RetargetPr {
                        number: p.number,
                        bookmark: name,
                        from_base: p.base_branch@,
                        to_base: acc.base,
                    },
                )
            } else {
                acc.retargets
            },
            None => acc.retargets,
        };
        let texts = match pr {
            Some(p) => if bottom.description@.len() > 0 {
                let tp = plan_pr_text_spec(p.title@, body_or_empty(p.body), tb.0, tb.1);
                match tp.body {
                    Some(b) => acc.texts.push(
                        ActionView::UpdatePrText {
                            number: p.number,
                            bookmark: name,
                            title: tp.title,
                            body: b,
                            seed: tp.seed,
                        },
                    ),
                    None => acc.texts,
                }
            } else {
                acc.texts
            },
            None => acc.texts,
        };
        PlanAcc {
            base: name,
            segments: acc.segments.push(segment),
            pushes,
            creates,
            retargets,
            texts,
            blockers,
            live: acc.live.push((name, pr)),
        }
    }
}

/// Planning the first `k` segments.
pub open spec fn plan_upto(
    snap: RepoSnapshot,
    prs: RepoPrState,
    template: Option<Seq<char>>,
    segs: Seq<(Seq<char>, Seq<int>)>,
    k: int,
) -> PlanAcc
    decreases k,
{
    if k <= 0 {
        PlanAcc {
            base: snap.trunk_bookmark@,
            segments: Seq::empty(),
            pushes: Seq::empty(),
            creates: Seq::empty(),
            retargets: Seq::empty(),
            texts: Seq::empty(),
            blockers: Seq::empty(),
            live: Seq::empty(),
        }
    } else {
        plan_step(snap, prs, template, plan_upto(snap, prs, template, segs, k - 1), segs[k - 1])
    }
}

/// The plan for the whole stack (before stack comments).
pub open spec fn stack_plan(
    snap: RepoSnapshot,
    prs: RepoPrState,
    head: Seq<char>,
    template: Option<Seq<char>>,
) -> PlanAcc {
    let segs = stack_segs(snap, prs, head).0;
    plan_upto(snap, prs, template, segs, segs.len() as int)
}

/// Segments produced by the analysis are well formed: non-empty, inside
/// the node list, and named by a local non-trunk bookmark.
pub open spec fn segs_wf(nodes: Seq<GraphNode>, bms: Seq<BookmarkState>, segs: Seq<(Seq<char>, Seq<int>)>) -> bool {
    forall|t: int|
        0 <= t < segs.len() ==> {
            &&& (#[trigger] segs[t]).1.len() > 0
            &&& is_local_branch(bms, segs[t].0)
            &&& forall|u: int| 0 <= u < segs[t].1.len() ==> 0 <= #[trigger] segs[t].1[u] < nodes.len()
        }
}

/// The preferred name is one of the names.
proof fn lemma_best_in(names: Seq<Seq<char>>, head: Seq<char>, prs: RepoPrState)
    requires
        names.len() > 0,
    ensures
        names.contains(best_name(names, head, prs)),
    decreases names.len(),
{
    if names.len() > 1 {
        lemma_best_in(names.drop_last(), head, prs);
        let b = best_name(names.drop_last(), head, prs);
        let k = choose|k: int| 0 <= k < names.drop_last().len() && names.drop_last()[k] == b;
        assert(names[k] == b);
        assert(names[names.len() - 1] == names.last());
    } else {
        assert(names[0] == best_name(names, head, prs));
    }
}

/// Every kept name is a local non-trunk bookmark.
proof fn lemma_keep_local(names: Seq<Seq<char>>, bms: Seq<BookmarkState>)
    ensures
        forall|i: int|
            0 <= i < keep_local(names, bms).len() ==> is_local_branch(
                bms,
                #[trigger] keep_local(names, bms)[i],
            ),
    decreases names.len(),
{
    if names.len() > 0 {
        lemma_keep_local(names.drop_last(), bms);
        let p = keep_local(names.drop_last(), bms);
        let cur = keep_local(names, bms);
        assert forall|i: int| 0 <= i < cur.len() implies is_local_branch(bms, #[trigger] cur[i]) by {
            if i < p.len() {
                assert(cur[i] == p[i]);
            }
        }
    }
}

/// The analysis yields well-formed segments.
pub proof fn lemma_segs_wf(
    nodes: Seq<GraphNode>,
    bms: Seq<BookmarkState>,
    chain: Seq<int>,
    k: int,
    head: Seq<char>,
    prs: RepoPrState,
)
    requires
        0 <= k <= chain.len(),
        forall|t: int| 0 <= t < chain.len() ==> 0 <= #[trigger] chain[t] < nodes.len(),
    ensures
        segs_wf(nodes, bms, segs_upto(nodes, bms, chain, k, head, prs).0),
        forall|u: int|
            0 <= u < segs_upto(nodes, bms, chain, k, head, prs).1.len() ==> 0
                <= #[trigger] segs_upto(nodes, bms, chain, k, head, prs).1[u] < nodes.len(),
    decreases k,
{
    if k > 0 {
        lemma_segs_wf(nodes, bms, chain, k - 1, head, prs);
        let prev = segs_upto(nodes, bms, chain, k - 1, head, prs);
        let i = chain[k - 1];
        let names = node_names(nodes[i], bms);
        if names.len() > 0 {
            lemma_best_in(names, head, prs);
            lemma_keep_local(str_views(nodes[i].bookmarks@), bms);
            let b = best_name(names, head, prs);
            let j = choose|j: int| 0 <= j < names.len() && names[j] == b;
            assert(is_local_branch(bms, names[j]));
            let cur = segs_upto(nodes, bms, chain, k, head, prs).0;
            assert forall|t: int| 0 <= t < cur.len() implies {
                &&& (#[trigger] cur[t]).1.len() > 0
                &&& is_local_branch(bms, cur[t].0)
                &&& forall|u: int| 0 <= u < cur[t].1.len() ==> 0 <= #[trigger] cur[t].1[u] < nodes.len()
            } by {
                if t < cur.len() - 1 {
                    assert(cur[t] == prev.0[t]);
                } else {
                    assert(cur[t] == (b, prev.1.push(i)));
                    assert forall|u: int| 0 <= u < cur[t].1.len() implies 0 <= #[trigger] cur[t].1[u] < nodes.len() by {
                        if u < prev.1.len() {
                            assert(cur[t].1[u] == prev.1[u]);
                        }
                    }
                }
            }
        } else {
            let cur = segs_upto(nodes, bms, chain, k, head, prs);
            assert forall|u: int| 0 <= u < cur.1.len() implies 0 <= #[trigger] cur.1[u] < nodes.len() by {
                if u < prev.1.len() {
                    assert(cur.1[u] == prev.1[u]);
                }
            }
        }
    }
}


/// Decimal text of a number.
fn num_text(n: u64) -> (r: String)
    ensures
        r@ == dec(n as nat),
{
    string_of(&decimal(n))
}

/// Planning progress, as executable values.
struct PlanState {
    base: String,
    segments: Vec<SubmitSegment>,
    pushes: Vec<SubmitAction>,
    creates: Vec<SubmitAction>,
    retargets: Vec<SubmitAction>,
    texts: Vec<SubmitAction>,
    blockers: Vec<String>,
    warnings: Vec<String>,
    live: Vec<(String, Option<PrSummary>)>,
}

/// The views of a list of segments.
pub open spec fn segment_views(v: Seq<SubmitSegment>) -> Seq<SegmentView> {
    v.map_values(|x: SubmitSegment| x@)
}

/// The views of the live list.
pub open spec fn live_views(v: Seq<(String, Option<PrSummary>)>) -> Seq<(Seq<char>, Option<PrSummary>)> {
    v.map_values(|e: (String, Option<PrSummary>)| (e.0@, e.1))
}

spec fn state_view(st: PlanState) -> PlanAcc {
    PlanAcc {
        base: st.base@,
        segments: segment_views(st.segments@),
        pushes: action_views(st.pushes@),
        creates: action_views(st.creates@),
        retargets: action_views(st.retargets@),
        texts: action_views(st.texts@),
        blockers: str_views(st.blockers@),
        live: live_views(st.live@),
    }
}

/// The template text a plan folds in, as a view.
pub open spec fn template_view(t: Option<&PrTemplate>) -> Option<Seq<char>> {
    match t {
        Some(t) => Some(t.text@),
        None => None,
    }
}

/// Push one string, keeping the views in step.
fn push_string(v: &mut Vec<String>, s: String)
    ensures
        str_views(final(v)@) == str_views(old(v)@).push(s@),
{
    let ghost before = v@;
    v.push(s);
    assert(str_views(v@) =~= str_views(before).push(s@));
}

/// Push one action, keeping the views in step.
fn push_action(v: &mut Vec<SubmitAction>, a: SubmitAction)
    ensures
        action_views(final(v)@) == action_views(old(v)@).push(a@),
{
    let ghost before = v@;
    v.push(a);
    assert(action_views(v@) =~= action_views(before).push(a@));
}

/// Why the segment's changes cannot be pushed, appended to `out`.
pub fn push_change_blockers(nodes: &Vec<GraphNode>, idx: &Vec<usize>, out: &mut Vec<String>)
    requires
        forall|u: int| 0 <= u < idx@.len() ==> #[trigger] idx@[u] < nodes@.len(),
    ensures
        str_views(final(out)@) == str_views(old(out)@) + segment_blockers(nodes@, ints(idx@)),
{
    let ghost start = str_views(out@);
    let mut j: usize = 0;
    while j < idx.len()
        invariant
            j <= idx@.len(),
            forall|u: int| 0 <= u < idx@.len() ==> #[trigger] idx@[u] < nodes@.len(),
            str_views(out@) == start + segment_blockers(nodes@, ints(idx@).take(j as int)),
        decreases idx@.len() - j,
    {
        let node = &nodes[idx[j]];
        let ghost before = str_views(out@);
        let change = node.change_id.as_str();
        if node.description.as_str().is_empty() {
            let mut m = chars_of(change);
            push_str(&mut m, " has no description; describe it first");
            push_string(out, string_of(&m));
        }
        if node.has_conflict {
            let mut m = chars_of(change);
            push_str(&mut m, " has conflicts; resolve them first");
            push_string(out, string_of(&m));
        }
        if node.is_divergent {
            let mut m = chars_of(change);
            push_str(&mut m, " is divergent; resolve the divergence first");
            push_string(out, string_of(&m));
        }
        proof {
            let t = ints(idx@).take(j + 1);
            assert(t.drop_last() =~= ints(idx@).take(j as int));
            assert(t.last() == idx@[j as int] as int);
            assert(str_views(out@) =~= before + change_blockers(nodes@[idx@[j as int] as int]));
            assert(str_views(out@) =~= start + segment_blockers(nodes@, t));
        }
        j += 1;
    }
    assert(ints(idx@).take(idx@.len() as int) =~= ints(idx@));
}

/// The warning a text reconciliation leaves on PR `number` of segment
/// `name`, if any: a title drift is only worth a warning for a one-change
/// segment, whose title the commit owns.
pub open spec fn text_warning_spec(
    w: TextWarning,
    number: u64,
    name: Seq<char>,
    pr_title: Seq<char>,
    title: Seq<char>,
    single: bool,
) -> Option<Seq<char>> {
    let head = "#"@ + dec(number as nat) + " ("@ + name;
    match w {
        TextWarning::BodyConflict { unfingerprinted: false } => Some(
            head
                + "): the PR description and the commit description both changed since Jiji last wrote it; leaving the PR text alone"@,
        ),
        TextWarning::BodyConflict { unfingerprinted: true } => Some(
            head + "): the PR description was edited on GitHub (or predates Jiji's tracking); leaving it alone"@,
        ),
        TextWarning::TitleConflict => Some(
            head + "): the PR title and the commit's first line both changed; leaving the title alone"@,
        ),
        TextWarning::TitleDrift => if single {
            Some(
                head + "): the PR title (\u{201c}"@ + pr_title + "\u{201d}) differs from the commit (\u{201c}"@ + title
                    + "\u{201d}) and Jiji does not know which is intended"@,
            )
        } else {
            None
        },
    }
}

/// The warnings the first `k` text-reconciliation warnings leave.
pub open spec fn text_warnings_spec(
    ws: Seq<TextWarning>,
    number: u64,
    name: Seq<char>,
    pr_title: Seq<char>,
    title: Seq<char>,
    single: bool,
    k: int,
) -> Seq<Seq<char>>
    decreases k,
{
    if k <= 0 {
        Seq::empty()
    } else {
        let rest = text_warnings_spec(ws, number, name, pr_title, title, single, k - 1);
        match text_warning_spec(ws[k - 1], number, name, pr_title, title, single) {
            Some(m) => rest.push(m),
            None => rest,
        }
    }
}

/// The warning a text reconciliation leaves, if any.
fn text_warning(w: TextWarning, number: u64, name: &str, pr_title: &str, title: &str, single: bool) -> (r: Option<String>)
    ensures
        opt_view(r) == text_warning_spec(w, number, name@, pr_title@, title@, single),
{
    let n = num_text(number);
    let head = cat3("#", n.as_str(), " (");
    let head = cat2(head.as_str(), name);
    match w {
        TextWarning::BodyConflict { unfingerprinted: false } => Some(cat2(head.as_str(), "): the PR description and the commit description both changed since Jiji last wrote it; leaving the PR text alone")),
        TextWarning::BodyConflict { unfingerprinted: true } => Some(cat2(head.as_str(), "): the PR description was edited on GitHub (or predates Jiji's tracking); leaving it alone")),
        TextWarning::TitleConflict => Some(cat2(head.as_str(), "): the PR title and the commit's first line both changed; leaving the title alone")),
        TextWarning::TitleDrift => if single {
            let a = cat5(head.as_str(), "): the PR title (\u{201c}", pr_title, "\u{201d}) differs from the commit (\u{201c}", title);
            Some(cat2(a.as_str(), "\u{201d}) and Jiji does not know which is intended"))
        } else {
            None
        },
    }
}

/// What pushing a bookmark from its sync state warns about.
pub open spec fn sync_warnings(sync: SyncState, name: Seq<char>) -> Seq<Seq<char>> {
    match sync {
        SyncState::Behind => seq![
            "\u{201c}"@ + name + "\u{201d} is behind its remote; the push moves the remote branch backwards"@,
        ],
        SyncState::Diverged => seq![
            "\u{201c}"@ + name + "\u{201d} and its remote have diverged; the push replaces the remote position"@,
        ],
        _ => Seq::empty(),
    }
}

/// The warning for a segment whose changes are all empty.
pub open spec fn empty_segment_msg(name: Seq<char>) -> Seq<char> {
    "every change under \u{201c}"@ + name + "\u{201d} is empty; skipping its push and PR"@
}

/// What planning one segment warns about, in order: an all-empty segment
/// is skipped with a warning; otherwise a push from a behind or diverged
/// bookmark warns, then the PR text reconciliation's warnings.
pub open spec fn segment_warnings(snap: RepoSnapshot, prs: RepoPrState, seg: (Seq<char>, Seq<int>)) -> Seq<
    Seq<char>,
> {
    let nodes = snap.nodes@;
    let bms = snap.bookmarks@;
    let name = seg.0;
    let idx = seg.1;
    let bottom = nodes[idx[0]];
    let tb = derive_title_body_spec(bottom.description@, name);
    if all_empty(nodes, idx) {
        seq![empty_segment_msg(name)]
    } else {
        let st = bms[bookmark_index(bms, name, false)->0];
        let needs_push = st.sync != SyncState::Synced || st.remote is None;
        (if needs_push {
            sync_warnings(st.sync, name)
        } else {
            Seq::empty()
        }) + match prs.pr_for(name) {
            Some(p) => if bottom.description@.len() > 0 {
                let ws = plan_pr_text_spec(p.title@, body_or_empty(p.body), tb.0, tb.1).warnings;
                text_warnings_spec(ws, p.number, name, p.title@, tb.0, idx.len() == 1, ws.len() as int)
            } else {
                Seq::empty()
            },
            None => Seq::empty(),
        }
    }
}

/// What planning the first `k` segments warns about.
pub open spec fn warnings_upto(
    snap: RepoSnapshot,
    prs: RepoPrState,
    segs: Seq<(Seq<char>, Seq<int>)>,
    k: int,
) -> Seq<Seq<char>>
    decreases k,
{
    if k <= 0 {
        Seq::empty()
    } else {
        warnings_upto(snap, prs, segs, k - 1) + segment_warnings(snap, prs, segs[k - 1])
    }
}

/// Why a submit plan may recreate an existing PR.
pub open spec fn submit_truncation_msg() -> Seq<char> {
    "GitHub answered only the 100 most recently updated open PRs; an existing PR past that may be missed and recreated"@
}

/// The warning that the open-PR answer was cut short, when it was.
pub open spec fn truncation_warnings(prs: RepoPrState, text: Seq<char>) -> Seq<Seq<char>> {
    if prs.report.truncated {
        seq![text]
    } else {
        Seq::empty()
    }
}

/// The segment's change ids, and whether every change is empty.
pub fn segment_facts(nodes: &Vec<GraphNode>, idx: &Vec<usize>) -> (r: (Vec<String>, bool))
    requires
        forall|u: int| 0 <= u < idx@.len() ==> #[trigger] idx@[u] < nodes@.len(),
    ensures
        str_views(r.0@) == segment_ids(nodes@, ints(idx@)),
        r.1 == all_empty(nodes@, ints(idx@)),
{
    let mut change_ids: Vec<String> = Vec::new();
    let mut empty = true;
    let mut j: usize = 0;
    while j < idx.len()
        invariant
            j <= idx@.len(),
            forall|u: int| 0 <= u < idx@.len() ==> #[trigger] idx@[u] < nodes@.len(),
            str_views(change_ids@) == segment_ids(nodes@, ints(idx@).take(j as int)),
            empty == all_empty(nodes@, ints(idx@).take(j as int)),
        decreases idx@.len() - j,
    {
        let ghost before = change_ids@;
        let ghost t = ints(idx@).take(j + 1);
        change_ids.push(nodes[idx[j]].id.clone());
        proof {
            assert(t.drop_last() =~= ints(idx@).take(j as int));
            assert(t[j as int] == idx@[j as int] as int);
            assert(str_views(change_ids@) =~= str_views(before).push(nodes@[idx@[j as int] as int].id@));
            assert(segment_ids(nodes@, t) =~= segment_ids(nodes@, t.drop_last()).push(nodes@[t[j as int]].id@));
        }
        if !nodes[idx[j]].is_empty {
            empty = false;
        }
        proof {
            if empty {
                assert forall|u: int| 0 <= u < t.len() implies #[trigger] nodes@[t[u]].is_empty by {
                    if u < j {
                        assert(t[u] == ints(idx@).take(j as int)[u]);
                    }
                }
            } else {
                if all_empty(nodes@, ints(idx@).take(j as int)) {
                    assert(!nodes@[t[j as int]].is_empty);
                } else {
                    let u = choose|u: int| 0 <= u < j && !nodes@[ints(idx@).take(j as int)[u]].is_empty;
                    assert(t[u] == ints(idx@).take(j as int)[u]);
                }
            }
        }
        j += 1;
    }
    assert(ints(idx@).take(idx@.len() as int) =~= ints(idx@));
    (change_ids, empty)
}

/// The push half of a segment that has changes: its push action, and what
/// blocks it.
fn plan_push_part(snapshot: &RepoSnapshot, seg: &RawSegment, st: &mut PlanState)
    requires
        seg.nodes@.len() > 0,
        forall|u: int| 0 <= u < seg.nodes@.len() ==> #[trigger] seg.nodes@[u] < snapshot.nodes@.len(),
        is_local_branch(snapshot.bookmarks@, seg.bookmark@),
    ensures
        ({
            let bms = snapshot.bookmarks@;
            let name = seg.bookmark@;
            let stb = bms[bookmark_index(bms, name, false)->0];
            let needs_push = stb.sync != SyncState::Synced || stb.remote is None;
            &&& state_view(*final(st)).blockers == if needs_push {
                state_view(*old(st)).blockers + (if bookmark_conflicted(snapshot.conflicts@, name) {
                    seq![conflicted_bookmark_msg(name)]
                } else {
                    Seq::empty()
                }) + segment_blockers(snapshot.nodes@, ints(seg.nodes@))
            } else {
                state_view(*old(st)).blockers
            }
            &&& state_view(*final(st)).pushes == if needs_push {
                state_view(*old(st)).pushes.push(
                    ActionView::Push { bookmark: name, create: stb.sync == SyncState::LocalOnly },
                )
            } else {
                state_view(*old(st)).pushes
            }
        }),
        ({
            let bms = snapshot.bookmarks@;
            let stb = bms[bookmark_index(bms, seg.bookmark@, false)->0];
            let needs_push = stb.sync != SyncState::Synced || stb.remote is None;
            str_views(final(st).warnings@) == str_views(old(st).warnings@) + if needs_push {
                sync_warnings(stb.sync, seg.bookmark@)
            } else {
                Seq::empty()
            }
        }),
        final(st).base == old(st).base,
        final(st).segments == old(st).segments,
        final(st).creates == old(st).creates,
        final(st).retargets == old(st).retargets,
        final(st).texts == old(st).texts,
        final(st).live == old(st).live,
{
    let ghost wstart = str_views(st.warnings@);
    let name = seg.bookmark.as_str();
    let k = match find_bookmark(&snapshot.bookmarks, name, false) {
        Some(k) => k,
        None => {
            proof {
                lemma_bookmark_index(snapshot.bookmarks@, name@, false);
                let j = choose|j: int|
                    0 <= j < snapshot.bookmarks@.len() && #[trigger] snapshot.bookmarks@[j].name@
                        == name@ && snapshot.bookmarks@[j].is_local && !snapshot.bookmarks@[j].is_trunk;
                assert(!(snapshot.bookmarks@[j].name@ == name@ && (!false || snapshot.bookmarks@[j].is_local)));
            }
            return;
        },
    };
    proof {
        lemma_bookmark_index(snapshot.bookmarks@, name@, false);
    }
    let state = &snapshot.bookmarks[k];
    let needs_push = state.sync != SyncState::Synced || state.remote.is_none();
    if needs_push {
        if is_bookmark_conflicted(&snapshot.conflicts, name) {
            let mut v = chars_of("bookmark \u{201c}");
            push_str(&mut v, name);
            push_str(&mut v, "\u{201d} is conflicted; repoint it before publishing");
            push_string(&mut st.blockers, string_of(&v));
        }
        push_change_blockers(&snapshot.nodes, &seg.nodes, &mut st.blockers);
        match state.sync {
            SyncState::Behind => push_string(&mut st.warnings, cat3("\u{201c}", name, "\u{201d} is behind its remote; the push moves the remote branch backwards")),
            SyncState::Diverged => push_string(&mut st.warnings, cat3("\u{201c}", name, "\u{201d} and its remote have diverged; the push replaces the remote position")),
            _ => {},
        }
        assert(str_views(st.warnings@) =~= wstart + sync_warnings(state.sync, name@));
        push_action(
            &mut st.pushes,
            SubmitAction::Push { bookmark: seg.bookmark.clone(), create: state.sync == SyncState::LocalOnly },
        );
    } else {
        assert(str_views(st.warnings@) =~= wstart + Seq::<Seq<char>>::empty());
    }
}

/// The text half of a segment with a PR: the update that reconciles the
/// PR's title and description, and the warnings when it is left alone.
fn plan_text_part(
    p: &PrSummary,
    name: &String,
    title: &String,
    body: &String,
    single: bool,
    texts: &mut Vec<SubmitAction>,
    warnings: &mut Vec<String>,
)
    ensures
        action_views(final(texts)@) == ({
            let tp = plan_pr_text_spec(p.title@, body_or_empty(p.body), title@, body@);
            match tp.body {
                Some(b) => action_views(old(texts)@).push(
                    ActionView::UpdatePrText {
                        number: p.number,
                        bookmark: name@,
                        title: tp.title,
                        body: b,
                        seed: tp.seed,
                    },
                ),
                None => action_views(old(texts)@),
            }
        }),
        str_views(final(warnings)@) == str_views(old(warnings)@) + ({
            let ws = plan_pr_text_spec(p.title@, body_or_empty(p.body), title@, body@).warnings;
            text_warnings_spec(ws, p.number, name@, p.title@, title@, single, ws.len() as int)
        }),
{
    let current_body: &str = match &p.body {
        Some(b) => b.as_str(),
        None => "",
    };
    proof {
        reveal_strlit("");
    }
    assert(current_body@ == body_or_empty(p.body));
    let text = plan_pr_text(p.title.as_str(), current_body, title.as_str(), body.as_str());
    match &text.body {
        Some(new_body) => {
            push_action(
                texts,
                SubmitAction::UpdatePrText {
                    number: p.number,
                    bookmark: name.clone(),
                    title: clone_opt_string(&text.title),
                    body: new_body.clone(),
                    seed: text.seed,
                },
            );
        },
        None => {},
    }
    let ghost start = str_views(warnings@);
    let ghost ws = text.warnings@;
    let mut w: usize = 0;
    assert(start + Seq::<Seq<char>>::empty() =~= start);
    while w < text.warnings.len()
        invariant
            w <= text.warnings@.len(),
            ws == text.warnings@,
            str_views(warnings@) == start + text_warnings_spec(ws, p.number, name@, p.title@, title@, single, w as int),
        decreases text.warnings@.len() - w,
    {
        let ghost before = text_warnings_spec(ws, p.number, name@, p.title@, title@, single, w as int);
        match text_warning(text.warnings[w], p.number, name.as_str(), p.title.as_str(), title.as_str(), single) {
            Some(m) => {
                push_string(warnings, m);
                assert(start + before.push(m@) =~= (start + before).push(m@));
            },
            None => {},
        }
        w += 1;
    }
}

/// The PR half of a segment that has changes: a creation for a segment
/// without a PR; a retarget and a text update for one with a PR.
fn plan_pr_part(
    prs: &RepoPrState,
    template: Option<&PrTemplate>,
    name: &String,
    bottom: &GraphNode,
    title: &String,
    body: &String,
    pr: &Option<PrSummary>,
    single: bool,
    st: &mut PlanState,
)
    requires
        *pr == prs.pr_for(name@),
    ensures
        ({
            let base = old(st).base@;
            &&& state_view(*final(st)).creates == match *pr {
                Some(_) => state_view(*old(st)).creates,
                None => state_view(*old(st)).creates.push(
                    ActionView::CreatePr {
                        bookmark: name@,
                        base,
                        title: title@,
                        body: new_pr_body_spec(body@, title@, template_view(template)),
                    },
                ),
            }
            &&& state_view(*final(st)).retargets == match *pr {
                Some(p) => if p.base_branch@ != base {
                    state_view(*old(st)).retargets.push(
                        ActionView::RetargetPr {
                            number: p.number,
                            bookmark: name@,
                            from_base: p.base_branch@,
                            to_base: base,
                        },
                    )
                } else {
                    state_view(*old(st)).retargets
                },
                None => state_view(*old(st)).retargets,
            }
            &&& state_view(*final(st)).texts == match *pr {
                Some(p) => if bottom.description@.len() > 0 {
                    let tp = plan_pr_text_spec(p.title@, body_or_empty(p.body), title@, body@);
                    match tp.body {
                        Some(b) => state_view(*old(st)).texts.push(
                            ActionView::UpdatePrText {
                                number: p.number,
                                bookmark: name@,
                                title: tp.title,
                                body: b,
                                seed: tp.seed,
                            },
                        ),
                        None => state_view(*old(st)).texts,
                    }
                } else {
                    state_view(*old(st)).texts
                },
                None => state_view(*old(st)).texts,
            }
        }),
        str_views(final(st).warnings@) == str_views(old(st).warnings@) + match *pr {
            Some(p) => if bottom.description@.len() > 0 {
                let ws = plan_pr_text_spec(p.title@, body_or_empty(p.body), title@, body@).warnings;
                text_warnings_spec(ws, p.number, name@, p.title@, title@, single, ws.len() as int)
            } else {
                Seq::empty()
            },
            None => Seq::empty(),
        },
        final(st).base == old(st).base,
        final(st).segments == old(st).segments,
        final(st).pushes == old(st).pushes,
        final(st).blockers == old(st).blockers,
        final(st).live == old(st).live,
{
    let ghost wstart = str_views(st.warnings@);
    assert(wstart + Seq::<Seq<char>>::empty() =~= wstart);
    match pr {
        Some(p) => {
            if !str_eq(p.base_branch.as_str(), st.base.as_str()) {
                push_action(
                    &mut st.retargets,
                    SubmitAction::RetargetPr {
                        number: p.number,
                        bookmark: name.clone(),
                        from_base: p.base_branch.clone(),
                        to_base: st.base.clone(),
                    },
                );
            }
            if !bottom.description.as_str().is_empty() {
                plan_text_part(p, name, title, body, single, &mut st.texts, &mut st.warnings);
            }
        },
        None => {
            push_action(
                &mut st.creates,
                SubmitAction::CreatePr {
                    bookmark: name.clone(),
                    base: st.base.clone(),
                    title: title.clone(),
                    body: new_pr_body(body.as_str(), title.as_str(), template),
                },
            );
        },
    }
}

/// Plan one more segment: its push, PR creation or retarget, text update,
/// blockers and warnings.
fn step_segment(
    snapshot: &RepoSnapshot,
    prs: &RepoPrState,
    template: Option<&PrTemplate>,
    seg: &RawSegment,
    st: &mut PlanState,
)
    requires
        seg.nodes@.len() > 0,
        forall|u: int| 0 <= u < seg.nodes@.len() ==> #[trigger] seg.nodes@[u] < snapshot.nodes@.len(),
        is_local_branch(snapshot.bookmarks@, seg.bookmark@),
    ensures
        state_view(*final(st)) == plan_step(
            *snapshot,
            *prs,
            template_view(template),
            state_view(*old(st)),
            raw_view(*seg),
        ),
        str_views(final(st).warnings@) == str_views(old(st).warnings@) + segment_warnings(*snapshot, *prs, raw_view(*seg)),
{
    let ghost wstart = str_views(st.warnings@);
    let name = &seg.bookmark;
    let nodes = &snapshot.nodes;
    let bottom = &nodes[seg.nodes[0]];
    assert(ints(seg.nodes@)[0] == seg.nodes@[0] as int);
    let tb = derive_title_body(bottom.description.as_str(), name.as_str());
    let title = tb.0;
    let body = tb.1;
    let pr: Option<PrSummary> = match prs.by_branch.get(name.as_str()) {
        Some(p) => Some(p.duplicate()),
        None => None,
    };
    assert(pr == prs.pr_for(name@));
    let facts = segment_facts(nodes, &seg.nodes);
    let segment = SubmitSegment {
        bookmark: name.clone(),
        base: st.base.clone(),
        change_ids: facts.0,
        title: title.clone(),
        pr: clone_opt_pr(&pr),
    };
    let ghost old_segments = st.segments@;
    if facts.1 {
        push_string(&mut st.warnings, cat3("every change under \u{201c}", name.as_str(), "\u{201d} is empty; skipping its push and PR"));
        assert(str_views(st.warnings@) =~= wstart + seq![empty_segment_msg(name@)]);
        st.base = name.clone();
        st.segments.push(segment);
        assert(segment_views(st.segments@) =~= segment_views(old_segments).push(segment@));
        return;
    }
    plan_push_part(snapshot, seg, st);
    let ghost wmid = str_views(st.warnings@);
    plan_pr_part(prs, template, name, bottom, &title, &body, &pr, seg.nodes.len() == 1, st);
    proof {
        let added = str_views(st.warnings@).skip(wmid.len() as int);
        assert(str_views(st.warnings@) =~= wmid + added);
        assert(wmid.skip(wstart.len() as int) + added =~= str_views(st.warnings@).skip(wstart.len() as int));
    }
    let ghost old_live = st.live@;
    st.live.push((name.clone(), pr));
    assert(live_views(st.live@) =~= live_views(old_live).push((name@, prs.pr_for(name@))));
    st.base = name.clone();
    st.segments.push(segment);
    assert(segment_views(st.segments@) =~= segment_views(old_segments).push(segment@));
}


// ---------------------------------------------------------------------
// Stack comments and the whole plan
// ---------------------------------------------------------------------

/// The fossils a comment's existing data contributes.
pub open spec fn existing_fossils(existing: Option<ExistingComment>, entries: Seq<StackEntry>) -> Seq<
    crate::comment::StackDataItem,
> {
    match existing {
        Some(e) => match parse_stack_data_spec(e.body@) {
            Some(d) => fossils_of(d.1, entries),
            None => Seq::empty(),
        },
        None => Seq::empty(),
    }
}

/// The comment step one live segment plans, given what its PR's comment
/// reads now. While PRs are being created the links are unknowable until
/// execution, so every live PR syncs; otherwise the exact body compares
/// against the existing comment. A lone PR never gets a first comment.
pub open spec fn comment_action_spec(
    entries: Seq<StackEntry>,
    name: Seq<char>,
    number: Option<u64>,
    creating: bool,
    live_len: nat,
    existing: Option<ExistingComment>,
) -> Option<ActionView> {
    match number {
        Some(n) => if creating {
            Some(ActionView::SyncStackComment { bookmark: name, number: Some(n), create: existing is None })
        } else {
            let body = render_spec(entries, existing_fossils(existing, entries), Some(name));
            match existing {
                Some(e) => if e.body@ != body {
                    Some(ActionView::SyncStackComment { bookmark: name, number: Some(n), create: false })
                } else {
                    None
                },
                None => if live_len >= 2 {
                    Some(ActionView::SyncStackComment { bookmark: name, number: Some(n), create: true })
                } else {
                    None
                },
            }
        },
        None => if live_len >= 2 {
            Some(ActionView::SyncStackComment { bookmark: name, number: None, create: true })
        } else {
            None
        },
    }
}

/// The comment step one live segment plans (see [`comment_action_spec`]).
pub fn comment_action(
    entries: &[StackEntry],
    bookmark: &str,
    number: Option<u64>,
    creating: bool,
    live_len: usize,
    existing: Option<&ExistingComment>,
) -> (r: Option<SubmitAction>)
    ensures
        match r {
            Some(a) => comment_action_spec(
                entries@,
                bookmark@,
                number,
                creating,
                live_len as nat,
                match existing {
                    Some(e) => Some(*e),
                    None => None,
                },
            ) == Some(a@),
            None => comment_action_spec(
                entries@,
                bookmark@,
                number,
                creating,
                live_len as nat,
                match existing {
                    Some(e) => Some(*e),
                    None => None,
                },
            ) is None,
        },
{
    match number {
        Some(n) => {
            if creating {
                return Some(
                    SubmitAction::SyncStackComment {
                        bookmark: crate::text::owned(bookmark),
                        number: Some(n),
                        create: existing.is_none(),
                    },
                );
            }
            let previous = match existing {
                Some(e) => parse_stack_data(e.body.as_str()),
                None => None,
            };
            let fossils = inherit_fossils(
                match &previous {
                    Some(p) => Some(p),
                    None => None,
                },
                entries,
            );
            let body = render_stack_comment(entries, fossils.as_slice(), Some(bookmark));
            match existing {
                Some(e) => if !str_eq(e.body.as_str(), body.as_str()) {
                    Some(
                        SubmitAction::SyncStackComment {
                            bookmark: crate::text::owned(bookmark),
                            number: Some(n),
                            create: false,
                        },
                    )
                } else {
                    None
                },
                None => if live_len >= 2 {
                    Some(
                        SubmitAction::SyncStackComment {
                            bookmark: crate::text::owned(bookmark),
                            number: Some(n),
                            create: true,
                        },
                    )
                } else {
                    None
                },
            }
        },
        None => if live_len >= 2 {
            Some(
                SubmitAction::SyncStackComment {
                    bookmark: crate::text::owned(bookmark),
                    number: None,
                    create: true,
                },
            )
        } else {
            None
        },
    }
}

/// The stack entry of a live segment.
pub open spec fn live_entry(l: (String, Option<PrSummary>)) -> StackEntry {
    StackEntry {
        bookmark: l.0,
        number: match l.1 {
            Some(p) => Some(p.number),
            None => None,
        },
        url: match l.1 {
            Some(p) => Some(p.url),
            None => None,
        },
    }
}

/// The stack entries of the live segments, bottom first.
pub open spec fn live_stack_entries(live: Seq<(String, Option<PrSummary>)>) -> Seq<StackEntry> {
    live.map_values(|l: (String, Option<PrSummary>)| live_entry(l))
}

/// The stack-comment steps planned for the first `n` live segments, given
/// what the comment source answered for each (`answers[i]`, `None` for a
/// segment without a PR or without a comment yet).
pub open spec fn comment_tail(
    live: Seq<(String, Option<PrSummary>)>,
    creating: bool,
    answers: Seq<Option<ExistingComment>>,
    n: int,
) -> Seq<ActionView>
    decreases n,
{
    if n <= 0 {
        Seq::empty()
    } else {
        let l = live[n - 1];
        let rest = comment_tail(live, creating, answers, n - 1);
        let number = match l.1 {
            Some(p) => Some(p.number),
            None => None,
        };
        match comment_action_spec(live_stack_entries(live), l.0@, number, creating, live.len(), answers[n - 1]) {
            Some(a) => rest.push(a),
            None => rest,
        }
    }
}

/// The comment steps of the first `n` segments read only the first `n`
/// answers.
proof fn lemma_comment_tail_prefix(
    live: Seq<(String, Option<PrSummary>)>,
    creating: bool,
    answers: Seq<Option<ExistingComment>>,
    n: int,
)
    requires
        0 <= n <= answers.len(),
    ensures
        comment_tail(live, creating, answers.take(n), n) == comment_tail(live, creating, answers, n),
    decreases n,
{
    if n > 0 {
        lemma_comment_tail_prefix(live, creating, answers, n - 1);
        lemma_comment_tail_take(live, creating, answers, n, n - 1);
    }
}

/// Truncating the answers past `m` leaves the first `m` steps alone.
proof fn lemma_comment_tail_take(
    live: Seq<(String, Option<PrSummary>)>,
    creating: bool,
    answers: Seq<Option<ExistingComment>>,
    n: int,
    m: int,
)
    requires
        0 <= m <= n <= answers.len(),
    ensures
        comment_tail(live, creating, answers.take(n), m) == comment_tail(live, creating, answers, m),
    decreases m,
{
    if m > 0 {
        lemma_comment_tail_take(live, creating, answers, n, m - 1);
        assert(answers.take(n)[m - 1] == answers[m - 1]);
    }
}

/// The stack the comments describe, from the live segments.
fn entries_of(live: &Vec<(String, Option<PrSummary>)>) -> (r: Vec<StackEntry>)
    ensures
        r@ == live_stack_entries(live@),
{
    let mut out: Vec<StackEntry> = Vec::new();
    let mut i: usize = 0;
    while i < live.len()
        invariant
            i <= live@.len(),
            out@ == live@.take(i as int).map_values(|l: (String, Option<PrSummary>)| live_entry(l)),
        decreases live@.len() - i,
    {
        let l = &live[i];
        let e = StackEntry {
            bookmark: l.0.clone(),
            number: match &l.1 {
                Some(p) => Some(p.number),
                None => None,
            },
            url: match &l.1 {
                Some(p) => Some(p.url.clone()),
                None => None,
            },
        };
        assert(e == live_entry(live@[i as int]));
        out.push(e);
        i += 1;
        assert(out@ =~= live@.take(i as int).map_values(|l: (String, Option<PrSummary>)| live_entry(l)));
    }
    assert(live@.take(live@.len() as int) =~= live@);
    out
}

/// The template path a plan shows: when it folds the template into a PR
/// it creates.
pub open spec fn template_path_of(template: Option<&PrTemplate>, creating: bool) -> Option<Seq<char>> {
    match template {
        Some(t) => if creating {
            Some(t.path@)
        } else {
            None
        },
        None => None,
    }
}

/// The stack-comment steps for the live segments, in order: each PR's
/// existing comment is asked from `comments` and [`comment_action`]
/// decides. Whatever the source answers, the steps are [`comment_tail`]
/// of those answers; a failed read ends planning with its error.
fn plan_comments<C: StackCommentSource>(
    live: &Vec<(String, Option<PrSummary>)>,
    entries: &Vec<StackEntry>,
    creating: bool,
    comments: &C,
) -> (r: Result<Vec<SubmitAction>, ForgeError>)
    requires
        entries@ == live_stack_entries(live@),
    ensures
        match r {
            Ok(tail) => {
                &&& exists|answers: Seq<Option<ExistingComment>>|
                    #[trigger] comments_answered(comments, live_views(live@), answers) && comment_tail(
                        live@,
                        creating,
                        answers,
                        live@.len() as int,
                    ) == action_views(tail@)
                &&& forall|j: int| 0 <= j < tail@.len() ==> (#[trigger] tail@[j]) is SyncStackComment
            },
            Err(e) => comment_read_failed(comments, live_views(live@), e),
        },
        (forall|i: int| 0 <= i < live@.len() ==> (#[trigger] live@[i]).1 is None) ==> r is Ok,
{
    let mut out: Vec<SubmitAction> = Vec::new();
    let ghost mut answers: Seq<Option<ExistingComment>> = Seq::empty();
    let mut i: usize = 0;
    while i < live.len()
        invariant
            i <= live@.len(),
            entries@ == live_stack_entries(live@),
            answers.len() == i,
            forall|t: int| 0 <= t < i ==> #[trigger] comment_asked(comments, live@[t].1, answers[t]),
            action_views(out@) == comment_tail(live@, creating, answers, i as int),
            forall|j: int| 0 <= j < out@.len() ==> (#[trigger] out@[j]) is SyncStackComment,
        decreases live@.len() - i,
    {
        let name = live[i].0.as_str();
        let number: Option<u64> = match &live[i].1 {
            Some(p) => Some(p.number),
            None => None,
        };
        let existing = match number {
            Some(n) => match comments.stack_comment(n) {
                Ok(e) => e,
                Err(e) => {
                    assert(live@[i as int].1 is Some);
                    assert(live_views(live@)[i as int].1 == live@[i as int].1);
                    assert(pr_comment_failed(comments, live_views(live@)[i as int].1, e));
                    return Err(e);
                },
            },
            None => None,
        };
        let a = comment_action(entries.as_slice(), name, number, creating, live.len(), match &existing {
            Some(e) => Some(e),
            None => None,
        });
        let ghost prior = answers;
        proof {
            answers = answers.push(existing);
            assert(answers.take(i as int) =~= prior);
            lemma_comment_tail_prefix(live@, creating, answers, i as int);
            assert(comment_tail(live@, creating, answers, i as int) == comment_tail(live@, creating, prior, i as int));
            assert(answers[i as int] == existing);
            assert(name@ == live@[i as int].0@);
        }
        let ghost before = out@;
        match a {
            Some(a) => {
                out.push(a);
                assert(action_views(out@) =~= action_views(before).push(a@));
            },
            None => {},
        }
        i += 1;
    }
    assert(answers.len() == live@.len());
    assert forall|t: int| 0 <= t < live@.len() implies #[trigger] comment_asked(comments, live_views(live@)[t].1, answers[t]) by {
        assert(live_views(live@)[t].1 == live@[t].1);
        assert(comment_asked(comments, live@[t].1, answers[t]));
    }
    assert(comments_answered(comments, live_views(live@), answers));
    Ok(out)
}

/// Build the submission plan for the stack under `head_bookmark`: walk the
/// snapshot graph from the bookmark down first parents to the immutable
/// base, segment the mutable chain at local non-trunk bookmarks, and
/// compare each segment against the forge's open-PR state — including each
/// existing PR's text and its stack comment — so the plan enumerates every
/// remote write before anything runs and an up-to-date stack plans
/// nothing.
///
/// Pushes come first, then PR creations bottom-up, then retargets, then
/// text updates, then the stack comments (each decided by
/// [`comment_action`] from what `comments` answers for that PR).
pub fn plan_submit<C: StackCommentSource>(
    snapshot: &RepoSnapshot,
    prs: &RepoPrState,
    repo: &ForgeRepo,
    head_bookmark: &str,
    comments: &C,
    pr_template: Option<&PrTemplate>,
) -> (r: Result<SubmitPlan, ForgeError>)
    ensures
        stack_error(*snapshot, head_bookmark@) is None && (forall|i: int|
            0 <= i < stack_plan(*snapshot, *prs, head_bookmark@, template_view(pr_template)).live.len()
                ==> (#[trigger] stack_plan(*snapshot, *prs, head_bookmark@, template_view(pr_template)).live[i]).1 is None)
            ==> r is Ok,
        match stack_error(*snapshot, head_bookmark@) {
            Some(m) => r matches Err(ForgeError::Plan(e)) && e@ == m,
            None => match r {
                Err(e) => comment_read_failed(
                    comments,
                    stack_plan(*snapshot, *prs, head_bookmark@, template_view(pr_template)).live,
                    e,
                ),
                Ok(plan) => {
                let acc = stack_plan(*snapshot, *prs, head_bookmark@, template_view(pr_template));
                let fixed = acc.pushes + acc.creates + acc.retargets + acc.texts;
                let creating = acc.creates.len() > 0;
                &&& plan.head_bookmark@ == head_bookmark@
                &&& plan.remote@ == repo.remote@
                &&& plan.base_branch@ == snapshot.trunk_bookmark@
                &&& segment_views(plan.segments@) == acc.segments
                &&& str_views(plan.blockers@) == acc.blockers
                &&& str_views(plan.warnings@) == stack_segs(*snapshot, *prs, head_bookmark@).2
                    + truncation_warnings(*prs, submit_truncation_msg()) + warnings_upto(
                    *snapshot,
                    *prs,
                    stack_segs(*snapshot, *prs, head_bookmark@).0,
                    stack_segs(*snapshot, *prs, head_bookmark@).0.len() as int,
                )
                &&& plan.actions@.len() >= fixed.len()
                &&& action_views(plan.actions@).take(fixed.len() as int) == fixed
                &&& forall|j: int|
                    fixed.len() <= j < plan.actions@.len() ==> (#[trigger] plan.actions@[j]) is SyncStackComment
                &&& (plan.stack_comment_preview is Some <==> plan.actions@.len() > fixed.len())
                &&& exists|live: Seq<(String, Option<PrSummary>)>, answers: Seq<Option<ExistingComment>>|
                    #[trigger] live_views(live) == acc.live && comments_answered(comments, acc.live, answers)
                        && action_views(plan.actions@).skip(fixed.len() as int) == #[trigger] comment_tail(
                        live,
                        creating,
                        answers,
                        live.len() as int,
                    ) && (plan.stack_comment_preview matches Some(p) ==> p@ == render_spec(
                        live_stack_entries(live),
                        Seq::empty(),
                        None,
                    ))
                &&& opt_view(plan.pr_template_path) == template_path_of(pr_template, acc.creates.len() > 0)
                },
            },
        },
{
    let (raw_segments, warnings) = match stack_segments(snapshot, prs, head_bookmark) {
        Ok(x) => x,
        Err(m) => return Err(ForgeError::Plan(m)),
    };
    let ghost segs = stack_segs(*snapshot, *prs, head_bookmark@).0;
    proof {
        let chain = stack_chain(*snapshot, head_bookmark@);
        let b = bookmark_index(snapshot.bookmarks@, head_bookmark@, true)->0;
        lemma_chain_in_range(snapshot.nodes@, snapshot.bookmarks@[b].target@);
        lemma_segs_wf(snapshot.nodes@, snapshot.bookmarks@, chain, chain.len() as int, head_bookmark@, *prs);
    }
    let mut st = PlanState {
        base: snapshot.trunk_bookmark.clone(),
        segments: Vec::new(),
        pushes: Vec::new(),
        creates: Vec::new(),
        retargets: Vec::new(),
        texts: Vec::new(),
        blockers: Vec::new(),
        warnings,
        live: Vec::new(),
    };
    if prs.report.truncated {
        push_string(&mut st.warnings, crate::text::owned("GitHub answered only the 100 most recently updated open PRs; an existing PR past that may be missed and recreated"));
    }
    let ghost w0 = str_views(st.warnings@);
    proof {
        assert(w0 =~= stack_segs(*snapshot, *prs, head_bookmark@).2 + truncation_warnings(*prs, submit_truncation_msg()));
        assert(w0 + Seq::<Seq<char>>::empty() =~= w0);
    }
    assert(segment_views(st.segments@) =~= Seq::<SegmentView>::empty());
    assert(action_views(st.pushes@) =~= Seq::<ActionView>::empty());
    assert(str_views(st.blockers@) =~= Seq::<Seq<char>>::empty());
    assert(live_views(st.live@) =~= Seq::<(Seq<char>, Option<PrSummary>)>::empty());
    let mut k: usize = 0;
    while k < raw_segments.len()
        invariant
            k <= raw_segments@.len(),
            raw_views(raw_segments@) == segs,
            segs_wf(snapshot.nodes@, snapshot.bookmarks@, segs),
            state_view(st) == plan_upto(*snapshot, *prs, template_view(pr_template), segs, k as int),
            str_views(st.warnings@) == w0 + warnings_upto(*snapshot, *prs, segs, k as int),
        decreases raw_segments@.len() - k,
    {
        let ghost wk = warnings_upto(*snapshot, *prs, segs, k as int);
        let seg = &raw_segments[k];
        assert(raw_view(*seg) == segs[k as int]);
        assert(raw_view(*seg).1 == ints(seg.nodes@));
        assert forall|u: int| 0 <= u < seg.nodes@.len() implies #[trigger] seg.nodes@[u] < snapshot.nodes@.len() by {
            assert(ints(seg.nodes@)[u] == seg.nodes@[u] as int);
        }
        step_segment(snapshot, prs, pr_template, seg, &mut st);
        assert(w0 + wk + segment_warnings(*snapshot, *prs, segs[k as int]) =~= w0 + (wk + segment_warnings(
            *snapshot,
            *prs,
            segs[k as int],
        )));
        k += 1;
    }
    let ghost acc = state_view(st);
    let creating = st.creates.len() > 0;
    let mut actions: Vec<SubmitAction> = Vec::new();
    actions.append(&mut st.pushes);
    actions.append(&mut st.creates);
    actions.append(&mut st.retargets);
    actions.append(&mut st.texts);
    let ghost fixed = acc.pushes + acc.creates + acc.retargets + acc.texts;
    assert(action_views(actions@) =~= fixed);
    let entries = entries_of(&st.live);
    let mut tail = match plan_comments(&st.live, &entries, creating, comments) {
        Ok(t) => t,
        Err(e) => {
            proof {
                assert(acc.live == live_views(st.live@));
                assert(comment_read_failed(comments, live_views(st.live@), e));
            }
            return Err(e);
        },
    };
    let ghost tail_view = action_views(tail@);
    let ghost answers = choose|answers: Seq<Option<ExistingComment>>|
        #[trigger] comments_answered(comments, live_views(st.live@), answers) && comment_tail(
            st.live@,
            creating,
            answers,
            st.live@.len() as int,
        ) == tail_view;
    let comment_count = tail.len();
    let ghost before = actions@;
    actions.append(&mut tail);
    proof {
        assert(action_views(actions@) =~= action_views(before) + tail_view);
        assert(action_views(actions@).take(fixed.len() as int) =~= fixed);
        assert(action_views(actions@).skip(fixed.len() as int) =~= tail_view);
        assert forall|j: int| fixed.len() <= j < actions@.len() implies (#[trigger] actions@[j]) is SyncStackComment by {
            assert(action_views(actions@)[j] == actions@[j]@);
            assert(tail_view[j - fixed.len()] == actions@[j]@);
        }
        assert(acc.live == live_views(st.live@));
        assert(creating == (acc.creates.len() > 0));
    }
    let stack_comment_preview = if comment_count > 0 {
        let no_fossils: Vec<StackDataItem> = Vec::new();
        let p = render_stack_comment(entries.as_slice(), no_fossils.as_slice(), None);
        assert(no_fossils@ =~= Seq::<StackDataItem>::empty());
        Some(p)
    } else {
        None
    };
    let pr_template_path = match pr_template {
        Some(t) => if creating {
            Some(t.path.clone())
        } else {
            None
        },
        None => None,
    };
    Ok(
        SubmitPlan {
            head_bookmark: crate::text::owned(head_bookmark),
            remote: repo.remote.clone(),
            base_branch: snapshot.trunk_bookmark.clone(),
            segments: st.segments,
            actions,
            blockers: st.blockers,
            warnings: st.warnings,
            stack_comment_preview,
            pr_template_path,
        },
    )
}

/// The chain's indices lie inside the node list.
pub proof fn lemma_chain_in_range(nodes: Seq<GraphNode>, target: Seq<char>)
    ensures
        forall|t: int| 0 <= t < chain_under(nodes, target).len() ==> 0 <= #[trigger] chain_under(nodes, target)[t] < nodes.len(),
{
    lemma_walk_in_range(nodes, node_index(nodes, target), nodes.len() as nat);
    let w = walk_down(nodes, node_index(nodes, target), nodes.len() as nat);
    assert forall|t: int| 0 <= t < chain_under(nodes, target).len() implies 0 <= #[trigger] chain_under(nodes, target)[t] < nodes.len() by {
        assert(chain_under(nodes, target)[t] == w[w.len() - 1 - t]);
    }
}

/// A walk visits only nodes of the list.
proof fn lemma_walk_in_range(nodes: Seq<GraphNode>, cursor: Option<int>, fuel: nat)
    ensures
        forall|t: int| 0 <= t < walk_down(nodes, cursor, fuel).len() ==> 0 <= #[trigger] walk_down(nodes, cursor, fuel)[t] < nodes.len(),
    decreases fuel,
{
    match cursor {
        None => {},
        Some(i) => {
            if !(fuel == 0 || !(0 <= i < nodes.len()) || nodes[i].kind == NodeKind::Immutable) {
                lemma_walk_in_range(nodes, first_parent(nodes, i), (fuel - 1) as nat);
                let rest = walk_down(nodes, first_parent(nodes, i), (fuel - 1) as nat);
                let w = walk_down(nodes, cursor, fuel);
                assert forall|t: int| 0 <= t < w.len() implies 0 <= #[trigger] w[t] < nodes.len() by {
                    if t > 0 {
                        assert(w[t] == rest[t - 1]);
                    }
                }
            }
        },
    }
}

// ---------------------------------------------------------------------
// Execution
// ---------------------------------------------------------------------

/// Per-action result of executing a plan.
#[derive(Debug, Clone, Copy, PartialEq, Eq, Structural)]
pub enum SubmitStepStatus {
    Done,
    Failed,
    /// Not attempted because an earlier step failed (or a blocker stopped
    /// the plan).
    Skipped,
}

#[derive(Debug, Clone, PartialEq, Eq)]
pub struct SubmitStep {
    pub action: SubmitAction,
    pub status: SubmitStepStatus,
    /// Plain-language result: the push summary, or the failure message.
    pub detail: Option<String>,
    /// The PR a `CreatePr` step opened, for linking out.
    pub pr: Option<PrSummary>,
}

#[derive(Debug, Clone, PartialEq, Eq)]
pub struct SubmitOutcome {
    pub steps: Vec<SubmitStep>,
    pub failed: bool,
}

/// Texts joined with a separator.
pub open spec fn join_sep(ls: Seq<Seq<char>>, sep: Seq<char>) -> Seq<char>
    decreases ls.len(),
{
    if ls.len() == 0 {
        Seq::empty()
    } else if ls.len() == 1 {
        ls[0]
    } else {
        join_sep(ls.drop_last(), sep) + sep + ls.last()
    }
}

/// Strings joined with a separator.
pub fn join_strings(ls: &Vec<String>, sep: &str) -> (r: String)
    ensures
        r@ == join_sep(str_views(ls@), sep@),
{
    let mut out: Vec<char> = Vec::new();
    let mut i: usize = 0;
    while i < ls.len()
        invariant
            i <= ls@.len(),
            out@ == join_sep(str_views(ls@).take(i as int), sep@),
        decreases ls@.len() - i,
    {
        let ghost before = out@;
        if i > 0 {
            push_str(&mut out, sep);
        }
        push_str(&mut out, ls[i].as_str());
        proof {
            let t = str_views(ls@).take(i + 1);
            assert(t.drop_last() =~= str_views(ls@).take(i as int));
            assert(t.last() == ls@[i as int]@);
            if i == 0 {
                assert(out@ =~= ls@[0]@);
            } else {
                assert(out@ =~= before + sep@ + ls@[i as int]@);
            }
        }
        i += 1;
    }
    assert(str_views(ls@).take(ls@.len() as int) =~= str_views(ls@));
    string_of(&out)
}

/// How a refused plan explains itself.
pub open spec fn blocked_msg(blockers: Seq<Seq<char>>) -> Seq<char> {
    "the plan has blockers: "@ + join_sep(blockers, "; "@)
}

/// The steps' statuses read as one run: the batched push steps share one
/// outcome; among the other steps, a run of `Done`, then at most one
/// `Failed`, then `Skipped`; a failed push skips everything else.
pub open spec fn submit_run_shape(steps: Seq<SubmitStep>) -> bool {
    &&& forall|i: int, j: int|
        0 <= i < steps.len() && 0 <= j < steps.len() && steps[i].action is Push
            && steps[j].action is Push ==> #[trigger] steps[i].status == #[trigger] steps[j].status
    &&& forall|i: int|
        0 <= i < steps.len() && steps[i].action is Push ==> #[trigger] steps[i].status
            != SubmitStepStatus::Skipped
    &&& forall|i: int, j: int|
        0 <= i < j < steps.len() && !(steps[i].action is Push) && !(steps[j].action is Push)
            && #[trigger] steps[j].status != SubmitStepStatus::Skipped ==> #[trigger] steps[i].status
            == SubmitStepStatus::Done
    &&& forall|i: int, j: int|
        0 <= i < steps.len() && 0 <= j < steps.len() && steps[i].action is Push
            && #[trigger] steps[i].status == SubmitStepStatus::Failed && !(steps[j].action is Push)
            ==> #[trigger] steps[j].status == SubmitStepStatus::Skipped
}

/// A step for an action, before it runs.
fn skipped_step(a: &SubmitAction) -> (r: SubmitStep)
    ensures
        r.action@ == a@,
        r.status == SubmitStepStatus::Skipped,
        r.detail is None,
{
    SubmitStep { action: a.duplicate(), status: SubmitStepStatus::Skipped, detail: None, pr: None }
}

/// The PRs this run opened, by bookmark.
pub open spec fn created_views(v: Seq<(String, PrSummary)>) -> Seq<(Seq<char>, PrSummary)> {
    v.map_values(|x: (String, PrSummary)| (x.0@, x.1))
}

/// The PR this run opened for bookmark `b`: the first entry under it.
pub open spec fn created_pr(v: Seq<(Seq<char>, PrSummary)>, b: Seq<char>) -> Option<PrSummary>
    decreases v.len(),
{
    if v.len() == 0 {
        None
    } else if v[0].0 == b {
        Some(v[0].1)
    } else {
        created_pr(v.drop_first(), b)
    }
}

/// The record of opened PRs after opening `p` for `b`: it replaces what
/// was recorded under `b`, or joins the end.
pub open spec fn record_created(v: Seq<(Seq<char>, PrSummary)>, b: Seq<char>, p: PrSummary) -> Seq<
    (Seq<char>, PrSummary),
> {
    if exists|i: int| 0 <= i < v.len() && #[trigger] v[i].0 == b {
        v.map_values(|x: (Seq<char>, PrSummary)| if x.0 == b { (b, p) } else { x })
    } else {
        v.push((b, p))
    }
}

/// The PR this run opened for `bookmark`, if any.
fn created_for(created: &Vec<(String, PrSummary)>, bookmark: &str) -> (r: Option<PrSummary>)
    ensures
        r == created_pr(created_views(created@), bookmark@),
{
    let ghost cv = created_views(created@);
    let mut i: usize = 0;
    assert(cv.skip(0) =~= cv);
    while i < created.len()
        invariant
            i <= created@.len(),
            cv == created_views(created@),
            created_pr(cv, bookmark@) == created_pr(cv.skip(i as int), bookmark@),
        decreases created@.len() - i,
    {
        assert(cv.skip(i as int)[0] == cv[i as int]);
        if str_eq(created[i].0.as_str(), bookmark) {
            return Some(created[i].1.duplicate());
        }
        assert(cv.skip(i as int).drop_first() =~= cv.skip(i + 1));
        i += 1;
    }
    None
}

/// The bookmarks of the first `k` actions that push, in order.
pub open spec fn push_names(actions: Seq<SubmitAction>, k: int) -> Seq<Seq<char>>
    decreases k,
{
    if k <= 0 {
        Seq::empty()
    } else {
        let rest = push_names(actions, k - 1);
        match actions[k - 1] {
            SubmitAction::Push { bookmark, .. } => rest.push(bookmark@),
            _ => rest,
        }
    }
}

/// A push step reports the batched push's answer `pushed`: done with the
/// summary, or failed with the error's message.
pub open spec fn push_step_told(pushed: Result<String, BackendError>, step: SubmitStep) -> bool {
    match pushed {
        Ok(summary) => step.status == SubmitStepStatus::Done && step.detail == Some(summary),
        Err(e) => step.status == SubmitStepStatus::Failed && (step.detail matches Some(d) && d@ == backend_message(e)),
    }
}

/// The push of a run: when the plan pushes anything, all its bookmarks go
/// to the plan's remote in one request, every push step reports its
/// answer, and a failed push runs nothing else.
pub open spec fn push_ran<V: SubmitVcs>(vcs: &V, plan: SubmitPlan, steps: Seq<SubmitStep>) -> bool {
    let names = push_names(plan.actions@, plan.actions@.len() as int);
    names.len() > 0 ==> exists|pushed: Result<String, BackendError>|
        #[trigger] vcs.push_answer(names, plan.remote@, pushed) && (forall|i: int|
            0 <= i < steps.len() && plan.actions@[i] is Push ==> push_step_told(pushed, #[trigger] steps[i]))
            && (pushed is Err ==> forall|i: int|
            0 <= i < steps.len() && !(plan.actions@[i] is Push) ==> #[trigger] steps[i].status
                == SubmitStepStatus::Skipped)
}

/// A non-push step that ran reports what [`submit_step_outcome`] says of
/// its action, with the PRs this run opened before and after it: a done
/// step its story (and the PR it opened), a failed one the forge's error.
pub open spec fn submit_step_ran<F: SubmitForge>(
    forge: &F,
    action: SubmitAction,
    segs: Seq<SubmitSegment>,
    before: Seq<(Seq<char>, PrSummary)>,
    after: Seq<(Seq<char>, PrSummary)>,
    step: SubmitStep,
) -> bool {
    match step.detail {
        Some(d) => if step.status == SubmitStepStatus::Done {
            submit_step_outcome(forge, action, segs, before, after, Ok((d, step.pr)))
        } else {
            exists|e: ForgeError| error_message(e) == d@ && #[trigger] submit_step_outcome(forge, action, segs, before, after, Err(e))
        },
        None => false,
    }
}

/// The forge steps of a run, in order, each from the PRs opened before it
/// (`trace[i]`, none at first) to those opened after it (`trace[i + 1]`);
/// a push or skipped step opens none.
pub open spec fn forge_steps_ran<F: SubmitForge>(
    forge: &F,
    plan: SubmitPlan,
    steps: Seq<SubmitStep>,
    trace: Seq<Seq<(Seq<char>, PrSummary)>>,
) -> bool {
    &&& trace.len() == steps.len() + 1
    &&& trace[0] == Seq::<(Seq<char>, PrSummary)>::empty()
    &&& forall|i: int|
        0 <= i < steps.len() ==> if plan.actions@[i] is Push || steps[i].status == SubmitStepStatus::Skipped {
            #[trigger] trace[i + 1] == trace[i]
        } else {
            submit_step_ran(forge, plan.actions@[i], plan.segments@, trace[i], trace[i + 1], steps[i])
        }
}

/// Run a plan: one batched push, then PR creations bottom-up, then base
/// retargets, text updates, and stack comments. The first failure stops
/// execution — later steps report as skipped rather than running against a
/// half-updated remote. A plan with blockers refuses to run at all.
pub fn execute_submit<V: SubmitVcs, F: SubmitForge>(plan: &SubmitPlan, vcs: &V, forge: &F) -> (r:
    Result<SubmitOutcome, ForgeError>)
    ensures
        plan.blockers@.len() > 0 ==> (r matches Err(ForgeError::Plan(m)) && m@ == blocked_msg(
            str_views(plan.blockers@),
        )),
        plan.blockers@.len() == 0 ==> (r matches Ok(out) && {
            &&& out.steps@.len() == plan.actions@.len()
            &&& forall|i: int| 0 <= i < out.steps@.len() ==> (#[trigger] out.steps@[i]).action@ == plan.actions@[i]@
            &&& submit_run_shape(out.steps@)
            &&& out.failed == exists|i: int| 0 <= i < out.steps@.len() && #[trigger] out.steps@[i].status == SubmitStepStatus::Failed
            &&& forall|i: int|
                0 <= i < out.steps@.len() ==> ((#[trigger] out.steps@[i]).detail is Some <==> out.steps@[i].status
                    != SubmitStepStatus::Skipped)
            &&& !out.failed ==> forall|i: int| 0 <= i < out.steps@.len() ==> #[trigger] out.steps@[i].status == SubmitStepStatus::Done
            &&& push_ran(vcs, *plan, out.steps@)
            &&& exists|trace: Seq<Seq<(Seq<char>, PrSummary)>>| #[trigger] forge_steps_ran(forge, *plan, out.steps@, trace)
        }),
{
    if plan.blockers.len() > 0 {
        let mut m = chars_of("the plan has blockers: ");
        let j = join_strings(&plan.blockers, "; ");
        push_str(&mut m, j.as_str());
        return Err(ForgeError::Plan(string_of(&m)));
    }
    let n = plan.actions.len();
    let mut steps: Vec<SubmitStep> = Vec::new();
    let mut names: Vec<String> = Vec::new();
    let mut k: usize = 0;
    while k < n
        invariant
            n == plan.actions@.len(),
            k <= n,
            steps@.len() == k,
            forall|i: int| 0 <= i < k ==> (#[trigger] steps@[i]).action@ == plan.actions@[i]@,
            forall|i: int| 0 <= i < k ==> ((#[trigger] steps@[i]).action is Push) == (plan.actions@[i] is Push),
            forall|i: int| 0 <= i < k ==> (#[trigger] steps@[i]).status == SubmitStepStatus::Skipped,
            forall|i: int| 0 <= i < k ==> (#[trigger] steps@[i]).detail is None,
            str_views(names@) == push_names(plan.actions@, k as int),
            names@.len() > 0 ==> exists|i: int| 0 <= i < k && (#[trigger] steps@[i]).action is Push,
            names@.len() == 0 ==> forall|i: int| 0 <= i < k ==> !((#[trigger] steps@[i]).action is Push),
        decreases n - k,
    {
        let a = &plan.actions[k];
        let st = skipped_step(a);
        proof {
            lemma_action_kind(st.action, *a);
        }
        let ghost old_steps = steps@;
        let ghost had = names@.len() > 0;
        steps.push(st);
        proof {
            assert(steps@[k as int] == st);
            if had {
                let w = choose|i: int| 0 <= i < k && (#[trigger] old_steps[i]).action is Push;
                assert(steps@[w] == old_steps[w]);
            }
        }
        let ghost old_names = names@;
        match a {
            SubmitAction::Push { bookmark, .. } => {
                names.push(bookmark.clone());
                assert(str_views(names@) =~= str_views(old_names).push(bookmark@));
            },
            _ => {},
        }
        k += 1;
    }
    let mut failed = false;
    let ghost mut push_answered: Result<String, BackendError> = arbitrary();
    if names.len() > 0 {
        let pushed = vcs.push_bookmarks(names.as_slice(), plan.remote.as_str());
        proof {
            push_answered = pushed;
        }
        let (status, detail) = match pushed {
            Ok(summary) => (SubmitStepStatus::Done, summary),
            Err(e) => {
                failed = true;
                (SubmitStepStatus::Failed, e.message())
            },
        };
        let mut j: usize = 0;
        while j < n
            invariant
                n == plan.actions@.len(),
                j <= n,
                steps@.len() == n,
                status != SubmitStepStatus::Skipped,
                failed == (status == SubmitStepStatus::Failed),
                push_answered is Ok ==> status == SubmitStepStatus::Done && push_answered == Ok::<String, BackendError>(detail),
                push_answered is Err ==> status == SubmitStepStatus::Failed && (push_answered matches Err(e) && detail@ == backend_message(e)),
                forall|i: int| 0 <= i < n ==> (#[trigger] steps@[i]).action@ == plan.actions@[i]@,
                forall|i: int| 0 <= i < n ==> ((#[trigger] steps@[i]).action is Push) == (plan.actions@[i] is Push),
                forall|i: int| 0 <= i < j && (#[trigger] steps@[i]).action is Push ==> steps@[i].status == status && steps@[i].detail == Some(detail),
                forall|i: int| j <= i < n ==> (#[trigger] steps@[i]).status == SubmitStepStatus::Skipped,
                forall|i: int| 0 <= i < j && !((#[trigger] steps@[i]).action is Push) ==> steps@[i].status == SubmitStepStatus::Skipped,
                forall|i: int| 0 <= i < n ==> ((#[trigger] steps@[i]).detail is Some <==> steps@[i].status != SubmitStepStatus::Skipped),
                exists|i: int| 0 <= i < n && (#[trigger] steps@[i]).action is Push,
            decreases n - j,
        {
            let ghost w = choose|i: int| 0 <= i < n && (#[trigger] steps@[i]).action is Push;
            if steps[j].action.is_push() {
                let step = SubmitStep {
                    action: steps[j].action.duplicate(),
                    status,
                    detail: Some(detail.clone()),
                    pr: None,
                };
                proof {
                    lemma_action_kind(step.action, steps@[j as int].action);
                }
                steps.set(j, step);
            }
            assert(steps@[w].action is Push);
            j += 1;
        }
        proof {
            assert(vcs.push_answer(push_names(plan.actions@, n as int), plan.remote@, push_answered));
            assert forall|i: int| 0 <= i < n && plan.actions@[i] is Push implies push_step_told(push_answered, #[trigger] steps@[i]) by {
                assert(steps@[i].action is Push);
            }
        }
    }
    let ghost push_status = if failed { SubmitStepStatus::Failed } else { SubmitStepStatus::Done };
    assert(forall|i: int| 0 <= i < n && (#[trigger] steps@[i]).action is Push ==> steps@[i].status == push_status);
    assert(forall|i: int| 0 <= i < n && !((#[trigger] steps@[i]).action is Push) ==> steps@[i].status == SubmitStepStatus::Skipped);
    assert(failed ==> exists|i: int| 0 <= i < n && (#[trigger] steps@[i]).action is Push);
    assert(push_ran(vcs, *plan, steps@));
    assert(push_names(plan.actions@, n as int).len() > 0 && !failed ==> (vcs.push_answer(
        push_names(plan.actions@, n as int),
        plan.remote@,
        push_answered,
    ) && push_answered is Ok));
    if !failed {
        let mut created: Vec<(String, PrSummary)> = Vec::new();
        let ghost mut trace: Seq<Seq<(Seq<char>, PrSummary)>> = seq![Seq::empty()];
        assert(created_views(created@) =~= Seq::<(Seq<char>, PrSummary)>::empty());
        let mut i: usize = 0;
        while i < n
            invariant
                n == plan.actions@.len(),
                plan.blockers@.len() == 0,
                i <= n,
                steps@.len() == n,
                !failed,
                push_names(plan.actions@, n as int).len() > 0 ==> (vcs.push_answer(
                    push_names(plan.actions@, n as int),
                    plan.remote@,
                    push_answered,
                ) && push_answered is Ok),
                forall|t: int| 0 <= t < n ==> (#[trigger] steps@[t]).action@ == plan.actions@[t]@,
                forall|t: int| 0 <= t < n ==> ((#[trigger] steps@[t]).action is Push) == (plan.actions@[t] is Push),
                forall|t: int| 0 <= t < n && (#[trigger] steps@[t]).action is Push ==> steps@[t].status == SubmitStepStatus::Done,
                forall|t: int| 0 <= t < n && (#[trigger] steps@[t]).action is Push ==> push_step_told(push_answered, steps@[t]),
                forall|t: int| 0 <= t < i && !((#[trigger] steps@[t]).action is Push) ==> steps@[t].status == SubmitStepStatus::Done,
                forall|t: int| i <= t < n && !((#[trigger] steps@[t]).action is Push) ==> steps@[t].status == SubmitStepStatus::Skipped,
                forall|t: int| 0 <= t < n ==> ((#[trigger] steps@[t]).detail is Some <==> steps@[t].status != SubmitStepStatus::Skipped),
                trace.len() == i + 1,
                trace[0] == Seq::<(Seq<char>, PrSummary)>::empty(),
                trace[i as int] == created_views(created@),
                forall|t: int|
                    0 <= t < i ==> if plan.actions@[t] is Push || steps@[t].status == SubmitStepStatus::Skipped {
                        #[trigger] trace[t + 1] == trace[t]
                    } else {
                        submit_step_ran(forge, plan.actions@[t], plan.segments@, trace[t], trace[t + 1], steps@[t])
                    },
            decreases n - i,
        {
            let ghost before = created_views(created@);
            let ghost trace0 = trace;
            if plan.actions[i].is_push() {
                proof {
                    trace = trace.push(before);
                    assert forall|t: int| 0 <= t < i + 1 implies if plan.actions@[t] is Push || steps@[t].status == SubmitStepStatus::Skipped {
                        #[trigger] trace[t + 1] == trace[t]
                    } else {
                        submit_step_ran(forge, plan.actions@[t], plan.segments@, trace[t], trace[t + 1], steps@[t])
                    } by {
                        if t < i {
                            assert(trace[t] == trace0[t]);
                            assert(trace[t + 1] == trace0[t + 1]);
                        }
                    }
                }
                i += 1;
                continue;
            }
            let result = run_submit_step(&plan.actions[i], plan, forge, &mut created);
            let ghost after = created_views(created@);
            let ghost old_steps = steps@;
            proof {
                trace = trace.push(after);
            }
            match result {
                Ok((detail, pr)) => {
                    let step = SubmitStep {
                        action: steps[i].action.duplicate(),
                        status: SubmitStepStatus::Done,
                        detail: Some(detail),
                        pr,
                    };
                    proof {
                        lemma_action_kind(step.action, steps@[i as int].action);
                    }
                    steps.set(i, step);
                    proof {
                        assert(submit_step_ran(forge, plan.actions@[i as int], plan.segments@, trace[i as int], trace[i + 1], steps@[i as int]));
                        assert forall|t: int| 0 <= t < i + 1 implies if plan.actions@[t] is Push || steps@[t].status == SubmitStepStatus::Skipped {
                            #[trigger] trace[t + 1] == trace[t]
                        } else {
                            submit_step_ran(forge, plan.actions@[t], plan.segments@, trace[t], trace[t + 1], steps@[t])
                        } by {
                            if t < i {
                                assert(trace[t] == trace0[t]);
                                assert(trace[t + 1] == trace0[t + 1]);
                                assert(steps@[t] == old_steps[t]);
                            }
                        }
                        assert forall|t: int| 0 <= t < n && (#[trigger] steps@[t]).action is Push implies push_step_told(push_answered, steps@[t]) by {
                            assert(steps@[t] == old_steps[t]);
                        }
                        assert forall|t: int| 0 <= t < n && plan.actions@[t] is Push implies push_step_told(push_answered, #[trigger] steps@[t]) by {
                            assert(steps@[t] == old_steps[t]);
                        }
                    }
                },
                Err(e) => {
                    let step = SubmitStep {
                        action: steps[i].action.duplicate(),
                        status: SubmitStepStatus::Failed,
                        detail: Some(e.message()),
                        pr: None,
                    };
                    proof {
                        lemma_action_kind(step.action, steps@[i as int].action);
                    }
                    steps.set(i, step);
                    assert(steps@[i as int].status == SubmitStepStatus::Failed);
                    proof {
                        assert(submit_step_outcome(forge, plan.actions@[i as int], plan.segments@, before, after, Err(e)));
                        assert(submit_step_ran(forge, plan.actions@[i as int], plan.segments@, trace[i as int], trace[i + 1], steps@[i as int]));
                        let ghost full = trace + Seq::new((n - i - 1) as nat, |t: int| after);
                        assert forall|t: int| 0 <= t < n implies if plan.actions@[t] is Push || steps@[t].status == SubmitStepStatus::Skipped {
                            #[trigger] full[t + 1] == full[t]
                        } else {
                            submit_step_ran(forge, plan.actions@[t], plan.segments@, full[t], full[t + 1], steps@[t])
                        } by {
                            if t < i {
                                assert(full[t] == trace0[t]);
                                assert(full[t + 1] == trace0[t + 1]);
                                assert(steps@[t] == old_steps[t]);
                            } else if t == i {
                                assert(full[t] == trace[t]);
                                assert(full[t + 1] == trace[t + 1]);
                            } else {
                                assert(steps@[t] == old_steps[t]);
                                assert(full[t] == after);
                                assert(full[t + 1] == after);
                            }
                        }
                        assert(forge_steps_ran(forge, *plan, steps@, full));
                        assert forall|t: int| 0 <= t < n && plan.actions@[t] is Push implies push_step_told(push_answered, #[trigger] steps@[t]) by {
                            assert(steps@[t] == old_steps[t]);
                        }
                        assert(push_ran(vcs, *plan, steps@));
                    }
                    return Ok(SubmitOutcome { steps, failed: true });
                },
            }
            i += 1;
        }
        proof {
            assert forall|t: int| 0 <= t < n implies (#[trigger] steps@[t]).status != SubmitStepStatus::Failed by {
                if steps@[t].action is Push {} else {}
            }
            assert(forge_steps_ran(forge, *plan, steps@, trace));
            assert forall|t: int| 0 <= t < n && plan.actions@[t] is Push implies push_step_told(push_answered, #[trigger] steps@[t]) by {
                assert(steps@[t].action is Push);
            }
            assert(push_ran(vcs, *plan, steps@));
        }
        return Ok(SubmitOutcome { steps, failed: false });
    }
    proof {
        let t = choose|t: int| 0 <= t < n && (#[trigger] steps@[t]).action is Push;
        assert(steps@[t].status == SubmitStepStatus::Failed);
        let full = Seq::new((n + 1) as nat, |t: int| Seq::<(Seq<char>, PrSummary)>::empty());
        assert forall|t: int| 0 <= t < n implies if plan.actions@[t] is Push || steps@[t].status == SubmitStepStatus::Skipped {
            #[trigger] full[t + 1] == full[t]
        } else {
            submit_step_ran(forge, plan.actions@[t], plan.segments@, full[t], full[t + 1], steps@[t])
        } by {}
        assert(forge_steps_ran(forge, *plan, steps@, full));
    }
    Ok(SubmitOutcome { steps, failed })
}

/// The story of opening PR `n` for bookmark `b`.
pub open spec fn opened_msg(n: u64, b: Seq<char>) -> Seq<char> {
    "Opened #"@ + dec(n as nat) + " for "@ + b
}

/// The story of retargeting PR `n`.
pub open spec fn retargeted_msg(n: u64, b: Seq<char>, from: Seq<char>, to: Seq<char>) -> Seq<char> {
    "Retargeted #"@ + dec(n as nat) + " ("@ + b + ") from "@ + from + " to "@ + to
}

/// The story of rewriting PR `n`'s text from bookmark `b`.
pub open spec fn text_story(n: u64, b: Seq<char>, titled: bool, seed: bool) -> Seq<char> {
    if seed {
        "Recorded Jiji's description fingerprints on #"@ + dec(n as nat)
    } else if titled {
        "Updated #"@ + dec(n as nat) + "'s title and description from "@ + b
    } else {
        "Updated #"@ + dec(n as nat) + "'s description from "@ + b
    }
}

/// What a forge write comes to: the story on success, the forge's error
/// otherwise.
pub open spec fn write_came_to(w: Result<(), ForgeError>, story: Seq<char>, r: Result<(String, Option<PrSummary>), ForgeError>) -> bool {
    match w {
        Ok(()) => r matches Ok((m, pr)) && pr is None && m@ == story,
        Err(e) => r matches Err(x) && x == e,
    }
}

/// What one non-push step comes to, given what it was and the PRs this run
/// had opened before it, request by request: each step makes its one write
/// with the plan's arguments, and tells the story of the write on success
/// (with the PR a creation opened, recorded for later comment steps) and
/// the forge's error otherwise; a comment step as
/// [`comment_step_outcome`] says.
pub open spec fn submit_step_outcome<F: SubmitForge>(
    forge: &F,
    action: SubmitAction,
    segs: Seq<SubmitSegment>,
    before: Seq<(Seq<char>, PrSummary)>,
    after: Seq<(Seq<char>, PrSummary)>,
    r: Result<(String, Option<PrSummary>), ForgeError>,
) -> bool {
    match action {
        SubmitAction::Push { .. } => after == before && (r matches Ok((m, pr)) && m@.len() == 0 && pr is None),
        SubmitAction::CreatePr { bookmark, base, title, body } => exists|a: Result<PrSummary, ForgeError>|
            #[trigger] forge.create_answer(title@, body@, bookmark@, base@, a) && match a {
                Ok(p) => r matches Ok((m, pr)) && pr == Some(p) && m@ == opened_msg(p.number, bookmark@) && after
                    == record_created(before, bookmark@, p),
                Err(e) => r matches Err(x) && x == e && after == before,
            },
        SubmitAction::RetargetPr { number, bookmark, from_base, to_base } => after == before && exists|
            a: Result<(), ForgeError>,
        | #[trigger] forge.retarget_answer(number, to_base@, a) && write_came_to(
            a,
            retargeted_msg(number, bookmark@, from_base@, to_base@),
            r,
        ),
        SubmitAction::UpdatePrText { number, bookmark, title, body, seed } => after == before && exists|
            a: Result<(), ForgeError>,
        | #[trigger] forge.text_answer(number, opt_view(title), body@, a) && write_came_to(
            a,
            text_story(number, bookmark@, title is Some, seed),
            r,
        ),
        SubmitAction::SyncStackComment { bookmark, number, .. } => after == before && (r matches Ok((_, pr)) ==> pr is None)
            && comment_step_outcome(
            forge,
            segs,
            before,
            bookmark@,
            number,
            match r {
                Ok((m, _)) => Ok(m),
                Err(e) => Err(e),
            },
        ),
    }
}

/// Record the PR just opened for `bookmark` (see [`record_created`]).
fn note_created(created: &mut Vec<(String, PrSummary)>, bookmark: &String, pr: &PrSummary)
    ensures
        created_views(final(created)@) == record_created(created_views(old(created)@), bookmark@, *pr),
{
    let ghost ov = created_views(created@);
    let mut replaced = false;
    let mut i: usize = 0;
    while i < created.len()
        invariant
            i <= created@.len(),
            created@.len() == ov.len(),
            forall|j: int|
                0 <= j < i ==> #[trigger] created_views(created@)[j] == (if ov[j].0 == bookmark@ {
                    (bookmark@, *pr)
                } else {
                    ov[j]
                }),
            forall|j: int| i <= j < ov.len() ==> #[trigger] created_views(created@)[j] == ov[j],
            replaced == exists|j: int| 0 <= j < i && #[trigger] ov[j].0 == bookmark@,
        decreases created@.len() - i,
    {
        assert(created_views(created@)[i as int] == ov[i as int]);
        assert(ov[i as int].0 == created@[i as int].0@);
        if str_eq(created[i].0.as_str(), bookmark.as_str()) {
            let ghost before = created@;
            created.set(i, (bookmark.clone(), pr.duplicate()));
            assert forall|j: int| 0 <= j < created@.len() && j != i implies #[trigger] created_views(created@)[j]
                == created_views(before)[j] by {
                assert(created@[j] == before[j]);
            }
            replaced = true;
        }
        assert(replaced == exists|j: int| 0 <= j < i + 1 && #[trigger] ov[j].0 == bookmark@) by {
            if ov[i as int].0 == bookmark@ {
                assert(ov[i as int].0 == bookmark@);
            }
        }
        i += 1;
    }
    if !replaced {
        let ghost before = created_views(created@);
        created.push((bookmark.clone(), pr.duplicate()));
        assert(before =~= ov);
        assert(created_views(created@) =~= ov.push((bookmark@, *pr)));
    } else {
        assert(created_views(created@) =~= ov.map_values(
            |x: (Seq<char>, PrSummary)| if x.0 == bookmark@ { (bookmark@, *pr) } else { x },
        ));
    }
}

/// One non-push step: the story on success, the forge's error otherwise
/// (see [`submit_step_outcome`]).
fn run_submit_step<F: SubmitForge>(
    action: &SubmitAction,
    plan: &SubmitPlan,
    forge: &F,
    created: &mut Vec<(String, PrSummary)>,
) -> (r: Result<(String, Option<PrSummary>), ForgeError>)
    ensures
        submit_step_outcome(forge, *action, plan.segments@, created_views(old(created)@), created_views(final(created)@), r),
{
    match action {
        SubmitAction::Push { .. } => Ok((String::new(), None)),
        SubmitAction::CreatePr { bookmark, base, title, body } => {
            let a = forge.create_pr(title.as_str(), body.as_str(), bookmark.as_str(), base.as_str());
            let ghost seen = a;
            let r = match a {
                Ok(pr) => {
                    note_created(created, bookmark, &pr);
                    let n = num_text(pr.number);
                    Ok((cat4("Opened #", n.as_str(), " for ", bookmark.as_str()), Some(pr)))
                },
                Err(e) => Err(e),
            };
            assert(forge.create_answer(title@, body@, bookmark@, base@, seen));
            r
        },
        SubmitAction::RetargetPr { number, bookmark, from_base, to_base } => {
            let a = forge.update_pr_base(*number, to_base.as_str());
            let ghost seen = a;
            let r = match a {
                Ok(()) => {
                    let n = num_text(*number);
                    let head = cat4("Retargeted #", n.as_str(), " (", bookmark.as_str());
                    let mid = cat4(head.as_str(), ") from ", from_base.as_str(), " to ");
                    Ok((cat2(mid.as_str(), to_base.as_str()), None))
                },
                Err(e) => Err(e),
            };
            assert(forge.retarget_answer(*number, to_base@, seen));
            r
        },
        SubmitAction::UpdatePrText { number, bookmark, title, body, seed } => {
            let t: Option<&str> = match title {
                Some(t) => Some(t.as_str()),
                None => None,
            };
            assert(opt_str_view(t) == opt_view(*title));
            let a = forge.update_pr_text(*number, t, body.as_str());
            let ghost seen = a;
            let r = match a {
                Ok(()) => {
                    let n = num_text(*number);
                    let story = if *seed {
                        cat2("Recorded Jiji's description fingerprints on #", n.as_str())
                    } else if title.is_some() {
                        cat4("Updated #", n.as_str(), "'s title and description from ", bookmark.as_str())
                    } else {
                        cat4("Updated #", n.as_str(), "'s description from ", bookmark.as_str())
                    };
                    Ok((story, None))
                },
                Err(e) => Err(e),
            };
            assert(forge.text_answer(*number, opt_view(*title), body@, seen));
            r
        },
        SubmitAction::SyncStackComment { bookmark, number, .. } => {
            let res = sync_stack_comment(plan, forge, created, bookmark.as_str(), *number);
            match res {
                Ok(story) => Ok((story, None)),
                Err(e) => Err(e),
            }
        },
    }
}

/// What a comment step writes, given the comment's body as it should read
/// and the comment as it reads now.
pub enum CommentWrite {
    /// Already reads right.
    Keep,
    /// Edit the existing comment.
    Update { id: u64 },
    /// Post a new comment.
    Create,
}

/// The write for a rendered body against the existing comment.
pub fn comment_write(body: &str, existing: Option<&ExistingComment>) -> (r: CommentWrite)
    ensures
        match existing {
            Some(e) => if e.body@ == body@ {
                r is Keep
            } else {
                r == (CommentWrite::Update { id: e.id })
            },
            None => r is Create,
        },
{
    match existing {
        Some(e) => if str_eq(e.body.as_str(), body) {
            CommentWrite::Keep
        } else {
            CommentWrite::Update { id: e.id }
        },
        None => CommentWrite::Create,
    }
}

/// The live stack after this run's creations, for the first `k` plan
/// segments: each segment with a PR (its own, or the one this run opened
/// for it), linked.
pub open spec fn run_entries(segs: Seq<SubmitSegment>, created: Seq<(Seq<char>, PrSummary)>, k: int) -> Seq<
    StackEntry,
>
    decreases k,
{
    if k <= 0 {
        Seq::empty()
    } else {
        let rest = run_entries(segs, created, k - 1);
        let seg = segs[k - 1];
        let pr = match seg.pr {
            Some(p) => Some(p),
            None => created_pr(created, seg.bookmark@),
        };
        match pr {
            Some(p) => rest.push(StackEntry { bookmark: seg.bookmark, number: Some(p.number), url: Some(p.url) }),
            None => rest,
        }
    }
}

/// The live stack after this run's creations: the plan's segments that
/// have a PR, links filled in from `created`.
fn live_entries(plan: &SubmitPlan, created: &Vec<(String, PrSummary)>) -> (r: Vec<StackEntry>)
    ensures
        r@ == run_entries(plan.segments@, created_views(created@), plan.segments@.len() as int),
{
    let mut out: Vec<StackEntry> = Vec::new();
    let mut i: usize = 0;
    while i < plan.segments.len()
        invariant
            i <= plan.segments@.len(),
            out@ == run_entries(plan.segments@, created_views(created@), i as int),
        decreases plan.segments@.len() - i,
    {
        let seg = &plan.segments[i];
        let pr = match &seg.pr {
            Some(p) => Some(p.duplicate()),
            None => created_for(created, seg.bookmark.as_str()),
        };
        match pr {
            Some(p) => out.push(
                StackEntry { bookmark: seg.bookmark.clone(), number: Some(p.number), url: Some(p.url.clone()) },
            ),
            None => {},
        }
        i += 1;
    }
    out
}

/// The PR number a comment step comments on: the planned one, or the one
/// this run opened for the bookmark.
pub open spec fn comment_number(number: Option<u64>, created: Seq<(Seq<char>, PrSummary)>, b: Seq<char>) -> Option<
    u64,
> {
    match number {
        Some(n) => Some(n),
        None => match created_pr(created, b) {
            Some(p) => Some(p.number),
            None => None,
        },
    }
}

/// Why a comment step has nothing to comment on.
pub open spec fn no_pr_to_comment_msg(b: Seq<char>) -> Seq<char> {
    "no pull request exists for \u{201c}"@ + b + "\u{201d} to comment on"@
}

/// The stack comment a step writes on the PR of segment `b`, given the
/// comment that is there now.
pub open spec fn comment_body(
    segs: Seq<SubmitSegment>,
    created: Seq<(Seq<char>, PrSummary)>,
    b: Seq<char>,
    existing: Option<ExistingComment>,
) -> Seq<char> {
    let entries = run_entries(segs, created, segs.len() as int);
    render_spec(entries, existing_fossils(existing, entries), Some(b))
}

/// The story of a comment step on PR `n`: kept when the comment already
/// reads `body`, updated when it reads otherwise, posted when there is none.
pub open spec fn comment_story(n: u64, body: Seq<char>, existing: Option<ExistingComment>) -> Seq<char> {
    match existing {
        Some(e) => if e.body@ == body {
            "The stack comment on #"@ + dec(n as nat) + " already reads right"@
        } else {
            "Updated the stack comment on #"@ + dec(n as nat)
        },
        None => "Posted the stack comment on #"@ + dec(n as nat),
    }
}

/// What a comment write comes to: the story on success, the forge's error
/// otherwise.
pub open spec fn comment_write_came_to(w: Result<(), ForgeError>, story: Seq<char>, r: Result<String, ForgeError>) -> bool {
    match w {
        Ok(()) => r matches Ok(m) && m@ == story,
        Err(e) => r matches Err(x) && x == e,
    }
}

/// The write a comment step makes on PR `n` once it read `existing`
/// there: none when the comment already reads `body`, an edit of the
/// comment when it reads otherwise, a new comment when there is none.
pub open spec fn comment_write_told<F: SubmitForge>(
    forge: &F,
    n: u64,
    body: Seq<char>,
    existing: Option<ExistingComment>,
    r: Result<String, ForgeError>,
) -> bool {
    let story = comment_story(n, body, existing);
    match existing {
        Some(e) => if e.body@ == body {
            r matches Ok(m) && m@ == story
        } else {
            exists|w: Result<(), ForgeError>| #[trigger] forge.edit_answer(e.id, body, w) && comment_write_came_to(w, story, r)
        },
        None => exists|w: Result<(), ForgeError>| #[trigger] forge.post_answer(n, body, w) && comment_write_came_to(w, story, r),
    }
}

/// What a comment step comes to: without a PR it fails with a plan error;
/// otherwise the PR's comment is read afresh (a failed read fails the
/// step with its error) and the step writes as [`comment_write_told`]
/// says, with the body of [`comment_body`].
pub open spec fn comment_step_outcome<F: SubmitForge>(
    forge: &F,
    segs: Seq<SubmitSegment>,
    created: Seq<(Seq<char>, PrSummary)>,
    b: Seq<char>,
    number: Option<u64>,
    r: Result<String, ForgeError>,
) -> bool {
    match comment_number(number, created, b) {
        None => r matches Err(ForgeError::Plan(m)) && m@ == no_pr_to_comment_msg(b),
        Some(n) => exists|read: Result<Option<ExistingComment>, ForgeError>|
            #[trigger] forge.comment_answer(n, read) && comment_read_told(forge, segs, created, b, n, read, r),
    }
}

/// What a comment step on PR `n` comes to once its read answered `read`.
pub open spec fn comment_read_told<F: SubmitForge>(
    forge: &F,
    segs: Seq<SubmitSegment>,
    created: Seq<(Seq<char>, PrSummary)>,
    b: Seq<char>,
    n: u64,
    read: Result<Option<ExistingComment>, ForgeError>,
    r: Result<String, ForgeError>,
) -> bool {
    match read {
        Err(e) => r matches Err(x) && x == e,
        Ok(existing) => comment_write_told(forge, n, comment_body(segs, created, b, existing), existing, r),
    }
}

/// One comment step: resolve the PR (planned number or just created),
/// re-read its existing comment, merge fossils, render, and write only
/// when the text actually changes. Without a PR to comment on the step
/// fails with a plan error.
fn sync_stack_comment<F: SubmitForge>(
    plan: &SubmitPlan,
    forge: &F,
    created: &Vec<(String, PrSummary)>,
    bookmark: &str,
    number: Option<u64>,
) -> (r: Result<String, ForgeError>)
    ensures
        comment_step_outcome(forge, plan.segments@, created_views(created@), bookmark@, number, r),
{
    let ghost planned = number;
    let number = match number {
        Some(n) => n,
        None => match created_for(created, bookmark) {
            Some(p) => p.number,
            None => {
                let m = cat3("no pull request exists for \u{201c}", bookmark, "\u{201d} to comment on");
                return Err(ForgeError::Plan(m));
            },
        },
    };
    assert(comment_number(planned, created_views(created@), bookmark@) == Some(number));
    assert(comment_number(planned, created_views(created@), bookmark@)->Some_0 == number);
    let entries = live_entries(plan, created);
    let read = forge.stack_comment(number);
    let ghost read_seen = read;
    let existing = match read {
        Ok(e) => e,
        Err(e) => {
            let r = Err(e);
            assert(forge.comment_answer(number, read_seen) && comment_read_told(forge, plan.segments@, created_views(created@), bookmark@, number, read_seen, r));
            return r;
        },
    };
    let previous = match &existing {
        Some(e) => parse_stack_data(e.body.as_str()),
        None => None,
    };
    let fossils = inherit_fossils(
        match &previous {
            Some(p) => Some(p),
            None => None,
        },
        entries.as_slice(),
    );
    let body = render_stack_comment(entries.as_slice(), fossils.as_slice(), Some(bookmark));
    let ghost story = comment_story(number, body@, existing);
    assert(body@ == comment_body(plan.segments@, created_views(created@), bookmark@, existing));
    let n = num_text(number);
    let write = comment_write(body.as_str(), match &existing {
        Some(e) => Some(e),
        None => None,
    });
    let r = match write {
        CommentWrite::Keep => {
            let m = cat3("The stack comment on #", n.as_str(), " already reads right");
            assert(m@ == story);
            Ok(m)
        },
        CommentWrite::Update { id } => {
            let w = forge.update_comment(id, body.as_str());
            let ghost seen = w;
            let r = match w {
                Ok(()) => {
                    let m = cat2("Updated the stack comment on #", n.as_str());
                    assert(m@ == story);
                    Ok(m)
                },
                Err(e) => Err(e),
            };
            assert(forge.edit_answer(id, body@, seen));
            r
        },
        CommentWrite::Create => {
            let w = forge.create_comment(number, body.as_str());
            let ghost seen = w;
            let r = match w {
                Ok(()) => {
                    let m = cat2("Posted the stack comment on #", n.as_str());
                    assert(m@ == story);
                    Ok(m)
                },
                Err(e) => Err(e),
            };
            assert(forge.post_answer(number, body@, seen));
            r
        },
    };
    assert(comment_write_told(forge, number, body@, existing, r));
    assert(forge.comment_answer(number, read_seen) && comment_read_told(forge, plan.segments@, created_views(created@), bookmark@, number, read_seen, r));
    r
}

/// Equal views mean the same kind of action.
proof fn lemma_action_kind(a: SubmitAction, b: SubmitAction)
    requires
        a@ == b@,
    ensures
        (a is Push) == (b is Push),
{
    match a {
        SubmitAction::Push { .. } => {},
        _ => { if b is Push { assert(b@ is Push); } },
    }
}


/// Two submit actions with the same content.
pub fn same_submit_action(a: &SubmitAction, b: &SubmitAction) -> (r: bool)
    ensures
        r == (a@ == b@),
{
    match (a, b) {
        (SubmitAction::Push { bookmark: b1, create: c1 }, SubmitAction::Push { bookmark: b2, create: c2 }) => {
            str_eq(b1.as_str(), b2.as_str()) && *c1 == *c2
        },
        (
            SubmitAction::CreatePr { bookmark: b1, base: s1, title: t1, body: d1 },
            SubmitAction::CreatePr { bookmark: b2, base: s2, title: t2, body: d2 },
        ) => str_eq(b1.as_str(), b2.as_str()) && str_eq(s1.as_str(), s2.as_str()) && str_eq(t1.as_str(), t2.as_str())
            && str_eq(d1.as_str(), d2.as_str()),
        (
            SubmitAction::RetargetPr { number: n1, bookmark: b1, from_base: f1, to_base: t1 },
            SubmitAction::RetargetPr { number: n2, bookmark: b2, from_base: f2, to_base: t2 },
        ) => *n1 == *n2 && str_eq(b1.as_str(), b2.as_str()) && str_eq(f1.as_str(), f2.as_str()) && str_eq(
            t1.as_str(),
            t2.as_str(),
        ),
        (
            SubmitAction::UpdatePrText { number: n1, bookmark: b1, title: t1, body: d1, seed: s1 },
            SubmitAction::UpdatePrText { number: n2, bookmark: b2, title: t2, body: d2, seed: s2 },
        ) => *n1 == *n2 && str_eq(b1.as_str(), b2.as_str()) && crate::text::opt_str_eq(t1, t2) && str_eq(
            d1.as_str(),
            d2.as_str(),
        ) && *s1 == *s2,
        (
            SubmitAction::SyncStackComment { bookmark: b1, number: n1, create: c1 },
            SubmitAction::SyncStackComment { bookmark: b2, number: n2, create: c2 },
        ) => str_eq(b1.as_str(), b2.as_str()) && *n1 == *n2 && *c1 == *c2,
        _ => false,
    }
}

/// Two lists of submit actions with the same content, in order.
pub fn same_submit_actions(a: &[SubmitAction], b: &[SubmitAction]) -> (r: bool)
    ensures
        r == (action_views(a@) == action_views(b@)),
{
    if a.len() != b.len() {
        assert(action_views(a@).len() != action_views(b@).len());
        return false;
    }
    let mut i: usize = 0;
    while i < a.len()
        invariant
            i <= a@.len(),
            a@.len() == b@.len(),
            forall|k: int| 0 <= k < i ==> (#[trigger] a@[k])@ == b@[k]@,
        decreases a@.len() - i,
    {
        if !same_submit_action(&a[i], &b[i]) {
            assert(action_views(a@)[i as int] != action_views(b@)[i as int]);
            return false;
        }
        i += 1;
    }
    assert(action_views(a@) =~= action_views(b@));
    true
}


/// The first stack comment among a PR's comments, in the order GitHub
/// listed them.
pub open spec fn first_stack_comment(comments: Seq<(u64, String)>) -> Option<(u64, String)>
    decreases comments.len(),
{
    if comments.len() == 0 {
        None
    } else if crate::text::contains(comments[0].1@, crate::comment::STACK_SENTINEL@) {
        Some(comments[0])
    } else {
        first_stack_comment(comments.drop_first())
    }
}

/// The PR's stack comment, found among its comments by the sentinel.
pub fn find_stack_comment(listed: Vec<(u64, String)>) -> (r: Option<ExistingComment>)
    ensures
        match first_stack_comment(listed@) {
            Some(c) => r == Some(ExistingComment { id: c.0, body: c.1 }),
            None => r is None,
        },
{
    let ghost all = listed@;
    let mut comments = listed;
    let mut i: usize = 0;
    assert(all.skip(0) =~= all);
    while i < comments.len()
        invariant
            i <= all.len(),
            comments@ == all,
            all == listed@,
            first_stack_comment(all) == first_stack_comment(all.skip(i as int)),
        decreases all.len() - i,
    {
        proof {
            assert(all.skip(i as int)[0] == all[i as int]);
            assert(all.skip(i as int).drop_first() =~= all.skip(i + 1));
        }
        if crate::comment::is_stack_comment(comments[i].1.as_str()) {
            assert(first_stack_comment(all.skip(i as int)) == Some(all[i as int]));
            let pair = comments.remove(i);
            assert(pair == all[i as int]);
            return Some(ExistingComment { id: pair.0, body: pair.1 });
        }
        i += 1;
    }
    None
}

} // verus!
