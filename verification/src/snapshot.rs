//! The repository snapshot the engines plan against: the change graph and
//! the bookmarks, as the jj host publishes them. Only what planning reads
//! is modeled here.

use vstd::prelude::*;

use crate::text::{chars_eq, chars_of};

verus! {

/// Where a change sits in the repo's history.
#[derive(Debug, Clone, Copy, PartialEq, Eq, Structural)]
pub enum NodeKind {
    /// The working-copy change.
    WorkingCopy,
    /// Any other rewritable change.
    Mutable,
    /// Trunk ancestry and other immutable history.
    Immutable,
}

/// A bookmark's position relative to its remote counterpart.
#[derive(Debug, Clone, Copy, PartialEq, Eq, Structural)]
pub enum SyncState {
    Synced,
    Ahead,
    Behind,
    Diverged,
    LocalOnly,
}

/// One change in the snapshot graph.
#[derive(Debug, Clone, PartialEq, Eq)]
pub struct GraphNode {
    /// The commit id the graph is keyed by.
    pub id: String,
    /// The jj change id shown to the user.
    pub change_id: String,
    pub description: String,
    pub kind: NodeKind,
    /// Parent ids, first parent first.
    pub parents: Vec<String>,
    /// Names of the bookmarks pointing at this change.
    pub bookmarks: Vec<String>,
    pub is_empty: bool,
    pub has_conflict: bool,
    pub is_divergent: bool,
}

/// One bookmark, local and/or remote.
#[derive(Debug, Clone, PartialEq, Eq)]
pub struct BookmarkState {
    pub name: String,
    /// Id of the change the bookmark points at.
    pub target: String,
    /// The remote the bookmark tracks, when it has been pushed.
    pub remote: Option<String>,
    pub sync: SyncState,
    pub is_trunk: bool,
    pub is_local: bool,
}

/// One conflict the repo reports (`bookmark-<name>` for a conflicted
/// bookmark).
#[derive(Debug, Clone, PartialEq, Eq)]
pub struct ConflictItem {
    pub id: String,
}

/// The repo as the host last published it.
#[derive(Debug, Clone, PartialEq, Eq)]
pub struct RepoSnapshot {
    pub repo_path: String,
    /// Name of the trunk bookmark stacks land on.
    pub trunk_bookmark: String,
    /// Id of the working-copy change.
    pub working_copy: String,
    /// Graph nodes, children before parents.
    pub nodes: Vec<GraphNode>,
    pub bookmarks: Vec<BookmarkState>,
    pub conflicts: Vec<ConflictItem>,
}

/// The last node carrying `id` (later entries win, as in a map built from
/// the node list).
pub open spec fn node_index(nodes: Seq<GraphNode>, id: Seq<char>) -> Option<int>
    decreases nodes.len(),
{
    if nodes.len() == 0 {
        None
    } else if nodes.last().id@ == id {
        Some(nodes.len() - 1)
    } else {
        node_index(nodes.drop_last(), id)
    }
}

/// `node_index` answers a node carrying the id.
pub proof fn lemma_node_index(nodes: Seq<GraphNode>, id: Seq<char>)
    ensures
        match node_index(nodes, id) {
            Some(i) => 0 <= i < nodes.len() && nodes[i].id@ == id,
            None => forall|i: int| 0 <= i < nodes.len() ==> #[trigger] nodes[i].id@ != id,
        },
    decreases nodes.len(),
{
    if nodes.len() > 0 && nodes.last().id@ != id {
        lemma_node_index(nodes.drop_last(), id);
        if node_index(nodes.drop_last(), id) is None {
            assert forall|i: int| 0 <= i < nodes.len() implies #[trigger] nodes[i].id@ != id by {
                if i < nodes.len() - 1 {
                    assert(nodes[i] == nodes.drop_last()[i]);
                }
            }
        }
    }
}

/// The node an id names, found the way `node_index` does.
pub fn find_node(nodes: &Vec<GraphNode>, id: &str) -> (r: Option<usize>)
    ensures
        match r {
            Some(i) => node_index(nodes@, id@) == Some(i as int),
            None => node_index(nodes@, id@) is None,
        },
{
    let want = chars_of(id);
    let mut n: usize = nodes.len();
    assert(nodes@.take(n as int) =~= nodes@);
    while n > 0
        invariant
            n <= nodes@.len(),
            want@ == id@,
            node_index(nodes@, id@) == node_index(nodes@.take(n as int), id@),
        decreases n,
    {
        let have = chars_of(nodes[n - 1].id.as_str());
        assert(nodes@.take(n as int).last() == nodes@[n - 1]);
        if chars_eq(&have, &want) {
            return Some(n - 1);
        }
        assert(nodes@.take(n as int).drop_last() =~= nodes@.take(n - 1));
        n -= 1;
    }
    None
}

/// The first bookmark satisfying `name == n` and, when `local` holds, the
/// bookmark is local.
pub open spec fn bookmark_index(bms: Seq<BookmarkState>, name: Seq<char>, local: bool) -> Option<int>
    decreases bms.len(),
{
    if bms.len() == 0 {
        None
    } else if bms[0].name@ == name && (!local || bms[0].is_local) {
        Some(0)
    } else {
        match bookmark_index(bms.drop_first(), name, local) {
            Some(i) => Some(i + 1),
            None => None,
        }
    }
}

/// `bookmark_index` answers a matching bookmark.
pub proof fn lemma_bookmark_index(bms: Seq<BookmarkState>, name: Seq<char>, local: bool)
    ensures
        match bookmark_index(bms, name, local) {
            Some(i) => 0 <= i < bms.len() && bms[i].name@ == name && (!local || bms[i].is_local),
            None => forall|i: int|
                0 <= i < bms.len() ==> !(#[trigger] bms[i].name@ == name && (!local
                    || bms[i].is_local)),
        },
    decreases bms.len(),
{
    if bms.len() > 0 && !(bms[0].name@ == name && (!local || bms[0].is_local)) {
        lemma_bookmark_index(bms.drop_first(), name, local);
        if bookmark_index(bms.drop_first(), name, local) is None {
            assert forall|i: int| 0 <= i < bms.len() implies !(#[trigger] bms[i].name@ == name
                && (!local || bms[i].is_local)) by {
                if i > 0 {
                    assert(bms[i] == bms.drop_first()[i - 1]);
                }
            }
        } else {
            let k = bookmark_index(bms.drop_first(), name, local)->0;
            assert(bms[k + 1] == bms.drop_first()[k]);
        }
    }
}

/// The bookmark named `name` (when `local`, the local one).
pub fn find_bookmark(bms: &Vec<BookmarkState>, name: &str, local: bool) -> (r: Option<usize>)
    ensures
        match r {
            Some(i) => bookmark_index(bms@, name@, local) == Some(i as int),
            None => bookmark_index(bms@, name@, local) is None,
        },
{
    let want = chars_of(name);
    let mut i: usize = 0;
    while i < bms.len()
        invariant
            i <= bms@.len(),
            want@ == name@,
            forall|j: int| 0 <= j < i ==> !(#[trigger] bms@[j].name@ == name@ && (!local
                || bms@[j].is_local)),
        decreases bms@.len() - i,
    {
        let have = chars_of(bms[i].name.as_str());
        if chars_eq(&have, &want) && (!local || bms[i].is_local) {
            proof {
                lemma_bookmark_index(bms@, name@, local);
                if bookmark_index(bms@, name@, local) != Some(i as int) {
                    match bookmark_index(bms@, name@, local) {
                        Some(k) => {
                            if k < i {
                                assert(!(bms@[k].name@ == name@ && (!local || bms@[k].is_local)));
                            }
                            lemma_bookmark_first(bms@, name@, local, i as int);
                        },
                        None => {
                            assert(!(bms@[i as int].name@ == name@ && (!local
                                || bms@[i as int].is_local)));
                        },
                    }
                }
            }
            return Some(i);
        }
        i += 1;
    }
    proof {
        lemma_bookmark_index(bms@, name@, local);
        if let Some(k) = bookmark_index(bms@, name@, local) {
            assert(!(bms@[k].name@ == name@ && (!local || bms@[k].is_local)));
        }
    }
    None
}

/// The first match is the one `bookmark_index` answers.
proof fn lemma_bookmark_first(bms: Seq<BookmarkState>, name: Seq<char>, local: bool, i: int)
    requires
        0 <= i < bms.len(),
        bms[i].name@ == name && (!local || bms[i].is_local),
        forall|j: int| 0 <= j < i ==> !(#[trigger] bms[j].name@ == name && (!local || bms[j].is_local)),
    ensures
        bookmark_index(bms, name, local) == Some(i),
    decreases i,
{
    if i > 0 {
        assert(!(bms[0].name@ == name && (!local || bms[0].is_local)));
        assert forall|j: int| 0 <= j < i - 1 implies !(#[trigger] bms.drop_first()[j].name@ == name
            && (!local || bms.drop_first()[j].is_local)) by {
            assert(bms.drop_first()[j] == bms[j + 1]);
        }
        assert(bms.drop_first()[i - 1] == bms[i]);
        lemma_bookmark_first(bms.drop_first(), name, local, i - 1);
    }
}

/// The conflict list names the bookmark `name` (`bookmark-<name>`).
pub open spec fn bookmark_conflicted(conflicts: Seq<ConflictItem>, name: Seq<char>) -> bool {
    exists|i: int| 0 <= i < conflicts.len() && #[trigger] conflicts[i].id@ == "bookmark-"@ + name
}

/// Whether the conflict list names the bookmark `name`.
pub fn is_bookmark_conflicted(conflicts: &Vec<ConflictItem>, name: &str) -> (r: bool)
    ensures
        r == bookmark_conflicted(conflicts@, name@),
{
    let mut want: Vec<char> = chars_of("bookmark-");
    crate::text::push_str(&mut want, name);
    let mut i: usize = 0;
    while i < conflicts.len()
        invariant
            i <= conflicts@.len(),
            want@ == "bookmark-"@ + name@,
            forall|j: int| 0 <= j < i ==> #[trigger] conflicts@[j].id@ != "bookmark-"@ + name@,
        decreases conflicts@.len() - i,
    {
        let have = chars_of(conflicts[i].id.as_str());
        if chars_eq(&have, &want) {
            return true;
        }
        i += 1;
    }
    false
}

} // verus!
