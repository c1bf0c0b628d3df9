//! Index-based flat tree of IMAP folders used by the folder picker. Nodes
//! live in one vector and reference their parent and children by index.

use vstd::prelude::*;

use crate::text::{
    chars_eq, chars_of, clone_opt_string, eq_ignore_ascii_case, join_chars, join_segments,
    opt_chars, path_segments, seq_views, split_chars, str_eq, str_eq_ignore_ascii_case,
    string_from_chars,
};

verus! {

/// One folder as listed by the server.
#[derive(Clone, Debug, PartialEq)]
pub struct RemoteFolderDto {
    pub path: String,
    /// Lowercase special-use string ("inbox"...) or `None`.
    pub special_use: Option<String>,
    pub has_children: bool,
    pub no_select: bool,
    pub delimiter: Option<String>,
}

/// A folder the user chose to sync.
#[derive(Clone, Debug, PartialEq)]
pub struct NewFolderDto {
    pub path: String,
    pub special_use: Option<String>,
    pub no_select: bool,
}

/// A single folder of a [`FolderTree`].
#[derive(Clone, Debug, PartialEq)]
pub struct FolderNode {
    pub path: String,
    pub name: String,
    pub special_use: Option<String>,
    pub no_select: bool,
    pub depth: usize,
    pub parent: Option<usize>,
    pub children: Vec<usize>,
    pub selected: bool,
}

/// An index-based flat tree of folders.
#[derive(Clone, Debug, PartialEq)]
pub struct FolderTree {
    pub nodes: Vec<FolderNode>,
}

/// Parent links point backwards, the children lists are exactly the forward
/// links of the parent pointers, and each children list is increasing.
pub open spec fn tree_wf(nodes: Seq<FolderNode>) -> bool {
    &&& forall|i: int, a: int, b: int| #![trigger nodes[i].children@[a], nodes[i].children@[b]]
        0 <= i < nodes.len() && 0 <= a < b < nodes[i].children@.len() ==> nodes[i].children@[a]
            < nodes[i].children@[b]
    &&& forall|i: int| #![trigger nodes[i].parent]
        0 <= i < nodes.len() && nodes[i].parent is Some ==> {
            let p = nodes[i].parent->0 as int;
            &&& p < i
            &&& nodes[p].children@.contains(i as usize)
        }
    &&& forall|i: int, k: int| #![trigger nodes[i].children@[k]]
        0 <= i < nodes.len() && 0 <= k < nodes[i].children@.len() ==> {
            let c = nodes[i].children@[k] as int;
            &&& i < c < nodes.len()
            &&& nodes[c].parent == Some(i as usize)
        }
}

/// `a` is a proper ancestor of `j` (following parent links from `j`).
pub open spec fn is_ancestor(nodes: Seq<FolderNode>, a: int, j: int) -> bool
    decreases j,
{
    if 0 <= j < nodes.len() {
        match nodes[j].parent {
            Some(p) => if (p as int) < j {
                p as int == a || is_ancestor(nodes, a, p as int)
            } else {
                false
            },
            None => false,
        }
    } else {
        false
    }
}

/// `j` is `a` itself or one of its descendants.
pub open spec fn in_subtree(nodes: Seq<FolderNode>, a: int, j: int) -> bool {
    j == a || is_ancestor(nodes, a, j)
}

/// Depth-first, pre-order listing of the subtrees of the children of `i`
/// from child position `k` on.
pub open spec fn dfs_from(nodes: Seq<FolderNode>, i: int, k: int) -> Seq<usize>
    decreases nodes.len() - i, nodes[i].children@.len() - k,
{
    if !(0 <= i < nodes.len()) || k < 0 || k >= nodes[i].children@.len() {
        Seq::empty()
    } else {
        let c = nodes[i].children@[k];
        let rest = dfs_from(nodes, i, k + 1);
        if i < c < nodes.len() {
            seq![c] + dfs_from(nodes, c as int, 0) + rest
        } else {
            rest
        }
    }
}

/// The descendants of `i` in depth-first pre-order.
pub open spec fn dfs_seq(nodes: Seq<FolderNode>, i: int) -> Seq<usize> {
    dfs_from(nodes, i, 0)
}

/// Ancestry is transitive.
pub proof fn lemma_ancestor_trans(nodes: Seq<FolderNode>, a: int, b: int, x: int)
    requires
        is_ancestor(nodes, a, b),
        is_ancestor(nodes, b, x),
    ensures
        is_ancestor(nodes, a, x),
    decreases x,
{
    let p = nodes[x].parent->0 as int;
    if p != b {
        lemma_ancestor_trans(nodes, a, b, p);
    }
}

/// The proper descendants of `a` are exactly the subtrees of its children.
pub proof fn lemma_ancestor_via_child(nodes: Seq<FolderNode>, a: int, x: int)
    requires
        tree_wf(nodes),
        nodes.len() <= usize::MAX,
        0 <= a < nodes.len(),
    ensures
        is_ancestor(nodes, a, x) <==> exists|k: int|
            0 <= k < nodes[a].children@.len() && #[trigger] in_subtree(
                nodes,
                nodes[a].children@[k] as int,
                x,
            ),
    decreases x,
{
    if is_ancestor(nodes, a, x) {
        let p = nodes[x].parent->0 as int;
        if p == a {
            assert(nodes[a].children@.contains(x as usize));
            let k = choose|k: int| 0 <= k < nodes[a].children@.len() && nodes[a].children@[k] == x as usize;
            assert(in_subtree(nodes, nodes[a].children@[k] as int, x));
        } else {
            lemma_ancestor_via_child(nodes, a, p);
            let k = choose|k: int|
                0 <= k < nodes[a].children@.len() && #[trigger] in_subtree(
                    nodes,
                    nodes[a].children@[k] as int,
                    p,
                );
            let c = nodes[a].children@[k] as int;
            assert(is_ancestor(nodes, c, x));
            assert(in_subtree(nodes, c, x));
        }
    }
    if exists|k: int|
        0 <= k < nodes[a].children@.len() && #[trigger] in_subtree(
            nodes,
            nodes[a].children@[k] as int,
            x,
        ) {
        let k = choose|k: int|
            0 <= k < nodes[a].children@.len() && #[trigger] in_subtree(
                nodes,
                nodes[a].children@[k] as int,
                x,
            );
        let c = nodes[a].children@[k] as int;
        assert(is_ancestor(nodes, a, c));
        if x != c {
            lemma_ancestor_trans(nodes, a, c, x);
        }
    }
}

/// Membership in the depth-first listing: `x` is listed from child position
/// `k` on iff it lies in the subtree of one of those children.
pub proof fn lemma_dfs_from_members(nodes: Seq<FolderNode>, i: int, k: int, x: usize)
    requires
        tree_wf(nodes),
        nodes.len() <= usize::MAX,
        0 <= i < nodes.len(),
        0 <= k,
    ensures
        dfs_from(nodes, i, k).contains(x) <==> exists|k2: int|
            k <= k2 < nodes[i].children@.len() && #[trigger] in_subtree(
                nodes,
                nodes[i].children@[k2] as int,
                x as int,
            ),
    decreases nodes.len() - i, nodes[i].children@.len() - k,
{
    if k >= nodes[i].children@.len() {
    } else {
        let c = nodes[i].children@[k] as int;
        assert(i < c < nodes.len());
        lemma_dfs_from_members(nodes, i, k + 1, x);
        lemma_dfs_from_members(nodes, c, 0, x);
        lemma_ancestor_via_child(nodes, c, x as int);
        let rest = dfs_from(nodes, i, k + 1);
        let sub = dfs_from(nodes, c, 0);
        assert(dfs_from(nodes, i, k) == seq![c as usize] + sub + rest);
        if dfs_from(nodes, i, k).contains(x) {
            let m = choose|m: int| 0 <= m < dfs_from(nodes, i, k).len() && dfs_from(nodes, i, k)[m] == x;
            if m == 0 {
                assert(in_subtree(nodes, nodes[i].children@[k] as int, x as int));
            } else if m < 1 + sub.len() {
                assert(sub[m - 1] == x);
                assert(sub.contains(x));
                assert(in_subtree(nodes, nodes[i].children@[k] as int, x as int));
            } else {
                assert(rest[m - 1 - sub.len()] == x);
                assert(rest.contains(x));
            }
        }
        if exists|k2: int|
            k <= k2 < nodes[i].children@.len() && #[trigger] in_subtree(
                nodes,
                nodes[i].children@[k2] as int,
                x as int,
            ) {
            let k2 = choose|k2: int|
                k <= k2 < nodes[i].children@.len() && #[trigger] in_subtree(
                    nodes,
                    nodes[i].children@[k2] as int,
                    x as int,
                );
            if k2 == k {
                if x as int == c {
                    assert((seq![c as usize] + sub + rest)[0] == x);
                } else {
                    assert(sub.contains(x));
                    let m = choose|m: int| 0 <= m < sub.len() && sub[m] == x;
                    assert((seq![c as usize] + sub + rest)[1 + m] == x);
                }
            } else {
                assert(rest.contains(x));
                let m = choose|m: int| 0 <= m < rest.len() && rest[m] == x;
                assert((seq![c as usize] + sub + rest)[1 + sub.len() + m] == x);
            }
        }
    }
}

/// The depth-first listing of `i` holds exactly the descendants of `i`.
pub proof fn lemma_dfs_seq_members(nodes: Seq<FolderNode>, i: int, x: usize)
    requires
        tree_wf(nodes),
        nodes.len() <= usize::MAX,
        0 <= i < nodes.len(),
    ensures
        dfs_seq(nodes, i).contains(x) <==> is_ancestor(nodes, i, x as int),
{
    lemma_dfs_from_members(nodes, i, 0, x);
    lemma_ancestor_via_child(nodes, i, x as int);
}

/// An ancestor comes before its descendants.
pub proof fn lemma_ancestor_before(nodes: Seq<FolderNode>, a: int, j: int)
    requires
        is_ancestor(nodes, a, j),
    ensures
        a < j,
    decreases j,
{
    let p = nodes[j].parent->0 as int;
    if p != a {
        lemma_ancestor_before(nodes, a, p);
    }
}

/// The ancestors of a node lie on one chain: of two nodes whose subtrees
/// both hold `x`, one holds the other.
pub proof fn lemma_subtrees_nested(nodes: Seq<FolderNode>, a: int, b: int, x: int)
    requires
        in_subtree(nodes, a, x),
        in_subtree(nodes, b, x),
    ensures
        in_subtree(nodes, a, b) || in_subtree(nodes, b, a),
    decreases x,
{
    if x != a && x != b {
        let p = nodes[x].parent->0 as int;
        lemma_subtrees_nested(nodes, a, b, p);
        if in_subtree(nodes, a, b) {
        } else {
            assert(in_subtree(nodes, b, a));
        }
    } else if x == a {
        assert(in_subtree(nodes, b, a));
    } else {
        assert(in_subtree(nodes, a, b));
    }
}

/// Two different children of one node have disjoint subtrees.
proof fn lemma_sibling_subtrees_disjoint(nodes: Seq<FolderNode>, i: int, c: int, c2: int, x: int)
    requires
        tree_wf(nodes),
        nodes.len() <= usize::MAX,
        0 <= i < c < nodes.len(),
        i < c2 < nodes.len(),
        c != c2,
        nodes[c].parent == Some(i as usize),
        nodes[c2].parent == Some(i as usize),
        in_subtree(nodes, c, x),
    ensures
        !in_subtree(nodes, c2, x),
{
    if in_subtree(nodes, c2, x) {
        lemma_subtrees_nested(nodes, c, c2, x);
        if in_subtree(nodes, c, c2) {
            assert(is_ancestor(nodes, c, c2));
            assert(nodes[c2].parent->0 as int == i);
            assert(is_ancestor(nodes, c, c2) == (i == c || is_ancestor(nodes, c, i)));
            if i != c {
                assert(is_ancestor(nodes, c, i));
                lemma_ancestor_before(nodes, c, i);
            }
        } else {
            assert(is_ancestor(nodes, c2, c));
            assert(nodes[c].parent->0 as int == i);
            assert(is_ancestor(nodes, c2, c) == (i == c2 || is_ancestor(nodes, c2, i)));
            assert(is_ancestor(nodes, c2, i));
            lemma_ancestor_before(nodes, c2, i);
        }
    }
}

/// The depth-first listing from child position `k` on lists no node twice,
/// and only nodes after `i`.
proof fn lemma_dfs_from_distinct(nodes: Seq<FolderNode>, i: int, k: int)
    requires
        tree_wf(nodes),
        nodes.len() <= usize::MAX,
        0 <= i < nodes.len(),
        0 <= k,
    ensures
        dfs_from(nodes, i, k).no_duplicates(),
        forall|m: int| 0 <= m < dfs_from(nodes, i, k).len() ==> i < #[trigger] dfs_from(nodes, i, k)[m],
    decreases nodes.len() - i, nodes[i].children@.len() - k,
{
    if k < nodes[i].children@.len() {
        let c = nodes[i].children@[k] as int;
        assert(i < c < nodes.len());
        lemma_dfs_from_distinct(nodes, i, k + 1);
        lemma_dfs_from_distinct(nodes, c, 0);
        let sub = dfs_from(nodes, c, 0);
        let rest = dfs_from(nodes, i, k + 1);
        assert(dfs_from(nodes, i, k) == seq![c as usize] + sub + rest);
        assert forall|m: int| 0 <= m < rest.len() implies (#[trigger] rest[m]) as int != c && !sub.contains(
            rest[m],
        ) by {
            let x = rest[m];
            assert(rest.contains(x));
            lemma_dfs_from_members(nodes, i, k + 1, x);
            let k2 = choose|k2: int|
                k + 1 <= k2 < nodes[i].children@.len() && #[trigger] in_subtree(
                    nodes,
                    nodes[i].children@[k2] as int,
                    x as int,
                );
            let c2 = nodes[i].children@[k2] as int;
            assert(c < c2);
            if x as int != c2 {
                lemma_ancestor_before(nodes, c2, x as int);
            }
            if sub.contains(x) {
                lemma_dfs_seq_members(nodes, c, x);
                lemma_sibling_subtrees_disjoint(nodes, i, c, c2, x as int);
            }
        }
        assert(seq![c as usize].no_duplicates());
        vstd::seq_lib::lemma_no_dup_in_concat(seq![c as usize], sub);
        let head = seq![c as usize] + sub;
        assert forall|a: int, b: int| 0 <= a < head.len() && 0 <= b < rest.len() implies head[a]
            != rest[b] by {
            if a > 0 {
                assert(head[a] == sub[a - 1]);
                assert(sub.contains(head[a]));
            }
        }
        vstd::seq_lib::lemma_no_dup_in_concat(head, rest);
        assert forall|m: int| 0 <= m < dfs_from(nodes, i, k).len() implies i < #[trigger] dfs_from(
            nodes,
            i,
            k,
        )[m] by {
            if 1 <= m < 1 + sub.len() {
                assert(dfs_from(nodes, i, k)[m] == sub[m - 1]);
            } else if m >= 1 + sub.len() {
                assert(dfs_from(nodes, i, k)[m] == rest[m - 1 - sub.len()]);
            }
        }
    }
}

/// Listing the descendants of a node lists each of them exactly once, and
/// never the node itself.
pub proof fn lemma_descendants_once(nodes: Seq<FolderNode>, i: int)
    requires
        tree_wf(nodes),
        nodes.len() <= usize::MAX,
        0 <= i < nodes.len(),
    ensures
        dfs_seq(nodes, i).no_duplicates(),
        !dfs_seq(nodes, i).contains(i as usize),
        forall|x: usize| #[trigger] dfs_seq(nodes, i).contains(x) <==> is_ancestor(nodes, i, x as int),
{
    lemma_dfs_from_distinct(nodes, i, 0);
    assert forall|x: usize| #[trigger] dfs_seq(nodes, i).contains(x) <==> is_ancestor(nodes, i, x as int) by {
        lemma_dfs_seq_members(nodes, i, x);
    }
}

} // verus!

verus! {

/// `n` with its selection flag set to `v`.
pub open spec fn with_selected(n: FolderNode, v: bool) -> FolderNode {
    FolderNode { selected: v, ..n }
}

/// Some-but-not-all selectable descendants of `idx` are selected.
pub open spec fn indeterminate_spec(nodes: Seq<FolderNode>, idx: int) -> bool {
    &&& exists|j: int| #[trigger] is_ancestor(nodes, idx, j) && !nodes[j].no_select && nodes[j].selected
    &&& exists|j: int| #[trigger] is_ancestor(nodes, idx, j) && !nodes[j].no_select && !nodes[j].selected
}

/// The node counts towards the selection: selected and selectable.
pub open spec fn counts_as_selected(n: FolderNode) -> bool {
    n.selected && !n.no_select
}

/// Number of selected, selectable nodes.
pub open spec fn selected_count_spec(nodes: Seq<FolderNode>) -> nat
    decreases nodes.len(),
{
    if nodes.len() == 0 {
        0
    } else {
        selected_count_spec(nodes.drop_last()) + if counts_as_selected(nodes.last()) { 1nat } else { 0nat }
    }
}

/// The create payload entry of a node.
pub open spec fn payload_entry(n: FolderNode) -> NewFolderDto {
    NewFolderDto { path: n.path, special_use: n.special_use, no_select: false }
}

/// The selected, selectable folders as the create payload, in tree order.
pub open spec fn payload_spec(nodes: Seq<FolderNode>) -> Seq<NewFolderDto>
    decreases nodes.len(),
{
    if nodes.len() == 0 {
        Seq::empty()
    } else if counts_as_selected(nodes.last()) {
        payload_spec(nodes.drop_last()).push(payload_entry(nodes.last()))
    } else {
        payload_spec(nodes.drop_last())
    }
}

/// The node carries the `inbox` special use.
pub open spec fn has_inbox_special_use(n: FolderNode) -> bool {
    n.special_use matches Some(s) && s@ == "inbox"@
}

/// The node's name is `INBOX`, ignoring ASCII case.
pub open spec fn has_inbox_name(n: FolderNode) -> bool {
    eq_ignore_ascii_case(n.name@, "INBOX"@)
}

/// First position at or after `i` whose node carries the `inbox` special use.
pub open spec fn first_inbox_use_from(nodes: Seq<FolderNode>, i: int) -> Option<int>
    decreases nodes.len() - i,
{
    if i < 0 || i >= nodes.len() {
        None
    } else if has_inbox_special_use(nodes[i]) {
        Some(i)
    } else {
        first_inbox_use_from(nodes, i + 1)
    }
}

/// First position at or after `i` whose node is named `INBOX`.
pub open spec fn first_inbox_name_from(nodes: Seq<FolderNode>, i: int) -> Option<int>
    decreases nodes.len() - i,
{
    if i < 0 || i >= nodes.len() {
        None
    } else if has_inbox_name(nodes[i]) {
        Some(i)
    } else {
        first_inbox_name_from(nodes, i + 1)
    }
}

/// The node the default selection picks: the first with the `inbox` special
/// use, else the first named `INBOX`.
pub open spec fn default_inbox_target(nodes: Seq<FolderNode>) -> Option<int> {
    match first_inbox_use_from(nodes, 0) {
        Some(i) => Some(i),
        None => first_inbox_name_from(nodes, 0),
    }
}

impl FolderTree {
    /// Well-formed: parent and children links agree (see [`tree_wf`]).
    pub open spec fn wf(&self) -> bool {
        tree_wf(self.nodes@)
    }

    /// Appends the descendants of `idx` to `out`, depth-first, parents before
    /// their children.
    pub fn descendants(&self, idx: usize, out: &mut Vec<usize>)
        requires
            self.wf(),
            idx < self.nodes.len(),
        ensures
            final(out)@ == old(out)@ + dfs_seq(self.nodes@, idx as int),
        decreases self.nodes.len() - idx,
    {
        let ghost nodes = self.nodes@;
        let mut k: usize = 0;
        while k < self.nodes[idx].children.len()
            invariant
                self.wf(),
                nodes == self.nodes@,
                idx < self.nodes.len(),
                k <= self.nodes[idx as int].children@.len(),
                out@ + dfs_from(nodes, idx as int, k as int) == old(out)@ + dfs_from(nodes, idx as int, 0),
            decreases self.nodes[idx as int].children@.len() - k,
        {
            let c = self.nodes[idx].children[k];
            assert(idx < c < self.nodes.len());
            let ghost before = out@;
            out.push(c);
            self.descendants(c, out);
            assert(dfs_from(nodes, idx as int, k as int) == seq![c] + dfs_from(nodes, c as int, 0)
                + dfs_from(nodes, idx as int, k + 1));
            assert(out@ + dfs_from(nodes, idx as int, k + 1) =~= before + dfs_from(nodes, idx as int, k as int));
            k = k + 1;
        }
        assert(out@ + dfs_from(nodes, idx as int, k as int) =~= out@);
    }

    /// Set a node and all its descendants to `value`.
    #[verifier::rlimit(40)]
    #[verifier::spinoff_prover]
    pub fn set_subtree(&mut self, idx: usize, value: bool)
        requires
            old(self).wf(),
            idx < old(self).nodes.len(),
        ensures
            final(self).wf(),
            final(self).nodes@.len() == old(self).nodes@.len(),
            forall|j: int| 0 <= j < old(self).nodes@.len() ==> #[trigger] final(self).nodes@[j]
                == with_selected(
                    old(self).nodes@[j],
                    if in_subtree(old(self).nodes@, idx as int, j) { value } else { old(self).nodes@[j].selected },
                ),
    {
        let ghost nodes = self.nodes@;
        assert(nodes.len() <= usize::MAX);
        let mut ds: Vec<usize> = Vec::new();
        self.descendants(idx, &mut ds);
        assert(ds@ == dfs_seq(nodes, idx as int));
        self.nodes[idx].selected = value;
        let mut t: usize = 0;
        while t < ds.len()
            invariant
                tree_wf(nodes),
                nodes.len() <= usize::MAX,
                idx < nodes.len(),
                ds@ == dfs_seq(nodes, idx as int),
                self.nodes@.len() == nodes.len(),
                t <= ds.len(),
                forall|j: int| 0 <= j < nodes.len() ==> #[trigger] self.nodes@[j] == with_selected(
                    nodes[j],
                    if j == idx as int || ds@.take(t as int).contains(j as usize) { value } else { nodes[j].selected },
                ),
            decreases ds.len() - t,
        {
            let d = ds[t];
            proof {
                assert(ds@.contains(d));
                lemma_dfs_seq_members(nodes, idx as int, d);
            }
            let ghost prev = self.nodes@;
            self.nodes[d].selected = value;
            proof {
                assert forall|j: int| 0 <= j < nodes.len() implies #[trigger] self.nodes@[j] == with_selected(
                    nodes[j],
                    if j == idx as int || ds@.take(t + 1).contains(j as usize) { value } else { nodes[j].selected },
                ) by {
                    assert(ds@.take(t + 1) == ds@.take(t as int).push(d));
                    if j != d as int {
                        assert(self.nodes@[j] == prev[j]);
                    }
                    if j == d as int {
                        assert(ds@.take(t + 1)[t as int] == d);
                    }
                }
            }
            t = t + 1;
        }
        proof {
            assert(ds@.take(ds.len() as int) == ds@);
            assert forall|j: int| 0 <= j < nodes.len() implies #[trigger] self.nodes@[j] == with_selected(
                nodes[j],
                if in_subtree(nodes, idx as int, j) { value } else { nodes[j].selected },
            ) by {
                lemma_dfs_seq_members(nodes, idx as int, j as usize);
            }
            assert(tree_wf(self.nodes@)) by {
                assert forall|i: int| 0 <= i < self.nodes@.len() implies self.nodes@[i].parent == nodes[i].parent
                    && self.nodes@[i].children == nodes[i].children by {
                    assert(self.nodes@[i] == with_selected(nodes[i], self.nodes@[i].selected));
                }
            }
        }
    }

    /// Indeterminate iff some-but-not-all selectable descendants are selected.
    pub fn is_indeterminate(&self, idx: usize) -> (r: bool)
        requires
            self.wf(),
            idx < self.nodes.len(),
        ensures
            r == indeterminate_spec(self.nodes@, idx as int),
    {
        let ghost nodes = self.nodes@;
        let mut ds: Vec<usize> = Vec::new();
        self.descendants(idx, &mut ds);
        let mut selectable: usize = 0;
        let mut sel: usize = 0;
        let mut t: usize = 0;
        while t < ds.len()
            invariant
                nodes == self.nodes@,
                tree_wf(nodes),
                nodes.len() <= usize::MAX,
                idx < nodes.len(),
                ds@ == dfs_seq(nodes, idx as int),
                t <= ds.len(),
                sel <= selectable <= t,
                (sel > 0) == exists|m: int| 0 <= m < t && #[trigger] nodes[ds@[m] as int].selected
                    && !nodes[ds@[m] as int].no_select,
                (sel < selectable) == exists|m: int| 0 <= m < t && !#[trigger] nodes[ds@[m] as int].selected
                    && !nodes[ds@[m] as int].no_select,
            decreases ds.len() - t,
        {
            let d = ds[t];
            proof {
                assert(ds@.contains(d));
                lemma_dfs_seq_members(nodes, idx as int, d);
            }
            if !self.nodes[d].no_select {
                selectable = selectable + 1;
                if self.nodes[d].selected {
                    sel = sel + 1;
                }
            }
            t = t + 1;
        }
        proof {
            if sel > 0 {
                let m = choose|m: int| 0 <= m < t && #[trigger] nodes[ds@[m] as int].selected
                    && !nodes[ds@[m] as int].no_select;
                assert(ds@.contains(ds@[m]));
                lemma_dfs_seq_members(nodes, idx as int, ds@[m]);
                assert(is_ancestor(nodes, idx as int, ds@[m] as int));
            }
            if sel < selectable {
                let m = choose|m: int| 0 <= m < t && !#[trigger] nodes[ds@[m] as int].selected
                    && !nodes[ds@[m] as int].no_select;
                assert(ds@.contains(ds@[m]));
                lemma_dfs_seq_members(nodes, idx as int, ds@[m]);
                assert(is_ancestor(nodes, idx as int, ds@[m] as int));
            }
            if exists|j: int| #[trigger] is_ancestor(nodes, idx as int, j) && !nodes[j].no_select && nodes[j].selected {
                let j = choose|j: int| #[trigger] is_ancestor(nodes, idx as int, j) && !nodes[j].no_select && nodes[j].selected;
                lemma_dfs_seq_members(nodes, idx as int, j as usize);
                let m = choose|m: int| 0 <= m < ds@.len() && ds@[m] == j as usize;
                assert(nodes[ds@[m] as int].selected);
            }
            if exists|j: int| #[trigger] is_ancestor(nodes, idx as int, j) && !nodes[j].no_select && !nodes[j].selected {
                let j = choose|j: int| #[trigger] is_ancestor(nodes, idx as int, j) && !nodes[j].no_select && !nodes[j].selected;
                lemma_dfs_seq_members(nodes, idx as int, j as usize);
                let m = choose|m: int| 0 <= m < ds@.len() && ds@[m] == j as usize;
                assert(!nodes[ds@[m] as int].selected);
            }
        }
        if selectable == 0 {
            return false;
        }
        sel > 0 && sel < selectable
    }

    /// Selects (or clears) every node.
    pub fn select_all(&mut self, value: bool)
        requires
            old(self).wf(),
        ensures
            final(self).wf(),
            final(self).nodes@.len() == old(self).nodes@.len(),
            forall|j: int| 0 <= j < old(self).nodes@.len() ==> #[trigger] final(self).nodes@[j]
                == with_selected(old(self).nodes@[j], value),
    {
        let ghost nodes = self.nodes@;
        let mut i: usize = 0;
        while i < self.nodes.len()
            invariant
                self.nodes@.len() == nodes.len(),
                i <= nodes.len(),
                forall|j: int| 0 <= j < nodes.len() ==> #[trigger] self.nodes@[j] == with_selected(
                    nodes[j],
                    if j < i { value } else { nodes[j].selected },
                ),
            decreases nodes.len() - i,
        {
            self.nodes[i].selected = value;
            i = i + 1;
        }
        proof {
            assert forall|k: int| 0 <= k < self.nodes@.len() implies self.nodes@[k].parent == nodes[k].parent
                && self.nodes@[k].children == nodes[k].children by {
                assert(self.nodes@[k] == with_selected(nodes[k], value));
            }
        }
    }

    /// Default-select the inbox: the first folder with the `inbox` special
    /// use, else the first named `INBOX` (ASCII case-insensitive).
    pub fn default_select_inbox(&mut self)
        requires
            old(self).wf(),
        ensures
            final(self).wf(),
            match default_inbox_target(old(self).nodes@) {
                Some(i) => final(self).nodes@ == old(self).nodes@.update(i, with_selected(old(self).nodes@[i], true)),
                None => final(self).nodes@ == old(self).nodes@,
            },
    {
        let ghost nodes = self.nodes@;
        let mut i: usize = 0;
        while i < self.nodes.len()
            invariant
                nodes == self.nodes@,
                nodes == old(self).nodes@,
                tree_wf(nodes),
                i <= nodes.len(),
                first_inbox_use_from(nodes, 0) == first_inbox_use_from(nodes, i as int),
            decreases nodes.len() - i,
        {
            let is_inbox = match &self.nodes[i].special_use {
                Some(s) => str_eq(s.as_str(), "inbox"),
                None => false,
            };
            assert(is_inbox == has_inbox_special_use(nodes[i as int]));
            if is_inbox {
                assert(has_inbox_special_use(nodes[i as int]));
                assert(first_inbox_use_from(nodes, i as int) == Some(i as int));
                assert(default_inbox_target(nodes) == Some(i as int));
                self.nodes[i].selected = true;
                assert(self.nodes@ =~= nodes.update(i as int, with_selected(nodes[i as int], true)));
                assert(tree_wf(self.nodes@)) by {
                    assert forall|k: int| 0 <= k < self.nodes@.len() implies self.nodes@[k].parent == nodes[k].parent
                        && self.nodes@[k].children == nodes[k].children by {}
                }
                return;
            }
            i = i + 1;
        }
        let mut i: usize = 0;
        while i < self.nodes.len()
            invariant
                nodes == self.nodes@,
                nodes == old(self).nodes@,
                tree_wf(nodes),
                i <= nodes.len(),
                first_inbox_use_from(nodes, 0) is None,
                first_inbox_name_from(nodes, 0) == first_inbox_name_from(nodes, i as int),
            decreases nodes.len() - i,
        {
            if str_eq_ignore_ascii_case(self.nodes[i].name.as_str(), "INBOX") {
                assert(has_inbox_name(nodes[i as int]));
                assert(first_inbox_name_from(nodes, i as int) == Some(i as int));
                assert(default_inbox_target(nodes) == Some(i as int));
                self.nodes[i].selected = true;
                assert(self.nodes@ =~= nodes.update(i as int, with_selected(nodes[i as int], true)));
                assert(tree_wf(self.nodes@)) by {
                    assert forall|k: int| 0 <= k < self.nodes@.len() implies self.nodes@[k].parent == nodes[k].parent
                        && self.nodes@[k].children == nodes[k].children by {}
                }
                return;
            }
            i = i + 1;
        }
    }

    /// Number of selected, selectable folders.
    pub fn selected_count(&self) -> (r: usize)
        ensures
            r == selected_count_spec(self.nodes@),
    {
        let mut count: usize = 0;
        let mut i: usize = 0;
        while i < self.nodes.len()
            invariant
                i <= self.nodes.len(),
                count == selected_count_spec(self.nodes@.take(i as int)),
                count <= i,
            decreases self.nodes.len() - i,
        {
            assert(self.nodes@.take(i + 1).drop_last() == self.nodes@.take(i as int));
            if self.nodes[i].selected && !self.nodes[i].no_select {
                count = count + 1;
            }
            i = i + 1;
        }
        assert(self.nodes@.take(i as int) == self.nodes@);
        count
    }

    /// The selected, selectable folders as the create payload; containers
    /// that cannot be selected are left out.
    pub fn selected_new_folders(&self) -> (r: Vec<NewFolderDto>)
        ensures
            r@ == payload_spec(self.nodes@),
            r@.len() == selected_count_spec(self.nodes@),
            forall|i: int|
                0 <= i < self.nodes@.len() && self.nodes@[i].selected && !self.nodes@[i].no_select ==> {
                    let e = #[trigger] r@[selected_count_spec(self.nodes@.take(i)) as int];
                    &&& selected_count_spec(self.nodes@.take(i)) < r@.len()
                    &&& e.path@ == self.nodes@[i].path@
                    &&& opt_chars(e.special_use) == opt_chars(self.nodes@[i].special_use)
                    &&& !e.no_select
                },
    {
        proof {
            lemma_payload_entries(self.nodes@);
        }
        let mut out: Vec<NewFolderDto> = Vec::new();
        let mut i: usize = 0;
        while i < self.nodes.len()
            invariant
                i <= self.nodes.len(),
                out@ == payload_spec(self.nodes@.take(i as int)),
            decreases self.nodes.len() - i,
        {
            assert(self.nodes@.take(i + 1).drop_last() == self.nodes@.take(i as int));
            let n = &self.nodes[i];
            if n.selected && !n.no_select {
                out.push(NewFolderDto {
                    path: n.path.clone(),
                    special_use: clone_opt_string(&n.special_use),
                    no_select: false,
                });
            }
            i = i + 1;
        }
        assert(self.nodes@.take(i as int) == self.nodes@);
        out
    }
}

} // verus!

verus! {

/// The folder's hierarchy delimiter (`/` when the server gave none).
pub open spec fn delimiter_of(f: RemoteFolderDto) -> Seq<char> {
    match f.delimiter {
        Some(d) => d@,
        None => "/"@,
    }
}

/// The folder's path split on its delimiter.
pub open spec fn segments_of(f: RemoteFolderDto) -> Seq<Seq<char>> {
    path_segments(f.path@, delimiter_of(f))
}

/// Number of path segments: the sort key of [`FolderTree::build`].
pub open spec fn seg_count(f: RemoteFolderDto) -> nat {
    segments_of(f).len()
}

/// The path of the folder's parent: all but the last segment, re-joined.
pub open spec fn parent_path_of(f: RemoteFolderDto) -> Seq<char> {
    join_segments(segments_of(f).drop_last(), delimiter_of(f))
}

/// Positions `j < i` of folders with exactly `l` segments, ascending.
pub open spec fn positions_with_count(folders: Seq<RemoteFolderDto>, l: nat, i: nat) -> Seq<usize>
    decreases i,
{
    if i == 0 {
        Seq::empty()
    } else {
        let prev = positions_with_count(folders, l, (i - 1) as nat);
        if seg_count(folders[i - 1]) == l {
            prev.push((i - 1) as usize)
        } else {
            prev
        }
    }
}

/// The folders with fewer than `l` segments: by segment count, then by input
/// position.
pub open spec fn level_order(folders: Seq<RemoteFolderDto>, l: nat) -> Seq<usize>
    decreases l,
{
    if l == 0 {
        Seq::empty()
    } else {
        level_order(folders, (l - 1) as nat) + positions_with_count(folders, (l - 1) as nat, folders.len())
    }
}

/// Largest segment count among the first `i` folders.
pub open spec fn max_seg_count(folders: Seq<RemoteFolderDto>, i: nat) -> nat
    decreases i,
{
    if i == 0 {
        0
    } else {
        let m = max_seg_count(folders, (i - 1) as nat);
        if seg_count(folders[i - 1]) > m { seg_count(folders[i - 1]) } else { m }
    }
}

/// Node order of the built tree: input positions sorted stably by segment
/// count, so every parent precedes its children.
pub open spec fn build_order(folders: Seq<RemoteFolderDto>) -> Seq<usize> {
    level_order(folders, max_seg_count(folders, folders.len()) + 1)
}

/// The last of the first `m` nodes (in `order`) whose path is `target`.
pub open spec fn last_path_match(
    folders: Seq<RemoteFolderDto>,
    order: Seq<usize>,
    target: Seq<char>,
    m: int,
) -> Option<int>
    decreases m,
{
    if m <= 0 {
        None
    } else if folders[order[m - 1] as int].path@ == target {
        Some(m - 1)
    } else {
        last_path_match(folders, order, target, m - 1)
    }
}

/// Parent of node `k`: the latest earlier node whose path is the parent
/// path; roots have a single segment or no such node.
pub open spec fn expected_parent(folders: Seq<RemoteFolderDto>, order: Seq<usize>, k: int) -> Option<usize> {
    let f = folders[order[k] as int];
    if seg_count(f) > 1 {
        match last_path_match(folders, order, parent_path_of(f), k) {
            Some(p) => Some(p as usize),
            None => None,
        }
    } else {
        None
    }
}

/// Node `k` of a built tree carries the data of folder `f`.
pub open spec fn node_from_folder(n: FolderNode, f: RemoteFolderDto) -> bool {
    &&& n.path == f.path
    &&& n.name@ == segments_of(f).last()
    &&& n.special_use == f.special_use
    &&& n.no_select == f.no_select
    &&& n.depth == seg_count(f) - 1
    &&& !n.selected
}

/// Children of node `k` among the first `m` nodes: ascending, and exactly
/// the nodes whose expected parent is `k`.
pub open spec fn children_ok(
    folders: Seq<RemoteFolderDto>,
    order: Seq<usize>,
    children: Seq<usize>,
    k: int,
    m: int,
) -> bool {
    &&& forall|a: int, b: int| 0 <= a < b < children.len() ==> children[a] < children[b]
    &&& forall|c: usize| children.contains(c) <==> (c < m && expected_parent(folders, order, c as int) == Some(k as usize))
}

pub proof fn lemma_last_path_match_bounds(
    folders: Seq<RemoteFolderDto>,
    order: Seq<usize>,
    target: Seq<char>,
    m: int,
)
    ensures
        last_path_match(folders, order, target, m) matches Some(p) ==> 0 <= p < m,
    decreases m,
{
    if m > 0 && folders[order[m - 1] as int].path@ != target {
        lemma_last_path_match_bounds(folders, order, target, m - 1);
    }
}

} // verus!

verus! {

/// The last of the first `k` node paths equal to `target`.
fn find_last_path(
    node_paths: &Vec<Vec<char>>,
    target: &Vec<char>,
    k: usize,
    Ghost(fs): Ghost<Seq<RemoteFolderDto>>,
    Ghost(ord): Ghost<Seq<usize>>,
) -> (r: Option<usize>)
    requires
        k <= node_paths.len(),
        k <= ord.len(),
        forall|j: int| 0 <= j < k ==> #[trigger] node_paths@[j]@ == fs[ord[j] as int].path@,
    ensures
        match last_path_match(fs, ord, target@, k as int) {
            Some(p) => r == Some(p as usize),
            None => r is None,
        },
{
    let mut m: usize = k;
    while m > 0
        invariant
            m <= k,
            k <= node_paths.len(),
            forall|j: int| 0 <= j < k ==> #[trigger] node_paths@[j]@ == fs[ord[j] as int].path@,
            last_path_match(fs, ord, target@, k as int) == last_path_match(fs, ord, target@, m as int),
        decreases m,
    {
        if chars_eq(&node_paths[m - 1], target) {
            assert(node_paths@[m - 1]@ == fs[ord[m - 1] as int].path@);
            return Some(m - 1);
        }
        m = m - 1;
    }
    None
}

pub proof fn lemma_positions_bounds(folders: Seq<RemoteFolderDto>, l: nat, i: nat)
    requires
        i <= folders.len() <= usize::MAX,
    ensures
        forall|q: int| 0 <= q < positions_with_count(folders, l, i).len() ==> #[trigger] positions_with_count(folders, l, i)[q] < i,
    decreases i,
{
    if i > 0 {
        lemma_positions_bounds(folders, l, (i - 1) as nat);
        let prev = positions_with_count(folders, l, (i - 1) as nat);
        if seg_count(folders[i - 1]) == l {
            assert forall|q: int| 0 <= q < prev.push((i - 1) as usize).len() implies #[trigger] prev.push((i - 1) as usize)[q] < i by {
                if q < prev.len() {
                    assert(prev.push((i - 1) as usize)[q] == prev[q]);
                }
            }
        }
    }
}

pub proof fn lemma_level_order_bounds(folders: Seq<RemoteFolderDto>, l: nat)
    requires
        folders.len() <= usize::MAX,
    ensures
        forall|q: int| 0 <= q < level_order(folders, l).len() ==> #[trigger] level_order(folders, l)[q] < folders.len(),
    decreases l,
{
    if l > 0 {
        lemma_level_order_bounds(folders, (l - 1) as nat);
        lemma_positions_bounds(folders, (l - 1) as nat, folders.len());
        let a = level_order(folders, (l - 1) as nat);
        let b = positions_with_count(folders, (l - 1) as nat, folders.len());
        assert forall|q: int| 0 <= q < (a + b).len() implies #[trigger] (a + b)[q] < folders.len() by {
            if q >= a.len() {
                assert((a + b)[q] == b[q - a.len()]);
            }
        }
    }
}

/// Number of the first `i` folders with fewer than `l` segments.
pub open spec fn count_below(folders: Seq<RemoteFolderDto>, l: nat, i: nat) -> nat
    decreases i,
{
    if i == 0 {
        0
    } else {
        count_below(folders, l, (i - 1) as nat) + if seg_count(folders[i - 1]) < l { 1nat } else { 0nat }
    }
}

proof fn lemma_count_below_step(folders: Seq<RemoteFolderDto>, l: nat, i: nat)
    ensures
        count_below(folders, l + 1, i) == count_below(folders, l, i) + positions_with_count(folders, l, i).len(),
    decreases i,
{
    if i > 0 {
        lemma_count_below_step(folders, l, (i - 1) as nat);
    }
}

proof fn lemma_level_order_len(folders: Seq<RemoteFolderDto>, l: nat)
    ensures
        level_order(folders, l).len() == count_below(folders, l, folders.len()),
    decreases l,
{
    if l == 0 {
        lemma_count_below_zero(folders, folders.len());
    } else {
        lemma_level_order_len(folders, (l - 1) as nat);
        lemma_count_below_step(folders, (l - 1) as nat, folders.len());
    }
}

proof fn lemma_count_below_zero(folders: Seq<RemoteFolderDto>, i: nat)
    ensures
        count_below(folders, 0, i) == 0,
    decreases i,
{
    if i > 0 {
        lemma_count_below_zero(folders, (i - 1) as nat);
    }
}

proof fn lemma_count_below_all(folders: Seq<RemoteFolderDto>, i: nat)
    requires
        i <= folders.len(),
    ensures
        count_below(folders, max_seg_count(folders, i) + 1, i) == i,
        forall|j: int| 0 <= j < i ==> seg_count(#[trigger] folders[j]) <= max_seg_count(folders, i),
    decreases i,
{
    if i > 0 {
        lemma_count_below_all(folders, (i - 1) as nat);
        lemma_count_below_mono(folders, max_seg_count(folders, (i - 1) as nat) + 1, max_seg_count(folders, i) + 1, (i - 1) as nat);
    }
}

proof fn lemma_count_below_mono(folders: Seq<RemoteFolderDto>, l1: nat, l2: nat, i: nat)
    requires
        l1 <= l2,
        i <= folders.len(),
        count_below(folders, l1, i) == i,
    ensures
        count_below(folders, l2, i) == i,
    decreases i,
{
    if i > 0 {
        if count_below(folders, l1, (i - 1) as nat) == (i - 1) as nat {
            lemma_count_below_mono(folders, l1, l2, (i - 1) as nat);
        } else {
            lemma_count_below_le(folders, l1, (i - 1) as nat);
        }
    }
}

proof fn lemma_count_below_le(folders: Seq<RemoteFolderDto>, l: nat, i: nat)
    ensures
        count_below(folders, l, i) <= i,
    decreases i,
{
    if i > 0 {
        lemma_count_below_le(folders, l, (i - 1) as nat);
    }
}

/// Building keeps every folder: the tree has one node per input folder.
pub proof fn lemma_build_order_len(folders: Seq<RemoteFolderDto>)
    ensures
        build_order(folders).len() == folders.len(),
{
    lemma_level_order_len(folders, max_seg_count(folders, folders.len()) + 1);
    lemma_count_below_all(folders, folders.len());
}

/// `a` comes before `b` in build order: fewer segments, or as many and an
/// earlier input position.
pub open spec fn order_before(folders: Seq<RemoteFolderDto>, a: usize, b: usize) -> bool {
    ||| seg_count(folders[a as int]) < seg_count(folders[b as int])
    ||| (seg_count(folders[a as int]) == seg_count(folders[b as int]) && a < b)
}

proof fn lemma_positions_sorted(folders: Seq<RemoteFolderDto>, l: nat, i: nat)
    requires
        i <= folders.len() <= usize::MAX,
    ensures
        forall|q: int| 0 <= q < positions_with_count(folders, l, i).len() ==> {
            let x = #[trigger] positions_with_count(folders, l, i)[q];
            x < i && seg_count(folders[x as int]) == l
        },
        forall|a: int, b: int| 0 <= a < b < positions_with_count(folders, l, i).len() ==> positions_with_count(folders, l, i)[a]
            < positions_with_count(folders, l, i)[b],
        forall|x: int| 0 <= x < i && seg_count(folders[x]) == l ==> #[trigger] positions_with_count(folders, l, i).contains(
            x as usize,
        ),
    decreases i,
{
    if i > 0 {
        lemma_positions_sorted(folders, l, (i - 1) as nat);
        let prev = positions_with_count(folders, l, (i - 1) as nat);
        let cur = positions_with_count(folders, l, i);
        if seg_count(folders[i - 1]) == l {
            assert(cur == prev.push((i - 1) as usize));
            assert forall|q: int| 0 <= q < prev.len() implies cur[q] == prev[q] by {}
            assert(cur[prev.len() as int] == (i - 1) as usize);
            assert forall|x: int| 0 <= x < i && seg_count(folders[x]) == l implies #[trigger] cur.contains(
                x as usize,
            ) by {
                if x < i - 1 {
                    assert(prev.contains(x as usize));
                    let q = choose|q: int| 0 <= q < prev.len() && prev[q] == x as usize;
                    assert(cur[q] == x as usize);
                } else {
                    assert(cur[prev.len() as int] == x as usize);
                }
            }
        }
    }
}

proof fn lemma_level_order_sorted(folders: Seq<RemoteFolderDto>, l: nat)
    requires
        folders.len() <= usize::MAX,
    ensures
        forall|q: int| 0 <= q < level_order(folders, l).len() ==> {
            let x = #[trigger] level_order(folders, l)[q];
            x < folders.len() && seg_count(folders[x as int]) < l
        },
        forall|a: int, b: int| 0 <= a < b < level_order(folders, l).len() ==> order_before(
            folders,
            level_order(folders, l)[a],
            level_order(folders, l)[b],
        ),
        forall|x: int| 0 <= x < folders.len() && seg_count(folders[x]) < l ==> #[trigger] level_order(folders, l).contains(
            x as usize,
        ),
    decreases l,
{
    if l > 0 {
        let lo = level_order(folders, (l - 1) as nat);
        let ps = positions_with_count(folders, (l - 1) as nat, folders.len());
        lemma_level_order_sorted(folders, (l - 1) as nat);
        lemma_positions_sorted(folders, (l - 1) as nat, folders.len());
        let all = level_order(folders, l);
        assert(all == lo + ps);
        assert forall|q: int| 0 <= q < all.len() implies {
            let x = #[trigger] all[q];
            x < folders.len() && seg_count(folders[x as int]) < l
        } by {
            if q >= lo.len() {
                assert(all[q] == ps[q - lo.len()]);
            } else {
                assert(all[q] == lo[q]);
            }
        }
        assert forall|a: int, b: int| 0 <= a < b < all.len() implies order_before(folders, all[a], all[b]) by {
            if b < lo.len() {
                assert(all[a] == lo[a] && all[b] == lo[b]);
            } else if a >= lo.len() {
                assert(all[a] == ps[a - lo.len()] && all[b] == ps[b - lo.len()]);
                assert(ps[a - lo.len()] < ps[b - lo.len()]);
            } else {
                assert(all[a] == lo[a] && all[b] == ps[b - lo.len()]);
                let xa = lo[a];
                let xb = ps[b - lo.len()];
                assert(seg_count(folders[xa as int]) < l - 1);
                assert(seg_count(folders[xb as int]) == l - 1);
            }
        }
        assert forall|x: int| 0 <= x < folders.len() && seg_count(folders[x]) < l implies #[trigger] all.contains(
            x as usize,
        ) by {
            if seg_count(folders[x]) < l - 1 {
                assert(lo.contains(x as usize));
                let q = choose|q: int| 0 <= q < lo.len() && lo[q] == x as usize;
                assert(all[q] == x as usize);
            } else {
                assert(ps.contains(x as usize));
                let q = choose|q: int| 0 <= q < ps.len() && ps[q] == x as usize;
                assert(all[lo.len() + q] == x as usize);
            }
        }
    }
}

proof fn lemma_max_seg_count_bounds(folders: Seq<RemoteFolderDto>, i: nat)
    requires
        i <= folders.len(),
    ensures
        forall|x: int| 0 <= x < i ==> seg_count(#[trigger] folders[x]) <= max_seg_count(folders, i),
    decreases i,
{
    if i > 0 {
        lemma_max_seg_count_bounds(folders, (i - 1) as nat);
    }
}

/// Building orders the folders by a permutation of their input positions:
/// each position occurs exactly once, by segment count and then by input
/// position.
pub proof fn lemma_build_order_permutation(folders: Seq<RemoteFolderDto>)
    requires
        folders.len() <= usize::MAX,
    ensures
        build_order(folders).len() == folders.len(),
        build_order(folders).no_duplicates(),
        forall|x: int| 0 <= x < folders.len() ==> #[trigger] build_order(folders).contains(x as usize),
        forall|q: int| 0 <= q < build_order(folders).len() ==> #[trigger] build_order(folders)[q] < folders.len(),
        forall|a: int, b: int| 0 <= a < b < build_order(folders).len() ==> order_before(
            folders,
            build_order(folders)[a],
            build_order(folders)[b],
        ),
{
    let top = max_seg_count(folders, folders.len()) + 1;
    lemma_build_order_len(folders);
    lemma_level_order_sorted(folders, top);
    lemma_max_seg_count_bounds(folders, folders.len());
    let o = build_order(folders);
    assert forall|a: int, b: int| 0 <= a < o.len() && 0 <= b < o.len() && a != b implies o[a] != o[b] by {
        if a < b {
            assert(order_before(folders, o[a], o[b]));
        } else {
            assert(order_before(folders, o[b], o[a]));
        }
    }
    assert forall|x: int| 0 <= x < folders.len() implies #[trigger] o.contains(x as usize) by {
        assert(seg_count(folders[x]) <= max_seg_count(folders, folders.len()));
    }
}

impl FolderTree {
    /// Builds a parent-before-child ordered tree. Parent linkage is derived
    /// from the path prefix using each entry's delimiter (falling back to
    /// `"/"`). Folders whose parent is not in the list become roots.
    pub fn build(folders: Vec<RemoteFolderDto>) -> (t: FolderTree)
        ensures
            t.wf(),
            t.nodes@.len() == folders@.len(),
            t.nodes@.len() == build_order(folders@).len(),
            forall|k: int| 0 <= k < t.nodes@.len() ==> {
                let order = build_order(folders@);
                &&& 0 <= order[k] < folders@.len()
                &&& node_from_folder(#[trigger] t.nodes@[k], folders@[order[k] as int])
                &&& t.nodes@[k].parent == expected_parent(folders@, order, k)
                &&& children_ok(folders@, order, t.nodes@[k].children@, k, t.nodes@.len() as int)
            },
    {
        let n = folders.len();
        let ghost fs = folders@;
        // Per-folder path characters, delimiter and segments.
        let mut delims: Vec<Vec<char>> = Vec::new();
        let mut segss: Vec<Vec<Vec<char>>> = Vec::new();
        let mut i: usize = 0;
        while i < n
            invariant
                n == folders.len(),
                fs == folders@,
                i <= n,
                delims.len() == i,
                segss.len() == i,
                forall|j: int| 0 <= j < i ==> #[trigger] delims@[j]@ == delimiter_of(fs[j]),
                forall|j: int| 0 <= j < i ==> seq_views(#[trigger] segss@[j]@) == segments_of(fs[j]),
            decreases n - i,
        {
            let path = chars_of(folders[i].path.as_str());
            let delim: Vec<char> = match &folders[i].delimiter {
                Some(d) => chars_of(d.as_str()),
                None => {
                    let mut v: Vec<char> = Vec::new();
                    v.push('/');
                    proof {
                        reveal_strlit("/");
                    }
                    assert(v@ =~= "/"@);
                    v
                },
            };
            let segs = split_chars(&path, &delim);
            delims.push(delim);
            segss.push(segs);
            i = i + 1;
        }
        // Largest segment count.
        let mut maxk: usize = 0;
        let mut i: usize = 0;
        while i < n
            invariant
                n == folders.len(),
                fs == folders@,
                i <= n,
                segss.len() == n,
                delims.len() == n,
                forall|j: int| 0 <= j < n ==> #[trigger] delims@[j]@ == delimiter_of(fs[j]),
                forall|j: int| 0 <= j < n ==> seq_views(#[trigger] segss@[j]@) == segments_of(fs[j]),
                maxk == max_seg_count(fs, i as nat),
            decreases n - i,
        {
            assert(seq_views(segss@[i as int]@).len() == segss@[i as int]@.len());
            if segss[i].len() > maxk {
                maxk = segss[i].len();
            }
            i = i + 1;
        }
        // Stable order by segment count.
        let mut order: Vec<usize> = Vec::new();
        let mut l: usize = 0;
        while l <= maxk
            invariant
                n == folders.len(),
                fs == folders@,
                segss.len() == n,
                delims.len() == n,
                forall|j: int| 0 <= j < n ==> #[trigger] delims@[j]@ == delimiter_of(fs[j]),
                forall|j: int| 0 <= j < n ==> seq_views(#[trigger] segss@[j]@) == segments_of(fs[j]),
                maxk == max_seg_count(fs, n as nat),
                l <= maxk,
                order@ == level_order(fs, l as nat),
            decreases maxk + 1 - l,
        {
            let mut i: usize = 0;
            while i < n
                invariant
                    n == folders.len(),
                    fs == folders@,
                    segss.len() == n,
                    forall|j: int| 0 <= j < n ==> seq_views(#[trigger] segss@[j]@) == segments_of(fs[j]),
                    l <= maxk,
                    i <= n,
                    order@ == level_order(fs, l as nat) + positions_with_count(fs, l as nat, i as nat),
                decreases n - i,
            {
                assert(seq_views(segss@[i as int]@).len() == segss@[i as int]@.len());
                if segss[i].len() == l {
                    order.push(i);
                }
                assert(order@ =~= level_order(fs, l as nat) + positions_with_count(fs, l as nat, (i + 1) as nat));
                i = i + 1;
            }
            assert(level_order(fs, (l + 1) as nat) == level_order(fs, l as nat) + positions_with_count(fs, l as nat, n as nat));
            if l == maxk {
                proof {
                    lemma_level_order_bounds(fs, (l + 1) as nat);
                    lemma_build_order_len(fs);
                }
                return Self::assemble(folders, delims, segss, order);
            }
            l = l + 1;
        }
        proof {
            assert(false);
        }
        FolderTree { nodes: Vec::new() }
    }

    /// Links the folders, taken in `order`, into nodes.
    fn assemble(
        folders: Vec<RemoteFolderDto>,
        delims: Vec<Vec<char>>,
        segss: Vec<Vec<Vec<char>>>,
        order: Vec<usize>,
    ) -> (t: FolderTree)
        requires
            delims.len() == folders.len(),
            segss.len() == folders.len(),
            forall|j: int| 0 <= j < folders.len() ==> #[trigger] delims@[j]@ == delimiter_of(folders@[j]),
            forall|j: int| 0 <= j < folders.len() ==> seq_views(#[trigger] segss@[j]@) == segments_of(folders@[j]),
            order@ == build_order(folders@),
            forall|k: int| 0 <= k < order.len() ==> #[trigger] order@[k] < folders.len(),
        ensures
            t.wf(),
            t.nodes@.len() == order.len(),
            forall|k: int| 0 <= k < t.nodes@.len() ==> {
                &&& node_from_folder(#[trigger] t.nodes@[k], folders@[order@[k] as int])
                &&& t.nodes@[k].parent == expected_parent(folders@, order@, k)
                &&& children_ok(folders@, order@, t.nodes@[k].children@, k, t.nodes@.len() as int)
            },
    {
        let ghost fs = folders@;
        let ghost ord = order@;
        let mut nodes: Vec<FolderNode> = Vec::new();
        let mut node_paths: Vec<Vec<char>> = Vec::new();
        let mut k: usize = 0;
        while k < order.len()
            invariant
                fs == folders@,
                ord == order@,
                delims.len() == folders.len(),
                segss.len() == folders.len(),
                forall|j: int| 0 <= j < folders.len() ==> #[trigger] delims@[j]@ == delimiter_of(fs[j]),
                forall|j: int| 0 <= j < folders.len() ==> seq_views(#[trigger] segss@[j]@) == segments_of(fs[j]),
                forall|j: int| 0 <= j < order.len() ==> #[trigger] order@[j] < folders.len(),
                k <= order.len(),
                nodes.len() == k,
                node_paths.len() == k,
                forall|j: int| 0 <= j < k ==> #[trigger] node_paths@[j]@ == fs[ord[j] as int].path@,
                forall|j: int| 0 <= j < k ==> {
                    &&& node_from_folder(#[trigger] nodes@[j], fs[ord[j] as int])
                    &&& nodes@[j].parent == expected_parent(fs, ord, j)
                    &&& children_ok(fs, ord, nodes@[j].children@, j, k as int)
                },
            decreases order.len() - k,
        {
            let i = order[k];
            let ghost f = fs[i as int];
            let segs = &segss[i];
            assert(seq_views(segs@) == segments_of(f));
            proof {
                crate::text::lemma_split_from_nonempty(f.path@, delimiter_of(f), 0);
            }
            assert(segs@.len() == segments_of(f).len());
            assert(segs@.len() >= 1);
            let last = &segs[segs.len() - 1];
            assert(last@ == segments_of(f).last());
            let name = string_from_chars(last, 0, last.len());
            assert(last@.subrange(0, last@.len() as int) == last@);
            let depth = segs.len() - 1;
            let mut parent: Option<usize> = None;
            if segs.len() > 1 {
                let pp = join_chars(segs, segs.len() - 1, &delims[i]);
                assert(seq_views(segs@).take(segs.len() - 1) =~= segments_of(f).drop_last());
                assert(pp@ == parent_path_of(f));
                parent = find_last_path(&node_paths, &pp, k, Ghost(fs), Ghost(ord));
                proof {
                    lemma_last_path_match_bounds(fs, ord, pp@, k as int);
                }
            }
            assert(parent == expected_parent(fs, ord, k as int));
            let ghost prev_nodes = nodes@;
            match parent {
                Some(p) => {
                    nodes[p].children.push(k);
                },
                None => {},
            }
            proof {
                assert forall|j: int| 0 <= j < k implies {
                    &&& node_from_folder(#[trigger] nodes@[j], fs[ord[j] as int])
                    &&& nodes@[j].parent == expected_parent(fs, ord, j)
                    &&& children_ok(fs, ord, nodes@[j].children@, j, (k + 1) as int)
                } by {
                    if parent == Some(j as usize) {
                        assert(nodes@[j].children@ == prev_nodes[j].children@.push(k));
                        assert(nodes@[j] == FolderNode { children: nodes@[j].children, ..prev_nodes[j] });
                        assert forall|c: usize| nodes@[j].children@.contains(c) <==> (c < k + 1
                            && expected_parent(fs, ord, c as int) == Some(j as usize)) by {
                            if c == k {
                                assert(nodes@[j].children@[prev_nodes[j].children@.len() as int] == c);
                            } else if prev_nodes[j].children@.contains(c) {
                                let q = choose|q: int| 0 <= q < prev_nodes[j].children@.len() && prev_nodes[j].children@[q] == c;
                                assert(nodes@[j].children@[q] == c);
                            } else if nodes@[j].children@.contains(c) {
                                let q = choose|q: int| 0 <= q < nodes@[j].children@.len() && nodes@[j].children@[q] == c;
                                if q < prev_nodes[j].children@.len() {
                                    assert(prev_nodes[j].children@[q] == c);
                                }
                            }
                        }
                        assert forall|a: int, b: int| 0 <= a < b < nodes@[j].children@.len() implies
                            nodes@[j].children@[a] < nodes@[j].children@[b] by {
                            if b == prev_nodes[j].children@.len() {
                                assert(prev_nodes[j].children@.contains(nodes@[j].children@[a]));
                            }
                        }
                    } else {
                        assert(nodes@[j] == prev_nodes[j]);
                    }
                }
            }
            let node = FolderNode {
                path: folders[i].path.clone(),
                name,
                special_use: clone_opt_string(&folders[i].special_use),
                no_select: folders[i].no_select,
                depth,
                parent,
                children: Vec::new(),
                selected: false,
            };
            nodes.push(node);
            node_paths.push(chars_of(folders[i].path.as_str()));
            proof {
                assert forall|c: usize| !(c < k + 1 && expected_parent(fs, ord, c as int) == Some(k as usize)) by {
                    if c < k + 1 && expected_parent(fs, ord, c as int) == Some(k as usize) {
                        let fc = fs[ord[c as int] as int];
                        lemma_last_path_match_bounds(fs, ord, parent_path_of(fc), c as int);
                    }
                }
                assert(children_ok(fs, ord, nodes@[k as int].children@, k as int, (k + 1) as int));
            }
            k = k + 1;
        }
        let t = FolderTree { nodes };
        proof {
            assert(tree_wf(t.nodes@)) by {
                assert forall|j: int| #![trigger t.nodes@[j].parent]
                    0 <= j < t.nodes@.len() && t.nodes@[j].parent is Some implies {
                        let p = t.nodes@[j].parent->0 as int;
                        &&& p < j
                        &&& t.nodes@[p].children@.contains(j as usize)
                    } by {
                    let fj = fs[ord[j] as int];
                    lemma_last_path_match_bounds(fs, ord, parent_path_of(fj), j);
                }
                assert forall|j: int, q: int| #![trigger t.nodes@[j].children@[q]]
                    0 <= j < t.nodes@.len() && 0 <= q < t.nodes@[j].children@.len() implies {
                        let c = t.nodes@[j].children@[q] as int;
                        &&& j < c < t.nodes@.len()
                        &&& t.nodes@[c].parent == Some(j as usize)
                    } by {
                    let c = t.nodes@[j].children@[q];
                    assert(t.nodes@[j].children@.contains(c));
                    let fc = fs[ord[c as int] as int];
                    lemma_last_path_match_bounds(fs, ord, parent_path_of(fc), c as int);
                }
            }
        }
        t
    }
}

} // verus!

verus! {

/// Splits `path` on `delim`; an empty delimiter leaves the path whole.
pub fn split_path(path: &str, delim: &str) -> (r: Vec<String>)
    ensures
        r@.len() == path_segments(path@, delim@).len(),
        forall|k: int| 0 <= k < r@.len() ==> #[trigger] r@[k]@ == path_segments(path@, delim@)[k],
{
    let p = chars_of(path);
    let d = chars_of(delim);
    let segs = split_chars(&p, &d);
    let mut out: Vec<String> = Vec::new();
    let mut k: usize = 0;
    while k < segs.len()
        invariant
            seq_views(segs@) == path_segments(path@, delim@),
            k <= segs.len(),
            out@.len() == k,
            forall|q: int| 0 <= q < k ==> #[trigger] out@[q]@ == segs@[q]@,
        decreases segs.len() - k,
    {
        let s = string_from_chars(&segs[k], 0, segs[k].len());
        assert(segs@[k as int]@.subrange(0, segs@[k as int]@.len() as int) == segs@[k as int]@);
        out.push(s);
        k = k + 1;
    }
    proof {
        assert forall|q: int| 0 <= q < out@.len() implies #[trigger] out@[q]@ == path_segments(path@, delim@)[q] by {
            assert(seq_views(segs@)[q] == segs@[q]@);
        }
    }
    out
}

impl Default for FolderTree {
    fn default() -> (t: FolderTree)
        ensures
            t.nodes@.len() == 0,
    {
        FolderTree { nodes: Vec::new() }
    }
}

/// Ancestry depends on the parent links alone.
pub proof fn lemma_ancestor_same_parents(a: Seq<FolderNode>, b: Seq<FolderNode>, i: int, j: int)
    requires
        a.len() == b.len(),
        forall|k: int| 0 <= k < a.len() ==> #[trigger] a[k].parent == b[k].parent,
    ensures
        is_ancestor(a, i, j) == is_ancestor(b, i, j),
    decreases j,
{
    if 0 <= j < a.len() {
        match a[j].parent {
            Some(p) => {
                if (p as int) < j {
                    lemma_ancestor_same_parents(a, b, i, p as int);
                }
            },
            None => {},
        }
    }
}

/// Cascading a check (or uncheck) over a subtree leaves its root in a
/// determinate state: every descendant then carries the same value.
pub proof fn lemma_set_subtree_determinate(before: Seq<FolderNode>, after: Seq<FolderNode>, idx: int, value: bool)
    requires
        after.len() == before.len(),
        forall|j: int| 0 <= j < before.len() ==> #[trigger] after[j] == with_selected(
            before[j],
            if in_subtree(before, idx, j) { value } else { before[j].selected },
        ),
    ensures
        !indeterminate_spec(after, idx),
{
    assert forall|k: int| 0 <= k < after.len() implies #[trigger] after[k].parent == before[k].parent by {
        assert(after[k] == with_selected(before[k], after[k].selected));
    }
    if indeterminate_spec(after, idx) {
        let j1 = choose|j: int| #[trigger] is_ancestor(after, idx, j) && !after[j].no_select && after[j].selected;
        let j2 = choose|j: int| #[trigger] is_ancestor(after, idx, j) && !after[j].no_select && !after[j].selected;
        lemma_ancestor_same_parents(after, before, idx, j1);
        lemma_ancestor_same_parents(after, before, idx, j2);
        assert(after[j1] == with_selected(before[j1], value));
        assert(after[j2] == with_selected(before[j2], value));
    }
}

/// The selection count and the create payload agree: the payload has one
/// entry per selected, selectable folder, and none of them is a container.
pub proof fn lemma_payload_matches_count(nodes: Seq<FolderNode>)
    ensures
        payload_spec(nodes).len() == selected_count_spec(nodes),
        forall|q: int| 0 <= q < payload_spec(nodes).len() ==> !(#[trigger] payload_spec(nodes)[q]).no_select,
    decreases nodes.len(),
{
    if nodes.len() > 0 {
        lemma_payload_matches_count(nodes.drop_last());
        let prev = payload_spec(nodes.drop_last());
        if counts_as_selected(nodes.last()) {
            assert forall|q: int| 0 <= q < payload_spec(nodes).len() implies !(#[trigger] payload_spec(nodes)[q]).no_select by {
                if q < prev.len() {
                    assert(payload_spec(nodes)[q] == prev[q]);
                }
            }
        }
    }
}

proof fn lemma_selected_count_step(nodes: Seq<FolderNode>, i: int)
    requires
        0 <= i < nodes.len(),
    ensures
        selected_count_spec(nodes.take(i + 1)) == selected_count_spec(nodes.take(i)) + if counts_as_selected(
            nodes[i],
        ) {
            1nat
        } else {
            0nat
        },
{
    assert(nodes.take(i + 1).drop_last() =~= nodes.take(i));
    assert(nodes.take(i + 1).last() == nodes[i]);
}

proof fn lemma_selected_count_prefix(nodes: Seq<FolderNode>, i: int)
    requires
        0 <= i <= nodes.len(),
    ensures
        selected_count_spec(nodes.take(i)) <= selected_count_spec(nodes),
    decreases nodes.len() - i,
{
    if i < nodes.len() {
        lemma_selected_count_step(nodes, i);
        lemma_selected_count_prefix(nodes, i + 1);
    } else {
        assert(nodes.take(i) =~= nodes);
    }
}

/// The create payload lists exactly the selected, selectable folders, in
/// tree order: it has one entry per such folder, and the folder at position
/// `i` that is selected and selectable gives the entry at its rank among
/// them (the number of such folders before it), with its path and special
/// use and marked selectable.
pub proof fn lemma_payload_entries(nodes: Seq<FolderNode>)
    ensures
        payload_spec(nodes).len() == selected_count_spec(nodes),
        forall|i: int|
            0 <= i < nodes.len() && nodes[i].selected && !nodes[i].no_select ==> {
                let e = #[trigger] payload_spec(nodes)[selected_count_spec(nodes.take(i)) as int];
                &&& selected_count_spec(nodes.take(i)) < payload_spec(nodes).len()
                &&& e.path@ == nodes[i].path@
                &&& opt_chars(e.special_use) == opt_chars(nodes[i].special_use)
                &&& !e.no_select
            },
    decreases nodes.len(),
{
    lemma_payload_matches_count(nodes);
    if nodes.len() > 0 {
        let prev = nodes.drop_last();
        lemma_payload_entries(prev);
        let last = nodes.len() - 1;
        assert forall|i: int|
            0 <= i < nodes.len() && nodes[i].selected && !nodes[i].no_select implies {
                let e = #[trigger] payload_spec(nodes)[selected_count_spec(nodes.take(i)) as int];
                &&& selected_count_spec(nodes.take(i)) < payload_spec(nodes).len()
                &&& e.path@ == nodes[i].path@
                &&& opt_chars(e.special_use) == opt_chars(nodes[i].special_use)
                &&& !e.no_select
            } by {
            if i == last {
                assert(nodes.take(i) =~= prev);
                assert(nodes.last() == nodes[i]);
                assert(payload_spec(nodes) == payload_spec(prev).push(payload_entry(nodes[i])));
                lemma_payload_matches_count(prev);
            } else {
                assert(nodes.take(i) =~= prev.take(i));
                assert(prev[i] == nodes[i]);
                lemma_selected_count_step(prev, i);
                lemma_selected_count_prefix(prev, i + 1);
                lemma_payload_matches_count(prev);
                let c = selected_count_spec(prev.take(i)) as int;
                assert(c < payload_spec(prev).len());
                assert(payload_spec(nodes)[c] == payload_spec(prev)[c]);
            }
        }
    }
}

/// Number of selectable nodes.
pub open spec fn selectable_count(nodes: Seq<FolderNode>) -> nat
    decreases nodes.len(),
{
    if nodes.len() == 0 {
        0
    } else {
        selectable_count(nodes.drop_last()) + if !nodes.last().no_select { 1nat } else { 0nat }
    }
}

/// Selecting everything counts every selectable folder; clearing everything
/// counts none.
pub proof fn lemma_select_all_count(before: Seq<FolderNode>, after: Seq<FolderNode>, value: bool)
    requires
        after.len() == before.len(),
        forall|j: int| 0 <= j < before.len() ==> #[trigger] after[j] == with_selected(before[j], value),
    ensures
        selected_count_spec(after) == if value { selectable_count(before) } else { 0 },
    decreases before.len(),
{
    if before.len() > 0 {
        let b = before.drop_last();
        let a = after.drop_last();
        assert forall|j: int| 0 <= j < b.len() implies #[trigger] a[j] == with_selected(b[j], value) by {
            assert(a[j] == after[j]);
        }
        lemma_select_all_count(b, a, value);
        assert(after.last() == with_selected(before.last(), value));
    }
}

} // verus!
