//! The texts that the shell prints of the namespace: the path of a directory
//! and the tree below a directory.
use vstd::prelude::*;
use vstd::set_lib::{lemma_int_range, lemma_len_subset, set_int_range};
use crate::names::{LINE_FEED, SLASH, SPACE};
use crate::tree::Namespace;

verus! {

/// The `n`-th ancestor of directory `d`: `d` itself for 0, its parent for 1.
pub open spec fn ancestor(ns: Namespace, d: int, n: nat) -> int
    decreases n,
{
    if n == 0 {
        d
    } else {
        ancestor(ns, ns.dirs[d].parent_index as int, (n - 1) as nat)
    }
}

/// Going up from a live directory, each step leads to a live directory that
/// is one nearer to the root.
pub proof fn lemma_ancestor(ns: Namespace, depth: Seq<nat>, d: int, n: nat)
    requires
        ns.wf(),
        ns.ranked(depth),
        ns.live_dir(d),
        n <= depth[d],
    ensures
        ns.live_dir(ancestor(ns, d, n)),
        depth[ancestor(ns, d, n)] == depth[d] - n,
    decreases n,
{
    if n > 0 {
        assert(ns.dir_ok(d));
        lemma_ancestor(ns, depth, ns.dirs[d].parent_index as int, (n - 1) as nat);
    }
}

/// No live directory lies a hundred or more steps below the root: its
/// ancestors are that many distinct slots of the pool.
pub proof fn lemma_depth_bound(ns: Namespace, depth: Seq<nat>, d: int)
    requires
        ns.wf(),
        ns.ranked(depth),
        ns.live_dir(d),
    ensures
        depth[d] < 100,
{
    let chain = Seq::new(depth[d] + 1, |n: int| ancestor(ns, d, n as nat));
    assert forall|i: int, j: int|
        0 <= i < chain.len() && 0 <= j < chain.len() && i != j implies chain[i] != chain[j] by {
        lemma_ancestor(ns, depth, d, i as nat);
        lemma_ancestor(ns, depth, d, j as nat);
    }
    chain.unique_seq_to_set();
    let range = set_int_range(0, 100);
    assert forall|x: int| chain.to_set().contains(x) implies range.contains(x) by {
        let i = choose|i: int| 0 <= i < chain.len() && chain[i] == x;
        lemma_ancestor(ns, depth, d, i as nat);
    }
    lemma_int_range(0, 100);
    lemma_len_subset(chain.to_set(), range);
}

/// `count` spaces.
pub open spec fn spaces(count: nat) -> Seq<u8> {
    Seq::new(count, |i: int| SPACE)
}

impl Namespace {
    /// How many steps directory `d` lies below the root.
    pub open spec fn depth_of(self, d: int) -> nat {
        (choose|depth: Seq<nat>| #[trigger] self.ranked(depth))[d]
    }

    /// The path of directory `d`: for each directory from the root down to
    /// `d`, a slash and the directory's name.
    pub open spec fn path_text(self, d: int) -> Seq<u8>
        decreases self.depth_of(d),
        when self.wf() && self.live_dir(d)
        via Self::path_text_decreases
    {
        if d == 0 {
            seq![SLASH] + self.dir_name(0)
        } else {
            self.path_text(self.dirs[d].parent_index as int) + seq![SLASH] + self.dir_name(d)
        }
    }

    #[via_fn]
    proof fn path_text_decreases(self, d: int) {
        if d != 0 {
            assert(self.dir_ok(d));
        }
    }

    /// The tree below directory `d`, from entry `from` of its child array
    /// on: for each child, in the order of the entries, a line feed, four
    /// spaces for each level, a slash and the child's name, and then the tree
    /// below that child, one level deeper.
    pub open spec fn tree_lines(self, d: int, level: nat, from: int) -> Seq<u8>
        decreases 100 - self.depth_of(d), 20 - from,
        when self.wf() && self.live_dir(d) && 0 <= from
        via Self::tree_lines_decreases
    {
        if from >= 20 {
            Seq::empty()
        } else if self.child_at(d, from) == 100 {
            self.tree_lines(d, level, from + 1)
        } else {
            seq![LINE_FEED] + spaces(4 * level) + seq![SLASH] + self.dir_name(
                self.child_at(d, from) as int,
            ) + self.tree_lines(self.child_at(d, from) as int, level + 1, 0) + self.tree_lines(
                d,
                level,
                from + 1,
            )
        }
    }

    #[via_fn]
    proof fn tree_lines_decreases(self, d: int, level: nat, from: int) {
        if from < 20 && self.child_at(d, from) != 100 {
            self.lemma_child_deeper(d, from);
        }
    }

    /// A child of a live directory is live and lies one step deeper, less
    /// than a hundred steps below the root.
    pub proof fn lemma_child_deeper(self, d: int, j: int)
        requires
            self.wf(),
            self.live_dir(d),
            0 <= j < 20,
            self.child_at(d, j) != 100,
        ensures
            self.live_dir(self.child_at(d, j) as int),
            self.depth_of(self.child_at(d, j) as int) == self.depth_of(d) + 1,
            self.depth_of(self.child_at(d, j) as int) < 100,
    {
        let depth = choose|depth: Seq<nat>| #[trigger] self.ranked(depth);
        let c = self.child_at(d, j) as int;
        assert(self.dir_ok(d));
        assert(self.live_dir(c));
        lemma_depth_bound(self, depth, c);
    }

    /// The parent of a live directory other than the root is live and lies
    /// one step nearer to the root.
    pub proof fn lemma_parent_nearer(self, d: int)
        requires
            self.wf(),
            self.live_dir(d),
            d != 0,
        ensures
            self.live_dir(self.dirs[d].parent_index as int),
            self.depth_of(self.dirs[d].parent_index as int) + 1 == self.depth_of(d),
    {
        assert(self.dir_ok(d));
    }

    /// The tree below directory `d`, printed from the level `level`.
    pub open spec fn tree_text(self, d: int, level: nat) -> Seq<u8> {
        self.tree_lines(d, level, 0)
    }
}

} // verus!
