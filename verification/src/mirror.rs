//! What a whole walk amounts to: over a source tree, a recursive walk
//! makes one link for every file, in the order of the tree, each under
//! the destination at the place the file has under the source.
//!
//! This is a statement about the walk of `crate::walk`, made over a model
//! of the source: a tree of named directories and files without links
//! among them, which the caller reports as it is.

use vstd::prelude::*;
use crate::paths::spec_join;
use crate::symlink::{spec_decide, DestView};
use crate::walk::{spec_occupant, InspectionView, LinkTaskView, PendingView, WalkView};

verus! {

/// A source tree: a file, or a directory with a subtree for each of its
/// names.
pub enum Tree {
    File,
    Dir { names: Seq<Seq<char>>, subtrees: Seq<Tree> },
}

impl Tree {
    /// Whether every directory in the tree has as many names as
    /// subtrees, and every name is a name: not empty, and not absolute.
    pub open spec fn well_named(self) -> bool
        decreases self, 0int,
    {
        match self {
            Tree::File => true,
            Tree::Dir { names, subtrees } => {
                &&& names.len() == subtrees.len()
                &&& forall|k: int|
                    0 <= k < names.len() ==> (#[trigger] names[k]).len() > 0 && names[k][0] != '/'
                &&& all_well_named(subtrees, subtrees.len() as int)
            },
        }
    }

    /// How many files and directories the tree has.
    pub open spec fn size(self) -> nat
        decreases self, 0int,
    {
        match self {
            Tree::File => 1,
            Tree::Dir { names, subtrees } => 1 + sizes(subtrees, subtrees.len() as int),
        }
    }
}

/// Whether the first `n` of the trees are well named.
pub open spec fn all_well_named(trees: Seq<Tree>, n: int) -> bool
    decreases trees, n,
{
    if n <= 0 || n > trees.len() {
        true
    } else {
        all_well_named(trees, n - 1) && trees[n - 1].well_named()
    }
}

/// The size of the first `n` of the trees together.
pub open spec fn sizes(trees: Seq<Tree>, n: int) -> nat
    decreases trees, n,
{
    if n <= 0 || n > trees.len() {
        0
    } else {
        sizes(trees, n - 1) + trees[n - 1].size()
    }
}

/// The link for a source at `target` and its destination `dest`, decided
/// against what `dests` says is at the destination.
pub open spec fn link_of(
    target: Seq<char>,
    dest: Seq<char>,
    force: bool,
    dests: spec_fn(Seq<char>) -> DestView,
) -> LinkTaskView {
    LinkTaskView {
        target,
        dest,
        action: spec_decide(target, dests(dest), force),
        occupant: spec_occupant(dests(dest)),
    }
}

/// The links that mirror the tree `t`, which lies at `target`, under
/// `dest`: one for each file, directories in the order of their names.
pub open spec fn mirror(
    t: Tree,
    target: Seq<char>,
    dest: Seq<char>,
    force: bool,
    dests: spec_fn(Seq<char>) -> DestView,
) -> Seq<LinkTaskView>
    decreases t, 0int,
{
    match t {
        Tree::File => seq![link_of(target, dest, force, dests)],
        Tree::Dir { names, subtrees } => mirror_from(names, subtrees, 0, target, dest, force, dests),
    }
}

/// The links that mirror the subtrees from index `i` on of a directory
/// at `target`, under `dest`.
pub open spec fn mirror_from(
    names: Seq<Seq<char>>,
    subtrees: Seq<Tree>,
    i: int,
    target: Seq<char>,
    dest: Seq<char>,
    force: bool,
    dests: spec_fn(Seq<char>) -> DestView,
) -> Seq<LinkTaskView>
    decreases subtrees, subtrees.len() - i,
{
    if i < 0 || i >= subtrees.len() {
        Seq::empty()
    } else {
        mirror(
            subtrees[i],
            spec_join(target, names[i]),
            spec_join(dest, names[i]),
            force,
            dests,
        ) + mirror_from(names, subtrees, i + 1, target, dest, force, dests)
    }
}

/// What a caller finds for the pair `p` whose source is the tree `t`: the
/// source is its own canonical path, and a directory lists its names.
pub open spec fn found(t: Tree, p: PendingView, dests: spec_fn(Seq<char>) -> DestView) -> InspectionView {
    InspectionView {
        canonical: p.target,
        is_dir: t is Dir,
        names: match t {
            Tree::File => Seq::empty(),
            Tree::Dir { names, .. } => names,
        },
        dest: dests(p.dest),
    }
}

/// The subtrees of a directory in the order in which the walk stacks its
/// pairs: the last name first.
pub open spec fn stacked(subtrees: Seq<Tree>) -> Seq<Tree> {
    Seq::new(subtrees.len(), |k: int| subtrees[subtrees.len() - 1 - k])
}

/// The links that the walk `w` makes in at most `fuel` steps, where
/// `trees` says what the source of each pending pair is.
pub open spec fn links(
    w: WalkView,
    trees: Seq<Tree>,
    dests: spec_fn(Seq<char>) -> DestView,
    fuel: nat,
) -> Seq<LinkTaskView>
    decreases fuel,
{
    if fuel == 0 || w.pending.len() == 0 || trees.len() == 0 {
        Seq::empty()
    } else {
        let p = w.pending.last();
        let t = trees.last();
        let seen = found(t, p, dests);
        let below = match t {
            Tree::Dir { subtrees, .. } if w.descends(p, seen) => trees.drop_last() + stacked(
                subtrees,
            ),
            _ => trees.drop_last(),
        };
        let made = match w.task(seen) {
            Some(task) => seq![task],
            None => Seq::empty(),
        };
        made + links(w.advanced(seen), below, dests, (fuel - 1) as nat)
    }
}

/// The links that mirror the first `n` pairs of a stack, the pair at
/// `n - 1` first: the order in which a walk takes them.
pub open spec fn expected(
    pending: Seq<PendingView>,
    trees: Seq<Tree>,
    n: int,
    force: bool,
    dests: spec_fn(Seq<char>) -> DestView,
) -> Seq<LinkTaskView>
    decreases n,
{
    if n <= 0 || n > trees.len() || n > pending.len() {
        Seq::empty()
    } else {
        mirror(trees[n - 1], pending[n - 1].target, pending[n - 1].dest, force, dests) + expected(
            pending,
            trees,
            n - 1,
            force,
            dests,
        )
    }
}

/// Whether every directory on the trail of `p` has a shorter path than
/// the source of `p`: then the source is not on its own trail.
pub open spec fn fresh(p: PendingView) -> bool {
    forall|j: int| 0 <= j < p.trail.len() ==> (#[trigger] p.trail[j]).len() < p.target.len()
}

proof fn lemma_sizes_prefix(a: Seq<Tree>, b: Seq<Tree>, n: int)
    requires
        0 <= n <= a.len(),
        n <= b.len(),
        forall|k: int| 0 <= k < n ==> a[k] == b[k],
    ensures
        sizes(a, n) == sizes(b, n),
    decreases n,
{
    if n > 0 {
        lemma_sizes_prefix(a, b, n - 1);
    }
}

proof fn lemma_sizes_concat(a: Seq<Tree>, b: Seq<Tree>, n: int)
    requires
        0 <= n <= b.len(),
    ensures
        sizes(a + b, a.len() + n) == sizes(a, a.len() as int) + sizes(b, n),
    decreases n,
{
    if n == 0 {
        lemma_sizes_prefix(a + b, a, a.len() as int);
    } else {
        lemma_sizes_concat(a, b, n - 1);
        assert((a + b)[a.len() + n - 1] == b[n - 1]);
    }
}

proof fn lemma_sizes_stacked(s: Seq<Tree>, k: int)
    requires
        0 <= k <= s.len(),
    ensures
        sizes(stacked(s), k) + sizes(s, s.len() - k) == sizes(s, s.len() as int),
    decreases k,
{
    if k > 0 {
        lemma_sizes_stacked(s, k - 1);
        assert(stacked(s)[k - 1] == s[s.len() - k]);
    }
}

proof fn lemma_well_named_each(trees: Seq<Tree>, n: int, k: int)
    requires
        0 <= k < n <= trees.len(),
        all_well_named(trees, n),
    ensures
        trees[k].well_named(),
    decreases n,
{
    if k < n - 1 {
        lemma_well_named_each(trees, n - 1, k);
    }
}

proof fn lemma_expected_prefix(
    p1: Seq<PendingView>,
    t1: Seq<Tree>,
    p2: Seq<PendingView>,
    t2: Seq<Tree>,
    n: int,
    force: bool,
    dests: spec_fn(Seq<char>) -> DestView,
)
    requires
        0 <= n <= p1.len(),
        n <= p2.len(),
        n <= t1.len(),
        n <= t2.len(),
        forall|k: int| 0 <= k < n ==> p1[k] == p2[k] && t1[k] == t2[k],
    ensures
        expected(p1, t1, n, force, dests) == expected(p2, t2, n, force, dests),
    decreases n,
{
    if n > 0 {
        lemma_expected_prefix(p1, t1, p2, t2, n - 1, force, dests);
    }
}

proof fn lemma_join_is_longer(base: Seq<char>, name: Seq<char>)
    requires
        name.len() > 0,
        name[0] != '/',
    ensures
        spec_join(base, name).len() > base.len(),
{
}

proof fn lemma_children_mirror(
    w: WalkView,
    trees: Seq<Tree>,
    dests: spec_fn(Seq<char>) -> DestView,
    i: int,
)
    requires
        w.pending.len() > 0,
        trees.len() == w.pending.len(),
        trees.last() is Dir,
        trees.last().well_named(),
        0 <= i <= trees.last()->subtrees.len(),
    ensures
        ({
            let p = w.pending.last();
            let t = trees.last();
            let seen = found(t, p, dests);
            let pending = w.pending.drop_last() + WalkView::children(p, seen);
            let below = trees.drop_last() + stacked(t->subtrees);
            expected(pending, below, pending.len() - i, w.force, dests) == mirror_from(
                t->names,
                t->subtrees,
                i,
                p.target,
                p.dest,
                w.force,
                dests,
            ) + expected(w.pending, trees, trees.len() - 1, w.force, dests)
        }),
    decreases trees.last()->subtrees.len() - i,
{
    let p = w.pending.last();
    let t = trees.last();
    let names = t->names;
    let subtrees = t->subtrees;
    let m = subtrees.len() as int;
    let seen = found(t, p, dests);
    let kids = WalkView::children(p, seen);
    let pending = w.pending.drop_last() + kids;
    let below = trees.drop_last() + stacked(subtrees);
    let n = trees.len() as int;
    let rest = expected(w.pending, trees, n - 1, w.force, dests);
    if i == m {
        lemma_expected_prefix(pending, below, w.pending, trees, n - 1, w.force, dests);
        assert(mirror_from(names, subtrees, i, p.target, p.dest, w.force, dests) + rest =~= rest);
    } else {
        lemma_children_mirror(w, trees, dests, i + 1);
        let at = n - 1 + m - i - 1;
        assert(pending[at] == kids[m - 1 - i]);
        assert(below[at] == subtrees[i]);
        let first = mirror(
            subtrees[i],
            spec_join(p.target, names[i]),
            spec_join(p.dest, names[i]),
            w.force,
            dests,
        );
        let later = mirror_from(names, subtrees, i + 1, p.target, p.dest, w.force, dests);
        assert(first + (later + rest) =~= (first + later) + rest);
    }
}

/// Every tree has at least its root.
proof fn lemma_size_positive(t: Tree)
    ensures
        t.size() >= 1,
{
}

proof fn lemma_links_of_stack(
    w: WalkView,
    trees: Seq<Tree>,
    dests: spec_fn(Seq<char>) -> DestView,
    fuel: nat,
)
    requires
        w.recursive,
        trees.len() == w.pending.len(),
        forall|k: int| 0 <= k < trees.len() ==> (#[trigger] trees[k]).well_named(),
        forall|k: int| 0 <= k < w.pending.len() ==> fresh(#[trigger] w.pending[k]),
        fuel >= sizes(trees, trees.len() as int),
    ensures
        links(w, trees, dests, fuel) == expected(
            w.pending,
            trees,
            trees.len() as int,
            w.force,
            dests,
        ),
    decreases fuel,
{
    let n = trees.len() as int;
    if n > 0 {
        let p = w.pending.last();
        let t = trees.last();
        lemma_size_positive(t);
        let seen = found(t, p, dests);
        let next = w.advanced(seen);
        let rest = expected(w.pending, trees, n - 1, w.force, dests);
        lemma_sizes_prefix(trees.drop_last(), trees, n - 1);
        match t {
            Tree::File => {
                let below = trees.drop_last();
                lemma_links_of_stack(next, below, dests, (fuel - 1) as nat);
                lemma_expected_prefix(next.pending, below, w.pending, trees, n - 1, w.force, dests);
                assert(w.task(seen) == Some(link_of(p.target, p.dest, w.force, dests)));
            },
            Tree::Dir { names, subtrees } => {
                assert(fresh(p));
                assert(!p.trail.contains(p.target)) by {
                    if p.trail.contains(p.target) {
                        let j = choose|j: int| 0 <= j < p.trail.len() && p.trail[j] == p.target;
                        assert(p.trail[j].len() < p.target.len());
                    }
                }
                assert(w.descends(p, seen));
                let kids = WalkView::children(p, seen);
                let below = trees.drop_last() + stacked(subtrees);
                let m = subtrees.len() as int;
                assert(next.pending == w.pending.drop_last() + kids);
                assert forall|k: int| 0 <= k < below.len() implies (
                #[trigger] below[k]).well_named() by {
                    if k >= n - 1 {
                        lemma_well_named_each(subtrees, m, m - 1 - (k - (n - 1)));
                    } else {
                        assert(below[k] == trees[k]);
                    }
                }
                assert forall|k: int| 0 <= k < next.pending.len() implies fresh(
                    #[trigger] next.pending[k],
                ) by {
                    if k >= n - 1 {
                        let name = names[m - 1 - (k - (n - 1))];
                        lemma_join_is_longer(p.target, name);
                        let child = next.pending[k];
                        assert(child == kids[k - (n - 1)]);
                        assert forall|j: int| 0 <= j < child.trail.len() implies (
                        #[trigger] child.trail[j]).len() < child.target.len() by {
                            if j < p.trail.len() {
                                assert(child.trail[j] == p.trail[j]);
                            }
                        }
                    } else {
                        assert(next.pending[k] == w.pending[k]);
                    }
                }
                lemma_sizes_concat(trees.drop_last(), stacked(subtrees), m);
                lemma_sizes_stacked(subtrees, m);
                lemma_links_of_stack(next, below, dests, (fuel - 1) as nat);
                lemma_children_mirror(w, trees, dests, 0);
                assert(w.task(seen) is None);
                assert(Seq::<LinkTaskView>::empty() + links(
                    next,
                    below,
                    dests,
                    (fuel - 1) as nat,
                ) =~= links(next, below, dests, (fuel - 1) as nat));
            },
        }
    }
}

/// A recursive walk mirrors the tree. Started on a well-named tree at
/// `target` and given as many steps as the tree has files and
/// directories, the walk makes exactly the links that mirror the tree
/// under `dest`, in their order, whatever is at the destinations.
pub proof fn lemma_walk_mirrors_tree(
    t: Tree,
    target: Seq<char>,
    dest: Seq<char>,
    force: bool,
    dests: spec_fn(Seq<char>) -> DestView,
)
    requires
        t.well_named(),
    ensures
        links(
            WalkView {
                pending: seq![PendingView { target, dest, trail: Seq::empty() }],
                force,
                recursive: true,
            },
            seq![t],
            dests,
            t.size(),
        ) == mirror(t, target, dest, force, dests),
{
    let start = PendingView { target, dest, trail: Seq::empty() };
    let w = WalkView { pending: seq![start], force, recursive: true };
    let trees = seq![t];
    assert(sizes(trees, 1) == t.size()) by {
        assert(sizes(trees, 0) == 0);
    }
    lemma_links_of_stack(w, trees, dests, t.size());
    assert(expected(w.pending, trees, 1, force, dests) =~= mirror(t, target, dest, force, dests))
        by {
        assert(expected(w.pending, trees, 0, force, dests) =~= Seq::<LinkTaskView>::empty());
    }
}

/// A walk that is not recursive makes one link, for the source as a
/// whole, be it a file or a directory.
pub proof fn lemma_flat_walk_links_once(
    t: Tree,
    target: Seq<char>,
    dest: Seq<char>,
    force: bool,
    dests: spec_fn(Seq<char>) -> DestView,
    fuel: nat,
)
    requires
        fuel > 0,
    ensures
        links(
            WalkView {
                pending: seq![PendingView { target, dest, trail: Seq::empty() }],
                force,
                recursive: false,
            },
            seq![t],
            dests,
            fuel,
        ) == seq![link_of(target, dest, force, dests)],
{
    let start = PendingView { target, dest, trail: Seq::empty() };
    let w = WalkView { pending: seq![start], force, recursive: false };
    let seen = found(t, start, dests);
    let next = w.advanced(seen);
    assert(w.pending.last() == start);
    assert(next.pending.len() == 0);
    assert(links(next, seq![t].drop_last(), dests, (fuel - 1) as nat) =~= Seq::<
        LinkTaskView,
    >::empty());
    assert(seq![link_of(target, dest, force, dests)] + Seq::<LinkTaskView>::empty() =~= seq![
        link_of(target, dest, force, dests),
    ]);
}

} // verus!
