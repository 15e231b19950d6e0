//! Conflict resolution for one destination path: what to do with what is
//! found there, and what the destination is afterwards.

use vstd::prelude::*;
use crate::text::str_eq;

verus! {

/// What is found at a destination path.
#[derive(Debug)]
pub enum DestState {
    /// Nothing is there.
    Missing,
    /// A symbolic link. `resolved` is the canonical path that it leads to,
    /// or `None` where it leads nowhere: the link is broken.
    Symlink { resolved: Option<String> },
    /// A regular file, or anything else that is neither link nor directory.
    File,
    /// A directory.
    Directory,
}

/// A `DestState` as mathematical values.
pub enum DestView {
    Missing,
    Symlink { resolved: Option<Seq<char>> },
    File,
    Directory,
}

impl DeepView for DestState {
    type V = DestView;

    open spec fn deep_view(&self) -> DestView {
        match *self {
            DestState::Missing => DestView::Missing,
            DestState::Symlink { resolved } => DestView::Symlink { resolved: resolved.deep_view() },
            DestState::File => DestView::File,
            DestState::Directory => DestView::Directory,
        }
    }
}

impl View for DestState {
    type V = DestView;

    open spec fn view(&self) -> DestView {
        self.deep_view()
    }
}

/// What stands in the way of a link and is removed to make room for it.
#[derive(Clone, Copy, Debug, PartialEq, Eq, Structural)]
pub enum Obstacle {
    /// A link that leads nowhere.
    BrokenLink,
    /// A link that leads somewhere else.
    ForeignLink,
    /// A file.
    File,
    /// A directory, with all that it holds.
    Directory,
}

/// Why a destination is left as it is, for the user to resolve.
#[derive(Clone, Copy, Debug, PartialEq, Eq, Structural)]
pub enum Conflict {
    /// The destination is a link that leads somewhere else.
    LinkedElsewhere,
    /// The destination exists and is no link.
    NotALink,
}

/// What to do at a destination path.
#[derive(Clone, Copy, Debug, PartialEq, Eq, Structural)]
pub enum LinkAction {
    /// Create the missing parent directories, then the link.
    Create,
    /// Nothing: the link is there and leads to the target.
    UpToDate,
    /// Remove the obstacle, then create the link.
    Replace(Obstacle),
    /// Touch nothing and warn the user.
    Skip(Conflict),
}

impl LinkAction {
    /// Whether carrying out the action changes the file system.
    pub open spec fn spec_mutates(self) -> bool {
        self is Create || self is Replace
    }

    /// Whether carrying out the action changes the file system.
    pub fn mutates(&self) -> (b: bool)
        ensures
            b == self.spec_mutates(),
    {
        match self {
            LinkAction::Create => true,
            LinkAction::Replace(_) => true,
            _ => false,
        }
    }
}

/// A destination that is a link to `target`.
pub open spec fn linked_to(target: Seq<char>) -> DestView {
    DestView::Symlink { resolved: Some(target) }
}

/// The action for the destination state `dest`, where the link is to lead
/// to the canonical path `target`.
///
/// A link that already leads to the target is left alone whatever `force`
/// says, and a broken link is replaced whatever `force` says. Any other
/// occupant is replaced only under `force`.
pub open spec fn spec_decide(target: Seq<char>, dest: DestView, force: bool) -> LinkAction {
    match dest {
        DestView::Missing => LinkAction::Create,
        DestView::Symlink { resolved: None } => LinkAction::Replace(Obstacle::BrokenLink),
        DestView::Symlink { resolved: Some(path) } => if path == target {
            LinkAction::UpToDate
        } else if force {
            LinkAction::Replace(Obstacle::ForeignLink)
        } else {
            LinkAction::Skip(Conflict::LinkedElsewhere)
        },
        DestView::File => if force {
            LinkAction::Replace(Obstacle::File)
        } else {
            LinkAction::Skip(Conflict::NotALink)
        },
        DestView::Directory => if force {
            LinkAction::Replace(Obstacle::Directory)
        } else {
            LinkAction::Skip(Conflict::NotALink)
        },
    }
}

/// The destination after `action` has been carried out on it: a link to
/// `target` where the action makes one, and `dest` unchanged where it
/// does not.
pub open spec fn after(action: LinkAction, target: Seq<char>, dest: DestView) -> DestView {
    if action.spec_mutates() {
        linked_to(target)
    } else {
        dest
    }
}

/// The destination after one materialization of a link to `target`.
pub open spec fn materialized(target: Seq<char>, dest: DestView, force: bool) -> DestView {
    after(spec_decide(target, dest, force), target, dest)
}

/// Whether the destination holds something that this tool did not put
/// there for `target` and that is not a broken link.
pub open spec fn is_foreign(target: Seq<char>, dest: DestView) -> bool {
    match dest {
        DestView::Missing => false,
        DestView::Symlink { resolved: None } => false,
        DestView::Symlink { resolved: Some(path) } => path != target,
        DestView::File => true,
        DestView::Directory => true,
    }
}

/// Decides what to do at a destination in state `dest`, where the link is
/// to lead to the canonical path `target`.
pub fn decide(target: &str, dest: &DestState, force: bool) -> (action: LinkAction)
    ensures
        action == spec_decide(target@, dest@, force),
{
    match dest {
        DestState::Missing => LinkAction::Create,
        DestState::Symlink { resolved: None } => LinkAction::Replace(Obstacle::BrokenLink),
        DestState::Symlink { resolved: Some(path) } => {
            if str_eq(path.as_str(), target) {
                LinkAction::UpToDate
            } else if force {
                LinkAction::Replace(Obstacle::ForeignLink)
            } else {
                LinkAction::Skip(Conflict::LinkedElsewhere)
            }
        },
        DestState::File => if force {
            LinkAction::Replace(Obstacle::File)
        } else {
            LinkAction::Skip(Conflict::NotALink)
        },
        DestState::Directory => if force {
            LinkAction::Replace(Obstacle::Directory)
        } else {
            LinkAction::Skip(Conflict::NotALink)
        },
    }
}

/// Materializing twice is materializing once: the second pass changes
/// nothing, and where the first pass did not skip a conflict, the second
/// finds the link up to date.
pub proof fn lemma_second_run_is_idle(target: Seq<char>, dest: DestView, force: bool)
    ensures
        !spec_decide(target, materialized(target, dest, force), force).spec_mutates(),
        materialized(target, materialized(target, dest, force), force) == materialized(
            target,
            dest,
            force,
        ),
        !(spec_decide(target, dest, force) is Skip) ==> spec_decide(
            target,
            materialized(target, dest, force),
            force,
        ) == LinkAction::UpToDate,
{
}

/// Without `force`, a destination that holds a file, a directory or a
/// link to somewhere else is neither removed nor overwritten.
pub proof fn lemma_foreign_kept_without_force(target: Seq<char>, dest: DestView)
    requires
        is_foreign(target, dest),
    ensures
        spec_decide(target, dest, false) is Skip,
        !spec_decide(target, dest, false).spec_mutates(),
        materialized(target, dest, false) == dest,
{
}

/// Under `force`, whatever is at the destination ends as a link to the
/// target.
pub proof fn lemma_force_always_links(target: Seq<char>, dest: DestView)
    ensures
        materialized(target, dest, true) == linked_to(target),
{
}

/// A broken link at the destination ends as a link to the target, with
/// or without `force`.
pub proof fn lemma_broken_link_healed(target: Seq<char>, force: bool)
    ensures
        spec_decide(target, DestView::Symlink { resolved: None }, force) == LinkAction::Replace(
            Obstacle::BrokenLink,
        ),
        materialized(target, DestView::Symlink { resolved: None }, force) == linked_to(target),
{
}

/// A link to make: the canonical target and the destination.
pub struct LinkPair {
    pub target: Seq<char>,
    pub dest: Seq<char>,
}

/// What a file system holds at `dest`: nothing, where it holds no entry
/// for the path.
pub open spec fn state_at(fs: Map<Seq<char>, DestView>, dest: Seq<char>) -> DestView {
    if fs.contains_key(dest) {
        fs[dest]
    } else {
        DestView::Missing
    }
}

/// The file system after the first `n` of the links `pairs` have been
/// materialized in order, each against what the file system holds when
/// its turn comes. Destinations are taken to be independent of each
/// other: making one link does not change what is at another path.
pub open spec fn run(fs: Map<Seq<char>, DestView>, pairs: Seq<LinkPair>, force: bool, n: int) -> Map<
    Seq<char>,
    DestView,
>
    decreases n,
{
    if n <= 0 {
        fs
    } else {
        let before = run(fs, pairs, force, n - 1);
        let pair = pairs[n - 1];
        before.insert(pair.dest, materialized(pair.target, state_at(before, pair.dest), force))
    }
}

/// Whether no destination occurs twice among the links.
pub open spec fn dests_distinct(pairs: Seq<LinkPair>) -> bool {
    forall|i: int, j: int|
        0 <= i < j < pairs.len() ==> (#[trigger] pairs[i]).dest != (#[trigger] pairs[j]).dest
}

proof fn lemma_run_touches_only_its_dests(
    fs: Map<Seq<char>, DestView>,
    pairs: Seq<LinkPair>,
    force: bool,
    n: int,
    dest: Seq<char>,
)
    requires
        0 <= n <= pairs.len(),
        forall|k: int| 0 <= k < n ==> (#[trigger] pairs[k]).dest != dest,
    ensures
        state_at(run(fs, pairs, force, n), dest) == state_at(fs, dest),
    decreases n,
{
    if n > 0 {
        lemma_run_touches_only_its_dests(fs, pairs, force, n - 1, dest);
    }
}

proof fn lemma_run_result(
    fs: Map<Seq<char>, DestView>,
    pairs: Seq<LinkPair>,
    force: bool,
    n: int,
    k: int,
)
    requires
        0 <= k < n <= pairs.len(),
        dests_distinct(pairs),
    ensures
        state_at(run(fs, pairs, force, n), pairs[k].dest) == materialized(
            pairs[k].target,
            state_at(fs, pairs[k].dest),
            force,
        ),
    decreases n,
{
    if k == n - 1 {
        lemma_run_touches_only_its_dests(fs, pairs, force, n - 1, pairs[k].dest);
    } else {
        lemma_run_result(fs, pairs, force, n - 1, k);
    }
}

/// A second run over the same links changes nothing. Where no
/// destination occurs twice, every link of the second run is decided
/// against a destination that the first run has settled: the action does
/// not mutate, and the file system after the second run is the file
/// system after the first.
pub proof fn lemma_second_run_changes_nothing(
    fs: Map<Seq<char>, DestView>,
    pairs: Seq<LinkPair>,
    force: bool,
    k: int,
)
    requires
        dests_distinct(pairs),
        0 <= k <= pairs.len(),
    ensures
        run(run(fs, pairs, force, pairs.len() as int), pairs, force, k) == run(
            fs,
            pairs,
            force,
            pairs.len() as int,
        ),
        k < pairs.len() ==> !spec_decide(
            pairs[k].target,
            state_at(run(run(fs, pairs, force, pairs.len() as int), pairs, force, k), pairs[k].dest),
            force,
        ).spec_mutates(),
    decreases k,
{
    let once = run(fs, pairs, force, pairs.len() as int);
    if k > 0 {
        lemma_second_run_changes_nothing(fs, pairs, force, k - 1);
        let pair = pairs[k - 1];
        lemma_run_result(fs, pairs, force, pairs.len() as int, k - 1);
        lemma_second_run_is_idle(pair.target, state_at(fs, pair.dest), force);
        assert(once.contains_key(pair.dest));
        assert(run(once, pairs, force, k) =~= once);
    }
    if k < pairs.len() {
        let pair = pairs[k];
        lemma_run_result(fs, pairs, force, pairs.len() as int, k);
        lemma_second_run_is_idle(pair.target, state_at(fs, pair.dest), force);
    }
}

} // verus!
