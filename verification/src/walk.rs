//! The walk over a source tree that mirrors it with links.
//!
//! The walk is iterative, with an explicit stack. It never looks at the
//! file system itself: it names the pair to inspect next, the caller
//! inspects it, and the walk answers with the link to make, or descends.

use vstd::prelude::*;
use vstd::string::StringExecFns;
use crate::error::{LogLevel, Notice, NoticeView};
use crate::paths::{join_path, spec_join};
use crate::symlink::{decide, spec_decide, Conflict, DestState, DestView, LinkAction, Obstacle};

verus! {

/// A source path and the destination that is to mirror it.
#[derive(Debug)]
pub struct Pending {
    /// The source path, as it was named.
    pub target: String,
    /// The destination path.
    pub dest: String,
    /// The canonical paths of the directories that the walk has entered
    /// on its way to this pair, outermost first.
    pub trail: Vec<String>,
}

/// A `Pending` as mathematical values.
pub struct PendingView {
    pub target: Seq<char>,
    pub dest: Seq<char>,
    pub trail: Seq<Seq<char>>,
}

impl DeepView for Pending {
    type V = PendingView;

    open spec fn deep_view(&self) -> PendingView {
        PendingView { target: self.target@, dest: self.dest@, trail: self.trail.deep_view() }
    }
}

impl View for Pending {
    type V = PendingView;

    open spec fn view(&self) -> PendingView {
        self.deep_view()
    }
}

/// What the caller found for a pending pair.
#[derive(Debug)]
pub struct Inspection {
    /// The canonical path of the source.
    pub canonical: String,
    /// Whether the source is a directory.
    pub is_dir: bool,
    /// The names in the source directory, in the order they are to be
    /// visited; empty for anything else.
    pub names: Vec<String>,
    /// What is at the destination.
    pub dest: DestState,
}

/// An `Inspection` as mathematical values.
pub struct InspectionView {
    pub canonical: Seq<char>,
    pub is_dir: bool,
    pub names: Seq<Seq<char>>,
    pub dest: DestView,
}

impl DeepView for Inspection {
    type V = InspectionView;

    open spec fn deep_view(&self) -> InspectionView {
        InspectionView {
            canonical: self.canonical@,
            is_dir: self.is_dir,
            names: self.names.deep_view(),
            dest: self.dest.deep_view(),
        }
    }
}

impl View for Inspection {
    type V = InspectionView;

    open spec fn view(&self) -> InspectionView {
        self.deep_view()
    }
}

/// One link to materialize: the action at `dest` for a link to `target`.
#[derive(Debug)]
pub struct LinkTask {
    pub target: String,
    pub dest: String,
    pub action: LinkAction,
    /// Where the link that was found at `dest` leads, if one was found
    /// that leads anywhere.
    pub occupant: Option<String>,
}

/// A `LinkTask` as mathematical values.
pub struct LinkTaskView {
    pub target: Seq<char>,
    pub dest: Seq<char>,
    pub action: LinkAction,
    pub occupant: Option<Seq<char>>,
}

impl DeepView for LinkTask {
    type V = LinkTaskView;

    open spec fn deep_view(&self) -> LinkTaskView {
        LinkTaskView {
            target: self.target@,
            dest: self.dest@,
            action: self.action,
            occupant: self.occupant.deep_view(),
        }
    }
}

impl View for LinkTask {
    type V = LinkTaskView;

    open spec fn view(&self) -> LinkTaskView {
        self.deep_view()
    }
}

/// Where the link at a destination leads, if there is one and it leads
/// anywhere.
pub open spec fn spec_occupant(dest: DestView) -> Option<Seq<char>> {
    match dest {
        DestView::Symlink { resolved } => resolved,
        _ => None,
    }
}

/// What the user is told before a link task is carried out.
pub open spec fn spec_before(task: LinkTaskView) -> Option<NoticeView> {
    match task.action {
        LinkAction::Create => None,
        LinkAction::UpToDate => Some(
            NoticeView { level: LogLevel::Info, text: "Symlink up-to-date: "@ + task.dest },
        ),
        LinkAction::Replace(Obstacle::BrokenLink) => Some(
            NoticeView {
                level: LogLevel::Warning,
                text: "Destination "@ + task.dest + " is a broken symlink. Ignoring"@,
            },
        ),
        LinkAction::Replace(_) => Some(
            NoticeView {
                level: LogLevel::Warning,
                text: "Destination "@ + task.dest + " already exists. Removing"@,
            },
        ),
        LinkAction::Skip(Conflict::LinkedElsewhere) => Some(
            NoticeView {
                level: LogLevel::Warning,
                text: "Destination "@ + task.dest + " is symlinked to "@ + match task.occupant {
                    Some(path) => path,
                    None => Seq::empty(),
                } + ". Resolve manually."@,
            },
        ),
        LinkAction::Skip(Conflict::NotALink) => Some(
            NoticeView {
                level: LogLevel::Warning,
                text: "Destination "@ + task.dest
                    + " exists but it's not a symlink. Resolve manually"@,
            },
        ),
    }
}

/// What the user is told after a link task has been carried out.
pub open spec fn spec_after(task: LinkTaskView) -> Option<NoticeView> {
    if task.action.spec_mutates() {
        Some(
            NoticeView {
                level: LogLevel::Info,
                text: "Symlinked "@ + task.target + " -> "@ + task.dest,
            },
        )
    } else {
        None
    }
}

impl LinkTask {
    /// The notice to give before the task is carried out: a warning for
    /// what is removed or left in place, a word that the link is up to
    /// date, nothing for a link that is simply created.
    pub fn before(&self) -> (notice: Option<Notice>)
        ensures
            notice.deep_view() == spec_before(self@),
    {
        match self.action {
            LinkAction::Create => None,
            LinkAction::UpToDate => {
                let mut text = String::from_str("Symlink up-to-date: ");
                text.append(self.dest.as_str());
                Some(Notice { level: LogLevel::Info, text })
            },
            LinkAction::Replace(obstacle) => {
                let mut text = String::from_str("Destination ");
                text.append(self.dest.as_str());
                match obstacle {
                    Obstacle::BrokenLink => text.append(" is a broken symlink. Ignoring"),
                    _ => text.append(" already exists. Removing"),
                }
                Some(Notice { level: LogLevel::Warning, text })
            },
            LinkAction::Skip(conflict) => {
                let mut text = String::from_str("Destination ");
                text.append(self.dest.as_str());
                match conflict {
                    Conflict::LinkedElsewhere => {
                        text.append(" is symlinked to ");
                        match &self.occupant {
                            Some(path) => text.append(path.as_str()),
                            None => {
                                assert(text@ + Seq::<char>::empty() =~= text@);
                            },
                        }
                        text.append(". Resolve manually.");
                    },
                    Conflict::NotALink => {
                        text.append(" exists but it's not a symlink. Resolve manually");
                    },
                }
                Some(Notice { level: LogLevel::Warning, text })
            },
        }
    }

    /// The notice to give after the task has been carried out: that the
    /// link was made, where one was.
    pub fn after(&self) -> (notice: Option<Notice>)
        ensures
            notice.deep_view() == spec_after(self@),
    {
        if self.action.mutates() {
            let mut text = String::from_str("Symlinked ");
            text.append(self.target.as_str());
            text.append(" -> ");
            text.append(self.dest.as_str());
            Some(Notice { level: LogLevel::Info, text })
        } else {
            None
        }
    }
}

/// The state of a walk: the pairs still to visit, the next one last.
#[derive(Debug)]
pub struct Walk {
    pending: Vec<Pending>,
    force: bool,
    recursive: bool,
}

/// A `Walk` as mathematical values.
pub struct WalkView {
    pub pending: Seq<PendingView>,
    pub force: bool,
    pub recursive: bool,
}

impl View for Walk {
    type V = WalkView;

    closed spec fn view(&self) -> WalkView {
        WalkView {
            pending: self.pending.deep_view(),
            force: self.force,
            recursive: self.recursive,
        }
    }
}

impl WalkView {
    /// The invariant of a walk: no directory occurs twice on the trail of
    /// a pending pair, so a trail is never longer than the number of
    /// directories there are.
    pub open spec fn wf(self) -> bool {
        forall|k: int| 0 <= k < self.pending.len() ==> (#[trigger] self.pending[k]).trail.no_duplicates()
    }

    /// Whether the walk enters the source of the pair `p`: it is a
    /// directory, the walk is recursive, and the directory is not already
    /// on the trail. A directory on its own trail is reached through a
    /// cycle of links, and is linked as one node instead.
    pub open spec fn descends(self, p: PendingView, found: InspectionView) -> bool {
        found.is_dir && self.recursive && !p.trail.contains(found.canonical)
    }

    /// The pairs for the names in the directory of the pair `p`, the last
    /// name first.
    pub open spec fn children(p: PendingView, found: InspectionView) -> Seq<PendingView> {
        Seq::new(
            found.names.len(),
            |k: int|
                PendingView {
                    target: spec_join(found.canonical, found.names[found.names.len() - 1 - k]),
                    dest: spec_join(p.dest, found.names[found.names.len() - 1 - k]),
                    trail: p.trail.push(found.canonical),
                },
        )
    }

    /// The walk after its next pair has been inspected.
    pub open spec fn advanced(self, found: InspectionView) -> WalkView {
        if self.pending.len() == 0 {
            self
        } else {
            let p = self.pending.last();
            let rest = self.pending.drop_last();
            if self.descends(p, found) {
                WalkView { pending: rest + Self::children(p, found), ..self }
            } else {
                WalkView { pending: rest, ..self }
            }
        }
    }

    /// The link to make for the next pair, once it has been inspected:
    /// none where the walk descends or nothing is pending.
    pub open spec fn task(self, found: InspectionView) -> Option<LinkTaskView> {
        if self.pending.len() == 0 || self.descends(self.pending.last(), found) {
            None
        } else {
            Some(
                LinkTaskView {
                    target: found.canonical,
                    dest: self.pending.last().dest,
                    action: spec_decide(found.canonical, found.dest, self.force),
                    occupant: spec_occupant(found.dest),
                },
            )
        }
    }
}

/// A walk keeps its invariant when it advances.
pub proof fn lemma_advance_keeps_wf(w: WalkView, found: InspectionView)
    requires
        w.wf(),
    ensures
        w.advanced(found).wf(),
{
    if w.pending.len() > 0 {
        let p = w.pending.last();
        let rest = w.pending.drop_last();
        let next = w.advanced(found);
        assert forall|k: int| 0 <= k < next.pending.len() implies (
        #[trigger] next.pending[k]).trail.no_duplicates() by {
            if k < rest.len() {
                assert(next.pending[k] == w.pending[k]);
            } else {
                assert(w.descends(p, found));
                let trail = p.trail.push(found.canonical);
                assert(next.pending[k].trail == trail);
                assert(p.trail.no_duplicates());
                assert forall|a: int, b: int| 0 <= a < trail.len() && 0 <= b < trail.len() && a
                    != b implies trail[a] != trail[b] by {
                    if a < p.trail.len() && b < p.trail.len() {
                    } else if a < p.trail.len() {
                        assert(p.trail.contains(p.trail[a]));
                    } else {
                        assert(p.trail.contains(p.trail[b]));
                    }
                }
            }
        }
    }
}

fn clone_strings(v: &Vec<String>) -> (r: Vec<String>)
    ensures
        r.deep_view() == v.deep_view(),
{
    let mut r: Vec<String> = Vec::new();
    let mut k: usize = 0;
    while k < v.len()
        invariant
            k <= v.len(),
            r.len() == k,
            forall|j: int| 0 <= j < k ==> (#[trigger] r[j])@ == v[j]@,
        decreases v.len() - k,
    {
        r.push(v[k].clone());
        k = k + 1;
    }
    assert(r.deep_view() =~= v.deep_view());
    r
}

fn contains(v: &Vec<String>, s: &String) -> (b: bool)
    ensures
        b == v.deep_view().contains(s@),
{
    let mut k: usize = 0;
    while k < v.len()
        invariant
            k <= v.len(),
            forall|j: int| 0 <= j < k ==> (#[trigger] v.deep_view()[j]) != s@,
        decreases v.len() - k,
    {
        if v[k] == *s {
            assert(v.deep_view()[k as int] == s@);
            return true;
        }
        k = k + 1;
    }
    false
}

impl Walk {
    #[verifier::type_invariant]
    spec fn inv(&self) -> bool {
        self@.wf()
    }

    /// A walk that mirrors `target` at `dest`.
    pub fn new(target: String, dest: String, force: bool, recursive: bool) -> (w: Walk)
        ensures
            w@ == (WalkView {
                pending: seq![PendingView { target: target@, dest: dest@, trail: Seq::empty() }],
                force,
                recursive,
            }),
    {
        let mut pending: Vec<Pending> = Vec::new();
        pending.push(Pending { target, dest, trail: Vec::new() });
        assert(pending[0].trail.deep_view() =~= Seq::<Seq<char>>::empty());
        assert(pending.deep_view() =~= seq![
            PendingView { target: target@, dest: dest@, trail: Seq::<Seq<char>>::empty() },
        ]);
        Walk { pending, force, recursive }
    }

    /// The pair to inspect next; `None` when the walk is over. No
    /// directory occurs twice on the trail of the pair.
    pub fn next(&self) -> (p: Option<&Pending>)
        ensures
            match p {
                Some(p) => self@.pending.len() > 0 && p@ == self@.pending.last()
                    && p@.trail.no_duplicates(),
                None => self@.pending.len() == 0,
            },
    {
        proof {
            use_type_invariant(self);
        }
        let n = self.pending.len();
        if n == 0 {
            None
        } else {
            Some(&self.pending[n - 1])
        }
    }

    /// Whether the caller is to list the names of a source that is a
    /// directory: only a recursive walk looks at them.
    pub fn lists_directories(&self) -> (b: bool)
        ensures
            b == self@.recursive,
    {
        self.recursive
    }

    /// Takes what the caller found for the next pair. The walk either
    /// enters the directory, and returns nothing, or returns the link to
    /// make for the pair. With nothing pending, nothing happens.
    pub fn advance(&mut self, found: Inspection) -> (task: Option<LinkTask>)
        ensures
            final(self)@ == old(self)@.advanced(found@),
            task.deep_view() == old(self)@.task(found@),
    {
        proof {
            use_type_invariant(&*self);
            lemma_advance_keeps_wf(self@, found@);
        }
        let force = self.force;
        let recursive = self.recursive;
        let mut taken = Walk { pending: Vec::new(), force, recursive };
        core::mem::swap(self, &mut taken);
        let mut pending = taken.pending;
        let p = match pending.pop() {
            Some(p) => p,
            None => {
                assert(self.pending.deep_view() =~= old(self)@.pending);
                return None;
            },
        };
        let ghost rest = pending.deep_view();
        assert(rest =~= old(self)@.pending.drop_last());
        assert(p@ == old(self)@.pending.last());
        if found.is_dir && recursive && !contains(&p.trail, &found.canonical) {
            let mut trail = clone_strings(&p.trail);
            trail.push(found.canonical.clone());
            assert(trail.deep_view() =~= p@.trail.push(found@.canonical));
            let ghost kids = WalkView::children(p@, found@);
            let n = found.names.len();
            let mut k: usize = 0;
            assert(pending.deep_view() =~= rest + kids.take(0));
            while k < n
                invariant
                    k <= n,
                    n == found.names.len(),
                    kids == WalkView::children(p@, found@),
                    trail.deep_view() == p@.trail.push(found@.canonical),
                    pending.deep_view() == rest + kids.take(k as int),
                decreases n - k,
            {
                let name = found.names[n - 1 - k].as_str();
                let child = Pending {
                    target: join_path(found.canonical.as_str(), name),
                    dest: join_path(p.dest.as_str(), name),
                    trail: clone_strings(&trail),
                };
                assert(child@ == kids[k as int]);
                let ghost before = pending.deep_view();
                pending.push(child);
                assert(pending.deep_view() =~= before.push(child@));
                assert(kids.take(k + 1) =~= kids.take(k as int).push(kids[k as int]));
                assert(pending.deep_view() =~= rest + kids.take(k + 1));
                k = k + 1;
            }
            assert(kids.take(n as int) =~= kids);
            *self = Walk { pending, force, recursive };
            None
        } else {
            let action = decide(found.canonical.as_str(), &found.dest, force);
            let occupant = match found.dest {
                DestState::Symlink { resolved } => resolved,
                _ => None,
            };
            *self = Walk { pending, force, recursive };
            Some(LinkTask { target: found.canonical, dest: p.dest, action, occupant })
        }
    }
}

} // verus!
