//! The operations: which steps `sync`, `link` and `generate` take for a
//! manifest, and in which order.
//!
//! Planning touches nothing. The caller runs the steps one after another
//! and stops at the first that fails.

use vstd::prelude::*;
use vstd::string::StringExecFns;
use crate::cli::{SubCommand, SubCommandView};
use crate::error::{Error, ErrorKind, ErrorView, LogLevel, Notice, NoticeView};
use crate::manifest::{Entry, EntryGroup, EntryGroupView, EntryView, Manifest, ManifestView};

verus! {

/// Whether a hook runs before or after its entry is processed.
#[derive(Clone, Copy, Debug, PartialEq, Eq, Structural)]
pub enum Phase {
    Pre,
    Post,
}

/// One unit of work for the caller.
#[derive(Debug)]
pub enum Step {
    /// Build the template context; see `create_context_map`.
    BuildContext,
    /// Run the shell command `command` of the entry `entry`.
    Hook { entry: String, phase: Phase, command: String },
    /// Materialize `dest` as a link to `target`.
    Link { entry: String, target: String, dest: String, force: bool, recursive: bool },
    /// Render `template` and write the result to `dest`.
    Render { entry: String, template: String, dest: String },
}

/// A `Step` as mathematical values.
pub enum StepView {
    BuildContext,
    Hook { entry: Seq<char>, phase: Phase, command: Seq<char> },
    Link { entry: Seq<char>, target: Seq<char>, dest: Seq<char>, force: bool, recursive: bool },
    Render { entry: Seq<char>, template: Seq<char>, dest: Seq<char> },
}

impl DeepView for Step {
    type V = StepView;

    open spec fn deep_view(&self) -> StepView {
        match *self {
            Step::BuildContext => StepView::BuildContext,
            Step::Hook { entry, phase, command } => StepView::Hook {
                entry: entry@,
                phase,
                command: command@,
            },
            Step::Link { entry, target, dest, force, recursive } => StepView::Link {
                entry: entry@,
                target: target@,
                dest: dest@,
                force,
                recursive,
            },
            Step::Render { entry, template, dest } => StepView::Render {
                entry: entry@,
                template: template@,
                dest: dest@,
            },
        }
    }
}

impl View for Step {
    type V = StepView;

    open spec fn view(&self) -> StepView {
        self.deep_view()
    }
}

impl SubCommandView {
    /// Whether the operation materializes symlinks.
    pub open spec fn links(self) -> bool {
        self is Sync || self is Link
    }

    /// Whether the operation renders templates.
    pub open spec fn renders(self) -> bool {
        self is Sync || self is Generate
    }

    /// Whether the operation runs the entries' hooks.
    pub open spec fn runs_hooks(self) -> bool {
        self is Sync
    }

    /// Whether existing destinations may be replaced.
    pub open spec fn force(self) -> bool {
        match self {
            SubCommandView::Sync { force, .. } => force,
            SubCommandView::Link { force, .. } => force,
            SubCommandView::Generate { .. } => false,
        }
    }

    /// The one entry name that the operation is restricted to, if any.
    pub open spec fn name(self) -> Option<Seq<char>> {
        match self {
            SubCommandView::Sync { name, .. } => name,
            SubCommandView::Link { name, .. } => name,
            SubCommandView::Generate { name } => name,
        }
    }
}

/// The first `n` of the hook commands `commands` of the entry `entry`, as
/// steps.
pub open spec fn hook_steps(entry: Seq<char>, phase: Phase, commands: Seq<Seq<char>>, n: int) -> Seq<
    StepView,
> {
    Seq::new(
        if n < 0 {
            0
        } else {
            n as nat
        },
        |k: int| StepView::Hook { entry, phase, command: commands[k] },
    )
}

/// The link step of an entry under `op`, if it has one.
pub open spec fn link_steps(op: SubCommandView, name: Seq<char>, e: EntryView) -> Seq<StepView> {
    if op.links() && e.target is Some {
        seq![
            StepView::Link {
                entry: name,
                target: e.target->0,
                dest: e.dest,
                force: op.force(),
                recursive: e.recursive,
            },
        ]
    } else {
        Seq::empty()
    }
}

/// The render step of an entry under `op`, if it has one.
pub open spec fn render_steps(op: SubCommandView, name: Seq<char>, e: EntryView) -> Seq<StepView> {
    if op.renders() && e.template is Some {
        seq![StepView::Render { entry: name, template: e.template->0, dest: e.dest }]
    } else {
        Seq::empty()
    }
}

/// The steps of one entry: its link, then its rendering, bracketed by its
/// hooks where the operation runs hooks.
pub open spec fn entry_steps(op: SubCommandView, name: Seq<char>, e: EntryView) -> Seq<StepView> {
    let pre = if op.runs_hooks() {
        hook_steps(name, Phase::Pre, e.pre_hooks, e.pre_hooks.len() as int)
    } else {
        Seq::empty()
    };
    let post = if op.runs_hooks() {
        hook_steps(name, Phase::Post, e.post_hooks, e.post_hooks.len() as int)
    } else {
        Seq::empty()
    };
    pre + link_steps(op, name, e) + render_steps(op, name, e) + post
}

/// The steps of the first `n` entries of the group `g`, in order.
pub open spec fn group_steps(op: SubCommandView, g: EntryGroupView, n: int) -> Seq<StepView>
    decreases n,
{
    if n <= 0 {
        Seq::empty()
    } else {
        group_steps(op, g, n - 1) + entry_steps(op, g.name, g.entries[n - 1])
    }
}

/// The steps of the first `n` of the groups `groups`, in order.
pub open spec fn groups_steps(op: SubCommandView, groups: Seq<EntryGroupView>, n: int) -> Seq<
    StepView,
>
    decreases n,
{
    if n <= 0 {
        Seq::empty()
    } else {
        groups_steps(op, groups, n - 1) + group_steps(
            op,
            groups[n - 1],
            groups[n - 1].entries.len() as int,
        )
    }
}

/// The index of the first group from index `i` on whose name is `name`.
pub open spec fn find_group(groups: Seq<EntryGroupView>, name: Seq<char>, i: int) -> Option<int>
    decreases groups.len() - i,
{
    if i < 0 || i >= groups.len() {
        None
    } else if groups[i].name == name {
        Some(i)
    } else {
        find_group(groups, name, i + 1)
    }
}

/// The groups that the operation applies to: all of them, or the one that
/// is named; `None` where the name is not in the manifest.
pub open spec fn selected(m: ManifestView, op: SubCommandView) -> Option<Seq<EntryGroupView>> {
    match op.name() {
        None => Some(m.entries),
        Some(name) => match find_group(m.entries, name, 0) {
            Some(i) => Some(seq![m.entries[i]]),
            None => None,
        },
    }
}

/// Whether some of the groups declares a template.
pub open spec fn any_templates(groups: Seq<EntryGroupView>) -> bool {
    exists|i: int| 0 <= i < groups.len() && (#[trigger] groups[i]).has_templates()
}

/// The message for an entry name that the manifest does not hold.
pub open spec fn entry_not_found(name: Seq<char>) -> ErrorView {
    ErrorView { kind: ErrorKind::EntryNotFound, ctx: "could not find "@ + name }
}

/// The message for a template that needs a palette where no wallpaper is
/// configured.
pub open spec fn missing_wallpaper() -> ErrorView {
    ErrorView {
        kind: ErrorKind::MissingWallpaper,
        ctx: "could not generate color palette: wallpaper is not set."@,
    }
}

/// The plan of the operation `op` on the manifest `m`.
///
/// An unknown entry name fails before anything else. Where a selected
/// entry is to be rendered, the context is built first, once, and a
/// manifest without wallpaper fails instead, with no step taken. The
/// entries then follow in manifest order.
pub open spec fn spec_plan(m: ManifestView, op: SubCommandView) -> Result<Seq<StepView>, ErrorView> {
    match selected(m, op) {
        None => Err(entry_not_found(op.name()->0)),
        Some(groups) => {
            let steps = groups_steps(op, groups, groups.len() as int);
            if op.renders() && any_templates(groups) {
                if m.options.wallpaper is None {
                    Err(missing_wallpaper())
                } else {
                    Ok(seq![StepView::BuildContext] + steps)
                }
            } else {
                Ok(steps)
            }
        },
    }
}

/// Whether a step belongs to what the operation `op` does: a hook only
/// where hooks are run, a link only where links are made and with the
/// operation's `force`, a rendering only where templates are rendered.
pub open spec fn fits(op: SubCommandView, step: StepView) -> bool {
    match step {
        StepView::BuildContext => op.renders(),
        StepView::Hook { .. } => op.runs_hooks(),
        StepView::Link { force, .. } => op.links() && force == op.force(),
        StepView::Render { .. } => op.renders(),
    }
}

proof fn lemma_group_steps_fit(op: SubCommandView, g: EntryGroupView, n: int)
    requires
        0 <= n <= g.entries.len(),
    ensures
        forall|k: int|
            0 <= k < group_steps(op, g, n).len() ==> fits(op, #[trigger] group_steps(op, g, n)[k])
                && !(group_steps(op, g, n)[k] is BuildContext),
    decreases n,
{
    if n > 0 {
        lemma_group_steps_fit(op, g, n - 1);
    }
}

proof fn lemma_groups_steps_fit(op: SubCommandView, groups: Seq<EntryGroupView>, n: int)
    requires
        0 <= n <= groups.len(),
    ensures
        forall|k: int|
            0 <= k < groups_steps(op, groups, n).len() ==> fits(
                op,
                #[trigger] groups_steps(op, groups, n)[k],
            ) && !(groups_steps(op, groups, n)[k] is BuildContext),
    decreases n,
{
    if n > 0 {
        lemma_groups_steps_fit(op, groups, n - 1);
        lemma_group_steps_fit(op, groups[n - 1], groups[n - 1].entries.len() as int);
    }
}

/// A plan holds only what its operation does: `link` plans links and
/// nothing else, `generate` plans the context and renderings and nothing
/// else, and only `sync` plans hooks. The context is built at most once,
/// before every other step.
pub proof fn lemma_plan_fits_operation(m: ManifestView, op: SubCommandView)
    requires
        spec_plan(m, op) is Ok,
    ensures
        forall|k: int|
            0 <= k < spec_plan(m, op)->Ok_0.len() ==> fits(op, #[trigger] spec_plan(m, op)->Ok_0[k]),
        forall|k: int|
            0 <= k < spec_plan(m, op)->Ok_0.len() && (#[trigger] spec_plan(m, op)->Ok_0[k])
                is BuildContext ==> k == 0,
{
    let groups = selected(m, op)->0;
    lemma_groups_steps_fit(op, groups, groups.len() as int);
}

impl Phase {
    /// The word for the phase in a notice.
    pub open spec fn spec_word(self) -> Seq<char> {
        match self {
            Phase::Pre => "pre"@,
            Phase::Post => "post"@,
        }
    }

    /// The word for the phase in a notice.
    pub fn word(&self) -> (s: &'static str)
        ensures
            s@ == self.spec_word(),
    {
        match self {
            Phase::Pre => "pre",
            Phase::Post => "post",
        }
    }
}

/// What the user is told before a step is taken: only a hook is
/// announced.
pub open spec fn spec_announcement(step: StepView) -> Option<NoticeView> {
    match step {
        StepView::Hook { entry, phase, command } => Some(
            NoticeView {
                level: LogLevel::Info,
                text: "Executing "@ + phase.spec_word() + "-hook in "@ + entry + ": "@ + command,
            },
        ),
        _ => None,
    }
}

/// The error that the run ends with when a step fails with `cause`. A
/// failed link or rendering names its entry, on a line before the cause;
/// the class of the error stays.
pub open spec fn spec_failure(step: StepView, cause: ErrorView) -> ErrorView {
    match step {
        StepView::Link { entry, .. } => ErrorView {
            kind: cause.kind,
            ctx: "something went wrong while symlinking "@ + entry + ":\n    "@ + cause.ctx,
        },
        StepView::Render { entry, .. } => ErrorView {
            kind: cause.kind,
            ctx: "something went wrong while generating "@ + entry + ":\n    "@ + cause.ctx,
        },
        _ => cause,
    }
}

impl Step {
    /// The notice to give before the step is taken.
    pub fn announcement(&self) -> (notice: Option<Notice>)
        ensures
            notice.deep_view() == spec_announcement(self@),
    {
        match self {
            Step::Hook { entry, phase, command } => {
                let mut text = String::from_str("Executing ");
                text.append(phase.word());
                text.append("-hook in ");
                text.append(entry.as_str());
                text.append(": ");
                text.append(command.as_str());
                Some(Notice { level: LogLevel::Info, text })
            },
            _ => None,
        }
    }

    /// The error that the run ends with when this step fails with
    /// `cause`.
    pub fn failure(&self, cause: Error) -> (e: Error)
        ensures
            e@ == spec_failure(self@, cause@),
    {
        let (what, entry) = match self {
            Step::Link { entry, .. } => ("something went wrong while symlinking ", entry),
            Step::Render { entry, .. } => ("something went wrong while generating ", entry),
            _ => {
                return cause;
            },
        };
        let mut ctx = String::from_str(what);
        ctx.append(entry.as_str());
        ctx.append(":\n    ");
        ctx.append(cause.message().as_str());
        Error::new(cause.kind(), ctx)
    }
}

impl SubCommand {
    /// Whether the operation materializes symlinks.
    pub fn links(&self) -> (b: bool)
        ensures
            b == self@.links(),
    {
        match self {
            SubCommand::Sync { .. } => true,
            SubCommand::Link { .. } => true,
            SubCommand::Generate { .. } => false,
        }
    }

    /// Whether the operation renders templates.
    pub fn renders(&self) -> (b: bool)
        ensures
            b == self@.renders(),
    {
        match self {
            SubCommand::Sync { .. } => true,
            SubCommand::Link { .. } => false,
            SubCommand::Generate { .. } => true,
        }
    }

    /// Whether the operation runs the entries' hooks.
    pub fn runs_hooks(&self) -> (b: bool)
        ensures
            b == self@.runs_hooks(),
    {
        match self {
            SubCommand::Sync { .. } => true,
            _ => false,
        }
    }

    /// Whether existing destinations may be replaced.
    pub fn force(&self) -> (b: bool)
        ensures
            b == self@.force(),
    {
        match self {
            SubCommand::Sync { force, .. } => *force,
            SubCommand::Link { force, .. } => *force,
            SubCommand::Generate { .. } => false,
        }
    }

    /// The one entry name that the operation is restricted to, if any.
    pub fn name(&self) -> (n: Option<&String>)
        ensures
            n.deep_view() == self@.name(),
    {
        match self {
            SubCommand::Sync { name, .. } => name.as_ref(),
            SubCommand::Link { name, .. } => name.as_ref(),
            SubCommand::Generate { name } => name.as_ref(),
        }
    }
}

fn push_step(steps: &mut Vec<Step>, step: Step)
    ensures
        final(steps).deep_view() == old(steps).deep_view().push(step.deep_view()),
{
    steps.push(step);
    assert(steps.deep_view() =~= old(steps).deep_view().push(step.deep_view()));
}

fn push_hooks(steps: &mut Vec<Step>, entry: &String, phase: Phase, commands: &Vec<String>)
    ensures
        final(steps).deep_view() == old(steps).deep_view() + hook_steps(
            entry@,
            phase,
            commands.deep_view(),
            commands.len() as int,
        ),
{
    let ghost before = steps.deep_view();
    let mut k: usize = 0;
    assert(steps.deep_view() =~= before + hook_steps(entry@, phase, commands.deep_view(), 0));
    while k < commands.len()
        invariant
            k <= commands.len(),
            steps.deep_view() == before + hook_steps(
                entry@,
                phase,
                commands.deep_view(),
                k as int,
            ),
        decreases commands.len() - k,
    {
        let ghost prev = steps.deep_view();
        push_step(steps, Step::Hook { entry: entry.clone(), phase, command: commands[k].clone() });
        assert(steps.deep_view() =~= before + hook_steps(
            entry@,
            phase,
            commands.deep_view(),
            k + 1,
        ));
        k = k + 1;
    }
}

fn push_entry(steps: &mut Vec<Step>, op: &SubCommand, name: &String, e: &Entry)
    ensures
        final(steps).deep_view() == old(steps).deep_view() + entry_steps(op@, name@, e@),
{
    let ghost before = steps.deep_view();
    let ghost pre = if op@.runs_hooks() {
        hook_steps(name@, Phase::Pre, e@.pre_hooks, e@.pre_hooks.len() as int)
    } else {
        Seq::empty()
    };
    let ghost post = if op@.runs_hooks() {
        hook_steps(name@, Phase::Post, e@.post_hooks, e@.post_hooks.len() as int)
    } else {
        Seq::empty()
    };
    if op.runs_hooks() {
        push_hooks(steps, name, Phase::Pre, &e.pre_hooks);
    }
    assert(steps.deep_view() =~= before + pre);
    if op.links() {
        match &e.target {
            Some(target) => {
                push_step(
                    steps,
                    Step::Link {
                        entry: name.clone(),
                        target: target.clone(),
                        dest: e.dest.clone(),
                        force: op.force(),
                        recursive: e.recursive,
                    },
                );
            },
            None => {},
        }
    }
    assert(steps.deep_view() =~= before + pre + link_steps(op@, name@, e@));
    if op.renders() {
        match &e.template {
            Some(template) => {
                push_step(
                    steps,
                    Step::Render {
                        entry: name.clone(),
                        template: template.clone(),
                        dest: e.dest.clone(),
                    },
                );
            },
            None => {},
        }
    }
    assert(steps.deep_view() =~= before + pre + link_steps(op@, name@, e@) + render_steps(
        op@,
        name@,
        e@,
    ));
    if op.runs_hooks() {
        push_hooks(steps, name, Phase::Post, &e.post_hooks);
    }
    assert(steps.deep_view() =~= before + (pre + link_steps(op@, name@, e@) + render_steps(
        op@,
        name@,
        e@,
    ) + post));
}

fn push_group(steps: &mut Vec<Step>, op: &SubCommand, g: &EntryGroup)
    ensures
        final(steps).deep_view() == old(steps).deep_view() + group_steps(
            op@,
            g@,
            g@.entries.len() as int,
        ),
{
    let ghost before = steps.deep_view();
    let mut j: usize = 0;
    assert(steps.deep_view() =~= before + group_steps(op@, g@, 0));
    while j < g.entries.len()
        invariant
            j <= g.entries.len(),
            steps.deep_view() == before + group_steps(op@, g@, j as int),
        decreases g.entries.len() - j,
    {
        push_entry(steps, op, &g.name, &g.entries[j]);
        assert(g@.entries[j as int] == g.entries[j as int]@);
        assert(steps.deep_view() =~= before + group_steps(op@, g@, j + 1));
        j = j + 1;
    }
}

/// The index of the first group whose name is `name`.
fn find(groups: &Vec<EntryGroup>, name: &String) -> (r: Option<usize>)
    ensures
        match r {
            Some(i) => find_group(groups.deep_view(), name@, 0) == Some(i as int) && i
                < groups.len(),
            None => find_group(groups.deep_view(), name@, 0) is None,
        },
{
    let mut i: usize = 0;
    while i < groups.len()
        invariant
            i <= groups.len(),
            find_group(groups.deep_view(), name@, 0) == find_group(
                groups.deep_view(),
                name@,
                i as int,
            ),
        decreases groups.len() - i,
    {
        if groups[i].name == *name {
            return Some(i);
        }
        i = i + 1;
    }
    None
}

/// Plans the operation `subcommand` on `manifest`.
///
/// The result is the sequence of steps for the caller to run, or the
/// error that the operation ends with before any step is taken: an entry
/// name that the manifest does not hold, or a template to render where no
/// wallpaper is configured.
pub fn plan(manifest: &Manifest, subcommand: &SubCommand) -> (r: Result<Vec<Step>, Error>)
    ensures
        match r {
            Ok(steps) => spec_plan(manifest@, subcommand@) == Ok::<Seq<StepView>, ErrorView>(
                steps.deep_view(),
            ),
            Err(e) => spec_plan(manifest@, subcommand@) == Err::<Seq<StepView>, ErrorView>(e@),
        },
{
    let n = manifest.entries.len();
    let (lo, hi): (usize, usize) = match subcommand.name() {
        None => (0, n),
        Some(name) => match find(&manifest.entries, name) {
            Some(i) => (i, i + 1),
            None => {
                return Err(Error::with_detail(ErrorKind::EntryNotFound, "could not find ", name.as_str()));
            },
        },
    };
    let ghost groups = manifest@.entries.subrange(lo as int, hi as int);
    assert(selected(manifest@, subcommand@) == Some(groups)) by {
        if subcommand@.name() is None {
            assert(groups =~= manifest@.entries);
        } else {
            assert(groups =~= seq![manifest@.entries[lo as int]]);
        }
    }
    let mut steps: Vec<Step> = Vec::new();
    if subcommand.renders() {
        let mut found = false;
        let mut i: usize = lo;
        while i < hi && !found
            invariant
                lo <= i <= hi <= n,
                n == manifest.entries.len(),
                groups == manifest@.entries.subrange(lo as int, hi as int),
                found ==> any_templates(groups),
                !found ==> forall|k: int| 0 <= k < i - lo ==> !(#[trigger] groups[k]).has_templates(),
            decreases hi - i + if found { 0int } else { 1int },
        {
            if manifest.entries[i].has_templates() {
                assert(groups[i - lo].has_templates());
                found = true;
            } else {
                i = i + 1;
            }
        }
        if found {
            if manifest.options.wallpaper.is_none() {
                return Err(
                    Error::new(
                        ErrorKind::MissingWallpaper,
                        String::from_str("could not generate color palette: wallpaper is not set."),
                    ),
                );
            }
            push_step(&mut steps, Step::BuildContext);
        }
    }
    let ghost head = steps.deep_view();
    assert(head =~= if subcommand@.renders() && any_templates(groups) {
        seq![StepView::BuildContext]
    } else {
        Seq::empty()
    });
    let mut i: usize = lo;
    assert(steps.deep_view() =~= head + groups_steps(subcommand@, groups, 0));
    while i < hi
        invariant
            lo <= i <= hi <= n,
            n == manifest.entries.len(),
            groups == manifest@.entries.subrange(lo as int, hi as int),
            steps.deep_view() == head + groups_steps(subcommand@, groups, i - lo),
        decreases hi - i,
    {
        push_group(&mut steps, subcommand, &manifest.entries[i]);
        assert(groups[i - lo] == manifest.entries[i as int]@);
        assert(steps.deep_view() =~= head + groups_steps(subcommand@, groups, i - lo + 1));
        i = i + 1;
    }
    assert(steps.deep_view() =~= head + groups_steps(subcommand@, groups, groups.len() as int));
    Ok(steps)
}

} // verus!
