//! The manifest: palette options, user variables, and the named entries to
//! materialize.

use vstd::prelude::*;
use vstd::string::StringExecFns;

verus! {

/// One unit of materialization: a destination, with an optional link
/// target, an optional template, and the hooks that bracket it.
#[derive(Debug, Clone)]
pub struct Entry {
    /// The path to link to; without one the entry is template-only.
    pub target: Option<String>,
    /// The path that is created.
    pub dest: String,
    /// The template whose rendering is written to `dest`.
    pub template: Option<String>,
    /// Whether a directory target is mirrored file by file, rather than
    /// linked as one node.
    pub recursive: bool,
    /// Commands run before the entry is processed, in order.
    pub pre_hooks: Vec<String>,
    /// Commands run after the entry is processed, in order.
    pub post_hooks: Vec<String>,
}

/// An `Entry` as mathematical values.
pub struct EntryView {
    pub target: Option<Seq<char>>,
    pub dest: Seq<char>,
    pub template: Option<Seq<char>>,
    pub recursive: bool,
    pub pre_hooks: Seq<Seq<char>>,
    pub post_hooks: Seq<Seq<char>>,
}

impl DeepView for Entry {
    type V = EntryView;

    open spec fn deep_view(&self) -> EntryView {
        EntryView {
            target: self.target.deep_view(),
            dest: self.dest@,
            template: self.template.deep_view(),
            recursive: self.recursive,
            pre_hooks: self.pre_hooks.deep_view(),
            post_hooks: self.post_hooks.deep_view(),
        }
    }
}

impl View for Entry {
    type V = EntryView;

    open spec fn view(&self) -> EntryView {
        self.deep_view()
    }
}

/// The entries declared under one name, in manifest order.
#[derive(Debug, Clone)]
pub struct EntryGroup {
    pub name: String,
    pub entries: Vec<Entry>,
}

/// An `EntryGroup` as mathematical values.
pub struct EntryGroupView {
    pub name: Seq<char>,
    pub entries: Seq<EntryView>,
}

impl DeepView for EntryGroup {
    type V = EntryGroupView;

    open spec fn deep_view(&self) -> EntryGroupView {
        EntryGroupView { name: self.name@, entries: self.entries.deep_view() }
    }
}

impl View for EntryGroup {
    type V = EntryGroupView;

    open spec fn view(&self) -> EntryGroupView {
        self.deep_view()
    }
}

/// The palette options of a manifest.
#[derive(Debug, Clone)]
pub struct Options {
    /// The image that the palette is derived from.
    pub wallpaper: Option<String>,
    /// `dark` or `light`.
    pub theme: String,
    /// The name of the scheme variant.
    pub variant: String,
}

/// `Options` as mathematical values.
pub struct OptionsView {
    pub wallpaper: Option<Seq<char>>,
    pub theme: Seq<char>,
    pub variant: Seq<char>,
}

impl DeepView for Options {
    type V = OptionsView;

    open spec fn deep_view(&self) -> OptionsView {
        OptionsView {
            wallpaper: self.wallpaper.deep_view(),
            theme: self.theme@,
            variant: self.variant@,
        }
    }
}

impl View for Options {
    type V = OptionsView;

    open spec fn view(&self) -> OptionsView {
        self.deep_view()
    }
}

/// The top-level configuration.
#[derive(Debug, Clone)]
pub struct Manifest {
    pub options: Options,
    /// User variables, as name and value; a later pair overrides an
    /// earlier one of the same name.
    pub variables: Vec<(String, String)>,
    /// The entry groups, in declared order.
    pub entries: Vec<EntryGroup>,
}

/// A `Manifest` as mathematical values.
pub struct ManifestView {
    pub options: OptionsView,
    pub variables: Seq<(Seq<char>, Seq<char>)>,
    pub entries: Seq<EntryGroupView>,
}

impl DeepView for Manifest {
    type V = ManifestView;

    open spec fn deep_view(&self) -> ManifestView {
        ManifestView {
            options: self.options.deep_view(),
            variables: self.variables.deep_view(),
            entries: self.entries.deep_view(),
        }
    }
}

impl View for Manifest {
    type V = ManifestView;

    open spec fn view(&self) -> ManifestView {
        self.deep_view()
    }
}

/// The theme of a manifest that names none.
pub fn default_theme_option() -> (s: String)
    ensures
        s@ == "dark"@,
{
    String::from_str("dark")
}

/// The variant of a manifest that names none.
pub fn default_variant_option() -> (s: String)
    ensures
        s@ == "tonal_spot"@,
{
    String::from_str("tonal_spot")
}

/// Whether an entry that does not say so is recursive: it is not.
pub fn default_recursive_option() -> (b: bool)
    ensures
        !b,
{
    false
}

impl EntryGroupView {
    /// Whether some entry of the group declares a template.
    pub open spec fn has_templates(self) -> bool {
        exists|j: int| 0 <= j < self.entries.len() && (#[trigger] self.entries[j]).template is Some
    }
}

impl ManifestView {
    /// Whether some entry of the manifest declares a template.
    pub open spec fn has_templates(self) -> bool {
        exists|i: int| 0 <= i < self.entries.len() && (#[trigger] self.entries[i]).has_templates()
    }

    /// The invariant of a manifest: no two groups share a name.
    pub open spec fn names_unique(self) -> bool {
        forall|i: int, j: int|
            0 <= i < j < self.entries.len() ==> (#[trigger] self.entries[i]).name != (
            #[trigger] self.entries[j]).name
    }
}

impl EntryGroup {
    /// Whether some entry of the group declares a template.
    pub fn has_templates(&self) -> (b: bool)
        ensures
            b == self@.has_templates(),
    {
        let mut j: usize = 0;
        while j < self.entries.len()
            invariant
                j <= self.entries.len(),
                forall|k: int| 0 <= k < j ==> (#[trigger] self@.entries[k]).template is None,
            decreases self.entries.len() - j,
        {
            if self.entries[j].template.is_some() {
                assert(self@.entries[j as int].template is Some);
                return true;
            }
            j = j + 1;
        }
        false
    }
}

/// Whether some entry of the manifest declares a template.
pub fn has_templates(manifest: &Manifest) -> (b: bool)
    ensures
        b == manifest@.has_templates(),
{
    let mut i: usize = 0;
    while i < manifest.entries.len()
        invariant
            i <= manifest.entries.len(),
            forall|k: int| 0 <= k < i ==> !(#[trigger] manifest@.entries[k]).has_templates(),
        decreases manifest.entries.len() - i,
    {
        if manifest.entries[i].has_templates() {
            assert(manifest@.entries[i as int].has_templates());
            return true;
        }
        i = i + 1;
    }
    false
}

impl Manifest {
    /// Whether the manifest keeps its invariant: no two groups share a
    /// name.
    pub fn names_unique(&self) -> (b: bool)
        ensures
            b == self@.names_unique(),
    {
        let n = self.entries.len();
        let mut j: usize = 0;
        while j < n
            invariant
                n == self.entries.len(),
                j <= n,
                forall|a: int, b: int|
                    0 <= a < b < j ==> (#[trigger] self@.entries[a]).name != (
                    #[trigger] self@.entries[b]).name,
            decreases n - j,
        {
            let mut i: usize = 0;
            while i < j
                invariant
                    n == self.entries.len(),
                    i <= j < n,
                    forall|a: int|
                        0 <= a < i ==> (#[trigger] self@.entries[a]).name != self@.entries[j as int].name,
                decreases j - i,
            {
                if self.entries[i].name == self.entries[j].name {
                    assert(self@.entries[i as int].name == self@.entries[j as int].name);
                    return false;
                }
                i = i + 1;
            }
            j = j + 1;
        }
        true
    }
}

} // verus!
