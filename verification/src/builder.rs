//! Assembly of the template context from a manifest: the wallpaper's
//! palette, flattened, with the user's variables on top.

use vstd::prelude::*;
use vstd::string::StringExecFns;
use crate::context::{lemma_overlay_last_wins, overlay_all, Context};
use crate::error::{Error, ErrorKind, ErrorView};
use crate::manifest::{has_templates, Manifest, ManifestView};
use crate::palette::{derive_palette, spec_palette, Wallpaper, WallpaperView};
use crate::plan::missing_wallpaper;

verus! {

/// The error for a wallpaper that the manifest declares and the caller
/// did not load.
pub open spec fn wallpaper_not_loaded(declared: Seq<char>) -> ErrorView {
    ErrorView { kind: ErrorKind::Image, ctx: "Could not load image "@ + declared }
}

/// A context and whether a palette went into it.
pub struct Built {
    pub context: Map<Seq<char>, Seq<char>>,
    pub with_palette: bool,
}

/// The context that `base` becomes for the manifest `m`, where
/// `wallpaper` is the decoded wallpaper, if the caller loaded one.
///
/// With a wallpaper declared, the context gets its canonical path as
/// `wallpaper`, then the palette. Without one, a manifest that declares a
/// template anywhere is an error, and any other gets no palette. The
/// user's variables are written last, so they win over every other key.
pub open spec fn spec_context(
    base: Map<Seq<char>, Seq<char>>,
    m: ManifestView,
    wallpaper: Option<WallpaperView>,
) -> Result<Built, ErrorView> {
    match m.options.wallpaper {
        Some(declared) => match wallpaper {
            Some(w) => match spec_palette(w.spec_seed(), m.options.theme, m.options.variant) {
                Ok(p) => Ok(
                    Built {
                        context: overlay_all(
                            overlay_all(base.insert("wallpaper"@, w.path), p.pairs()),
                            m.variables,
                        ),
                        with_palette: true,
                    },
                ),
                Err(e) => Err(e),
            },
            None => Err(wallpaper_not_loaded(declared)),
        },
        None => if m.has_templates() {
            Err(missing_wallpaper())
        } else {
            Ok(Built { context: overlay_all(base, m.variables), with_palette: false })
        },
    }
}

/// Builds the template context for `manifest` into `context`.
///
/// `wallpaper` is the decoded image of the wallpaper that the manifest
/// declares; it is ignored where the manifest declares none. The result
/// says whether a palette was generated. On an error the context is left
/// as it was.
pub fn create_context_map(
    context: &mut Context,
    manifest: &Manifest,
    wallpaper: Option<&Wallpaper>,
) -> (r: Result<bool, Error>)
    ensures
        match spec_context(old(context)@, manifest@, wallpaper.deep_view()) {
            Ok(built) => r == Ok::<bool, Error>(built.with_palette) && final(context)@
                == built.context,
            Err(e) => r is Err && r->Err_0@ == e && final(context)@ == old(context)@,
        },
{
    let with_palette = match &manifest.options.wallpaper {
        Some(declared) => match wallpaper {
            Some(w) => {
                let palette = match derive_palette(
                    w,
                    manifest.options.theme.as_str(),
                    manifest.options.variant.as_str(),
                ) {
                    Ok(palette) => palette,
                    Err(e) => {
                        return Err(e);
                    },
                };
                context.insert(String::from_str("wallpaper"), w.path.clone());
                let pairs = palette.pairs();
                context.extend(&pairs);
                true
            },
            None => {
                return Err(
                    Error::with_detail(ErrorKind::Image, "Could not load image ", declared.as_str()),
                );
            },
        },
        None => {
            if has_templates(manifest) {
                return Err(
                    Error::new(
                        ErrorKind::MissingWallpaper,
                        String::from_str("could not generate color palette: wallpaper is not set."),
                    ),
                );
            }
            false
        },
    };
    context.extend(&manifest.variables);
    Ok(with_palette)
}

/// A user variable wins: in the context that is built, the value of a
/// variable's name is the variable's value, whatever the palette or the
/// context before held under that name. Where the manifest declares a
/// name more than once, the last declaration is the one that counts.
pub proof fn lemma_user_variables_win(
    base: Map<Seq<char>, Seq<char>>,
    m: ManifestView,
    wallpaper: Option<WallpaperView>,
    i: int,
)
    requires
        spec_context(base, m, wallpaper) is Ok,
        0 <= i < m.variables.len(),
        forall|j: int| i < j < m.variables.len() ==> (#[trigger] m.variables[j]).0 != m.variables[i].0,
    ensures
        spec_context(base, m, wallpaper)->Ok_0.context.contains_key(m.variables[i].0),
        spec_context(base, m, wallpaper)->Ok_0.context[m.variables[i].0] == m.variables[i].1,
{
    let below = match m.options.wallpaper {
        Some(_) => overlay_all(
            base.insert("wallpaper"@, wallpaper->0.path),
            spec_palette(wallpaper->0.spec_seed(), m.options.theme, m.options.variant)->Ok_0.pairs(),
        ),
        None => base,
    };
    lemma_overlay_last_wins(below, m.variables, m.variables.len() as int, i);
}

} // verus!
