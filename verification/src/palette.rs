//! The palette of a wallpaper: its seed colour, the scheme that the seed
//! expands to, and the ramp blended from it.

use vstd::prelude::*;
use vstd::string::StringExecFns;
use material_colors::color::Argb;
use material_colors::dynamic_color::Variant as SchemeVariant;
use material_colors::theme::ThemeBuilder;
use quantette::image::RgbImage;
use quantette::PalettePipeline;
use crate::colors::{base16_pairs, ramp_pairs, spec_hex, to_hex, Rgb};
use crate::context::{overlay_all, Context};
use crate::error::{Error, ErrorKind, ErrorView};
use crate::text::str_eq;

verus! {

/// The algorithm that expands a seed colour into a scheme.
#[derive(Clone, Copy, Debug, PartialEq, Eq, Structural)]
pub enum Variant {
    Monochrome,
    Neutral,
    TonalSpot,
    Vibrant,
    Expressive,
    Fidelity,
    Content,
    Rainbow,
    FruitSalad,
}

/// The half of a scheme that is used.
#[derive(Clone, Copy, Debug, PartialEq, Eq, Structural)]
pub enum Theme {
    Dark,
    Light,
}

/// The variant that `name` names, if any.
pub open spec fn spec_variant(name: Seq<char>) -> Option<Variant> {
    if name == "monochrome"@ {
        Some(Variant::Monochrome)
    } else if name == "neutral"@ {
        Some(Variant::Neutral)
    } else if name == "tonal_spot"@ {
        Some(Variant::TonalSpot)
    } else if name == "vibrant"@ {
        Some(Variant::Vibrant)
    } else if name == "expressive"@ {
        Some(Variant::Expressive)
    } else if name == "fidelity"@ {
        Some(Variant::Fidelity)
    } else if name == "content"@ {
        Some(Variant::Content)
    } else if name == "rainbow"@ {
        Some(Variant::Rainbow)
    } else if name == "fruit_salad"@ {
        Some(Variant::FruitSalad)
    } else {
        None
    }
}

/// The theme that `name` names, if any.
pub open spec fn spec_theme(name: Seq<char>) -> Option<Theme> {
    if name == "dark"@ {
        Some(Theme::Dark)
    } else if name == "light"@ {
        Some(Theme::Light)
    } else {
        None
    }
}

/// The error for a variant name that is not known; it lists the names
/// that are.
pub open spec fn invalid_variant(name: Seq<char>) -> ErrorView {
    ErrorView {
        kind: ErrorKind::InvalidVariant,
        ctx: "invalid variant "@ + name
            + "\nPossible values: \"monochrome\", \"neutral\", \"tonal_spot\", \"vibrant\", \"expressive\", \"fidelity\", \"content\", \"rainbow\", \"fruit_salad\""@,
    }
}

/// The error for a theme name that is not known.
pub open spec fn invalid_theme(name: Seq<char>) -> ErrorView {
    ErrorView {
        kind: ErrorKind::InvalidTheme,
        ctx: "invalid theme "@ + name + "\nPossible values: \"dark\", \"light\""@,
    }
}

/// The error for a wallpaper from which no seed colour can be had.
pub open spec fn no_seed(path: Seq<char>) -> ErrorView {
    ErrorView { kind: ErrorKind::Image, ctx: "Could not color quantize image "@ + path }
}

impl Theme {
    /// The name of the theme.
    pub open spec fn spec_name(self) -> Seq<char> {
        match self {
            Theme::Dark => "dark"@,
            Theme::Light => "light"@,
        }
    }

    /// The name of the theme.
    pub fn name(&self) -> (s: &'static str)
        ensures
            s@ == self.spec_name(),
    {
        match self {
            Theme::Dark => "dark",
            Theme::Light => "light",
        }
    }

    /// Reads a theme name: `dark` or `light`.
    pub fn parse(name: &str) -> (r: Result<Theme, Error>)
        ensures
            match r {
                Ok(theme) => spec_theme(name@) == Some(theme),
                Err(e) => spec_theme(name@) is None && e@ == invalid_theme(name@),
            },
    {
        if str_eq(name, "dark") {
            Ok(Theme::Dark)
        } else if str_eq(name, "light") {
            Ok(Theme::Light)
        } else {
            let mut ctx = String::from_str("invalid theme ");
            ctx.append(name);
            ctx.append("\nPossible values: \"dark\", \"light\"");
            Err(Error::new(ErrorKind::InvalidTheme, ctx))
        }
    }
}

impl Variant {
    /// Reads a variant name.
    pub fn parse(name: &str) -> (r: Result<Variant, Error>)
        ensures
            match r {
                Ok(variant) => spec_variant(name@) == Some(variant),
                Err(e) => spec_variant(name@) is None && e@ == invalid_variant(name@),
            },
    {
        if str_eq(name, "monochrome") {
            Ok(Variant::Monochrome)
        } else if str_eq(name, "neutral") {
            Ok(Variant::Neutral)
        } else if str_eq(name, "tonal_spot") {
            Ok(Variant::TonalSpot)
        } else if str_eq(name, "vibrant") {
            Ok(Variant::Vibrant)
        } else if str_eq(name, "expressive") {
            Ok(Variant::Expressive)
        } else if str_eq(name, "fidelity") {
            Ok(Variant::Fidelity)
        } else if str_eq(name, "content") {
            Ok(Variant::Content)
        } else if str_eq(name, "rainbow") {
            Ok(Variant::Rainbow)
        } else if str_eq(name, "fruit_salad") {
            Ok(Variant::FruitSalad)
        } else {
            let mut ctx = String::from_str("invalid variant ");
            ctx.append(name);
            ctx.append(
                "\nPossible values: \"monochrome\", \"neutral\", \"tonal_spot\", \"vibrant\", \"expressive\", \"fidelity\", \"content\", \"rainbow\", \"fruit_salad\"",
            );
            Err(Error::new(ErrorKind::InvalidVariant, ctx))
        }
    }
}

/// A decoded wallpaper: where it lies, and its pixels.
#[derive(Debug)]
pub struct Wallpaper {
    /// The canonical path of the image file.
    pub path: String,
    pub width: u32,
    pub height: u32,
    /// The pixels row by row, three bytes each: red, green, blue.
    pub pixels: Vec<u8>,
}

/// A `Wallpaper` as mathematical values.
pub struct WallpaperView {
    pub path: Seq<char>,
    pub width: u32,
    pub height: u32,
    pub pixels: Seq<u8>,
}

impl DeepView for Wallpaper {
    type V = WallpaperView;

    open spec fn deep_view(&self) -> WallpaperView {
        WallpaperView {
            path: self.path@,
            width: self.width,
            height: self.height,
            pixels: self.pixels@,
        }
    }
}

impl View for Wallpaper {
    type V = WallpaperView;

    open spec fn view(&self) -> WallpaperView {
        self.deep_view()
    }
}

/// The palette of at most one colour that quantization gives for an image
/// of these dimensions and pixels; `None` where the pixels do not make up
/// such an image.
pub uninterp spec fn quantized(width: u32, height: u32, pixels: Seq<u8>) -> Option<Seq<Rgb>>;

/// The roles of the scheme that `variant` expands `seed` to, in its dark
/// or its light half: the name of each role with its colour in hexadecimal.
pub uninterp spec fn scheme_roles(seed: Rgb, variant: Variant, dark: bool) -> Seq<
    (Seq<char>, Seq<char>),
>;

/// `quantette::PalettePipeline::palette_par` with a palette size of one, on
/// the image that `image::RgbImage::from_raw` makes of the arguments. The
/// result is a function of the arguments alone: the colour of a palette of
/// one comes from sums of whole numbers, so the split of the work over
/// threads does not show in it. `None` where `from_raw` or the pipeline
/// refuses the image.
#[verifier::external_body]
fn quantize(width: u32, height: u32, pixels: &Vec<u8>) -> (palette: Option<Vec<Rgb>>)
    ensures
        match palette {
            Some(colors) => quantized(width, height, pixels@) == Some(colors@),
            None => quantized(width, height, pixels@) is None,
        },
{
    let image = RgbImage::from_raw(width, height, pixels.clone())?;
    let mut pipeline = PalettePipeline::try_from(&image).ok()?;
    let colors = pipeline.palette_size(1u8).palette_par();
    Some(colors.iter().map(|c| Rgb { red: c.red, green: c.green, blue: c.blue }).collect())
}

/// `material_colors::theme::ThemeBuilder::build` for the source colour
/// `seed` and the variant `variant`: the dark and the light scheme of the
/// theme, each as its roles with `Argb::to_hex` of their colours.
#[verifier::external_body]
fn material_schemes(seed: Rgb, variant: Variant) -> (schemes: (
    Vec<(String, String)>,
    Vec<(String, String)>,
))
    ensures
        schemes.0.deep_view() == scheme_roles(seed, variant, true),
        schemes.1.deep_view() == scheme_roles(seed, variant, false),
{
    let variant = match variant {
        Variant::Monochrome => SchemeVariant::Monochrome, Variant::Neutral => SchemeVariant::Neutral,
        Variant::TonalSpot => SchemeVariant::TonalSpot, Variant::Vibrant => SchemeVariant::Vibrant,
        Variant::Expressive => SchemeVariant::Expressive, Variant::Fidelity => SchemeVariant::Fidelity,
        Variant::Content => SchemeVariant::Content, Variant::Rainbow => SchemeVariant::Rainbow,
        Variant::FruitSalad => SchemeVariant::FruitSalad,
    };
    let source = Argb::new(255, seed.red, seed.green, seed.blue);
    let schemes = ThemeBuilder::with_source(source).variant(variant).build().schemes;
    let dark = schemes.dark.into_iter().map(|(role, color)| (role, color.to_hex())).collect();
    let light = schemes.light.into_iter().map(|(role, color)| (role, color.to_hex())).collect();
    (dark, light)
}

/// The seed colour of a palette `palette` quantized from the image at
/// `path`: its first colour; an image error where there is none.
pub open spec fn spec_seed(palette: Option<Seq<Rgb>>, path: Seq<char>) -> Result<Rgb, ErrorView> {
    match palette {
        Some(colors) => if colors.len() > 0 {
            Ok(colors[0])
        } else {
            Err(no_seed(path))
        },
        None => Err(no_seed(path)),
    }
}

/// Picks the seed colour out of a quantized palette.
pub fn pick_seed(palette: &Option<Vec<Rgb>>, path: &str) -> (r: Result<Rgb, Error>)
    ensures
        match r {
            Ok(seed) => spec_seed(palette.deep_view(), path@) == Ok::<Rgb, ErrorView>(seed),
            Err(e) => spec_seed(palette.deep_view(), path@) == Err::<Rgb, ErrorView>(e@),
        },
{
    match palette {
        Some(colors) => {
            if colors.len() > 0 {
                return Ok(colors[0]);
            }
        },
        None => {},
    }
    Err(Error::with_detail(ErrorKind::Image, "Could not color quantize image ", path))
}

/// The side to which a wallpaper is sampled down before its seed is
/// taken: no more than this many columns and rows are looked at.
pub const SAMPLE_SIDE: u32 = 128;

/// `side`, or the sampling side where that is less.
pub open spec fn sampled_side(side: u32) -> u32 {
    if side < SAMPLE_SIDE {
        side
    } else {
        SAMPLE_SIDE
    }
}

impl WallpaperView {
    /// Whether the pixels are as many as the dimensions ask for.
    pub open spec fn holds_image(self) -> bool {
        self.pixels.len() >= self.width * self.height * 3
    }

    /// The column of the wallpaper that column `x` of the sample shows:
    /// the columns are spread evenly over the width.
    pub open spec fn source_column(self, x: int) -> int {
        x * self.width / (sampled_side(self.width) as int)
    }

    /// The row of the wallpaper that row `y` of the sample shows.
    pub open spec fn source_row(self, y: int) -> int {
        y * self.height / (sampled_side(self.height) as int)
    }

    /// The byte at index `k` of the sample's pixels.
    pub open spec fn sampled_byte(self, k: int) -> u8 {
        let pixel = k / 3;
        let x = pixel % (sampled_side(self.width) as int);
        let y = pixel / (sampled_side(self.width) as int);
        self.pixels[(self.source_row(y) * self.width + self.source_column(x)) * 3 + k % 3]
    }

    /// The wallpaper sampled down: every pixel of the sample is the pixel
    /// of the wallpaper at its source column and row.
    pub open spec fn sampled(self) -> WallpaperView {
        WallpaperView {
            path: self.path,
            width: sampled_side(self.width),
            height: sampled_side(self.height),
            pixels: Seq::new(
                (sampled_side(self.width) * sampled_side(self.height) * 3) as nat,
                |k: int| self.sampled_byte(k),
            ),
        }
    }

    /// The seed colour of the wallpaper: the seed of the palette that its
    /// sample is quantized to.
    pub open spec fn spec_seed(self) -> Result<Rgb, ErrorView> {
        if self.holds_image() {
            let sample = self.sampled();
            spec_seed(quantized(sample.width, sample.height, sample.pixels), self.path)
        } else {
            Err(no_seed(self.path))
        }
    }
}

proof fn lemma_source_in_bounds(position: int, side: int, sampled: int)
    requires
        0 <= position < sampled <= side,
    ensures
        0 <= position * side / sampled < side,
{
    assert(0 <= position * side < sampled * side) by (nonlinear_arith)
        requires
            0 <= position < sampled,
            0 < side,
    ;
    assert(position * side / sampled < side) by (nonlinear_arith)
        requires
            0 <= position * side < sampled * side,
            0 < sampled,
    ;
    assert(0 <= position * side / sampled) by (nonlinear_arith)
        requires
            0 <= position * side,
            0 < sampled,
    ;
}

proof fn lemma_pixel_in_bounds(row: int, column: int, width: int, height: int)
    requires
        0 <= row < height,
        0 <= column < width,
    ensures
        0 <= (row * width + column) * 3,
        (row * width + column) * 3 + 2 < width * height * 3,
{
    assert(row * width + column < width * height && 0 <= row * width) by (nonlinear_arith)
        requires
            0 <= row < height,
            0 <= column < width,
    ;
}

fn sample_side(side: u32) -> (sampled: u32)
    ensures
        sampled == sampled_side(side),
{
    if side < SAMPLE_SIDE {
        side
    } else {
        SAMPLE_SIDE
    }
}

/// Samples a wallpaper down to at most the sampling side in either
/// direction, by taking evenly spread columns and rows. A wallpaper that
/// is no larger is its own sample. There is no sample where the pixels
/// are fewer than the dimensions ask for.
pub fn downsample(wallpaper: &Wallpaper) -> (r: Option<Wallpaper>)
    ensures
        match r {
            Some(sample) => wallpaper@.holds_image() && sample@ == wallpaper@.sampled(),
            None => !wallpaper@.holds_image(),
        },
{
    let width = wallpaper.width as u128;
    let height = wallpaper.height as u128;
    assert(width * height * 3 <= 0x1_0000_0000 * 0x1_0000_0000 * 3) by (nonlinear_arith)
        requires
            0 <= width < 0x1_0000_0000,
            0 <= height < 0x1_0000_0000,
    ;
    let area: u128 = width * height;
    if (wallpaper.pixels.len() as u128) < area * 3 {
        return None;
    }
    let columns = sample_side(wallpaper.width);
    let rows = sample_side(wallpaper.height);
    let ghost w = wallpaper@;
    let ghost expected = w.sampled().pixels;
    let mut pixels: Vec<u8> = Vec::new();
    let mut y: u32 = 0;
    assert(pixels@ =~= expected.take(0));
    assert(expected.len() == rows * columns * 3) by (nonlinear_arith)
        requires
            expected.len() == (columns * rows * 3) as nat,
            0 <= columns,
            0 <= rows,
    ;
    while y < rows
        invariant
            y <= rows,
            expected.len() == rows * columns * 3,
            columns == sampled_side(wallpaper.width),
            rows == sampled_side(wallpaper.height),
            w == wallpaper@,
            w.holds_image(),
            expected == w.sampled().pixels,
            pixels@ == expected.take(y * columns * 3),
        decreases rows - y,
    {
        let mut x: u32 = 0;
        proof {
            lemma_source_in_bounds(y as int, wallpaper.height as int, rows as int);
        }
        assert(y * wallpaper.height <= 128 * 0xffff_ffff) by (nonlinear_arith)
            requires
                0 <= y <= 128,
                0 <= wallpaper.height <= 0xffff_ffff,
        ;
        let row: u64 = (y as u64) * (wallpaper.height as u64) / (rows as u64);
        assert(y * columns * 3 + columns * 3 == (y + 1) * columns * 3) by (nonlinear_arith);
        assert((y + 1) * columns * 3 <= rows * columns * 3) by (nonlinear_arith)
            requires
                y + 1 <= rows,
                0 <= columns,
        ;
        while x < columns
            invariant
                x <= columns,
                y < rows,
                expected.len() == rows * columns * 3,
                columns == sampled_side(wallpaper.width),
                rows == sampled_side(wallpaper.height),
                w == wallpaper@,
                w.holds_image(),
                expected == w.sampled().pixels,
                row == w.source_row(y as int),
                0 <= row < wallpaper.height,
                y * columns * 3 + columns * 3 <= rows * columns * 3,
                pixels@ == expected.take((y * columns + x) * 3),
            decreases columns - x,
        {
            proof {
                lemma_source_in_bounds(x as int, wallpaper.width as int, columns as int);
                lemma_pixel_in_bounds(
                    row as int,
                    w.source_column(x as int),
                    wallpaper.width as int,
                    wallpaper.height as int,
                );
            }
            assert(x * wallpaper.width <= 128 * 0xffff_ffff) by (nonlinear_arith)
                requires
                    0 <= x <= 128,
                    0 <= wallpaper.width <= 0xffff_ffff,
            ;
            let column: u64 = (x as u64) * (wallpaper.width as u64) / (columns as u64);
            assert(row * (wallpaper.width as u64) <= 0xffff_ffff * 0xffff_ffff) by (nonlinear_arith)
                requires
                    0 <= row <= 0xffff_ffff,
                    0 <= wallpaper.width <= 0xffff_ffff,
            ;
            let pixel: u64 = row * (wallpaper.width as u64) + column;
            assert(pixel * 3 + 2 < wallpaper.pixels.len());
            let at: usize = (pixel as u128 * 3) as usize;
            let ghost base = (y * columns + x) * 3;
            assert(base == (y as int * columns as int + x as int) * 3);
            assert((y * columns + x) / (columns as int) == y && (y * columns + x) % (
            columns as int) == x) by (nonlinear_arith)
                requires
                    0 <= x < columns,
                    0 <= y,
            ;
            assert(base + 3 <= expected.len()) by (nonlinear_arith)
                requires
                    base == (y * columns + x) * 3,
                    x < columns,
                    y * columns * 3 + columns * 3 <= rows * columns * 3,
                    expected.len() == rows * columns * 3,
            ;
            assert(expected[base] == w.sampled_byte(base));
            assert(expected[base + 1] == w.sampled_byte(base + 1));
            assert(expected[base + 2] == w.sampled_byte(base + 2));
            assert(expected[base] == w.pixels[at as int]);
            assert(expected[base + 1] == w.pixels[at + 1]);
            assert(expected[base + 2] == w.pixels[at + 2]);
            pixels.push(wallpaper.pixels[at]);
            pixels.push(wallpaper.pixels[at + 1]);
            pixels.push(wallpaper.pixels[at + 2]);
            assert(pixels@ =~= expected.take(base + 3));
            assert((y * columns + (x + 1)) * 3 == base + 3) by (nonlinear_arith)
                requires
                    base == (y * columns + x) * 3,
            ;
            x = x + 1;
        }
        assert((y * columns + columns) * 3 == (y + 1) * columns * 3) by (nonlinear_arith);
        y = y + 1;
    }
    assert(rows * columns * 3 == columns * rows * 3) by (nonlinear_arith);
    assert(expected.take(expected.len() as int) =~= expected);
    Some(Wallpaper { path: wallpaper.path.clone(), width: columns, height: rows, pixels })
}

/// The seed colour of a wallpaper: the wallpaper is sampled down, the
/// sample is quantized to one colour, and that colour is the seed.
pub fn seed_color(wallpaper: &Wallpaper) -> (r: Result<Rgb, Error>)
    ensures
        match r {
            Ok(seed) => wallpaper@.spec_seed() == Ok::<Rgb, ErrorView>(seed),
            Err(e) => wallpaper@.spec_seed() == Err::<Rgb, ErrorView>(e@),
        },
{
    let palette = match downsample(wallpaper) {
        Some(sample) => quantize(sample.width, sample.height, &sample.pixels),
        None => None,
    };
    pick_seed(&palette, wallpaper.path.as_str())
}

/// A palette: the seed colour, the theme, and the roles of the scheme in
/// the half that the theme selects. The ramp is a function of the seed.
#[derive(Debug)]
pub struct Palette {
    pub seed: Rgb,
    pub theme: Theme,
    /// The name of each role with its colour in hexadecimal.
    pub roles: Vec<(String, String)>,
}

/// A `Palette` as mathematical values.
pub struct PaletteView {
    pub seed: Rgb,
    pub theme: Theme,
    pub roles: Seq<(Seq<char>, Seq<char>)>,
}

impl View for Palette {
    type V = PaletteView;

    open spec fn view(&self) -> PaletteView {
        PaletteView { seed: self.seed, theme: self.theme, roles: self.roles.deep_view() }
    }
}

impl PaletteView {
    /// The palette as context pairs, in the order they are written: the
    /// seed as `source_color`, the roles of the scheme, the slots of the
    /// ramp, and the theme's name as `theme`.
    pub open spec fn pairs(self) -> Seq<(Seq<char>, Seq<char>)> {
        seq![("source_color"@, spec_hex(self.seed))] + self.roles + ramp_pairs(self.seed) + seq![
            ("theme"@, self.theme.spec_name()),
        ]
    }
}

/// The palette for a seed result `seed` and the names of a theme and a
/// variant. The first of these to fail decides the error: the seed, then
/// the variant, then the theme.
pub open spec fn spec_palette(seed: Result<Rgb, ErrorView>, theme: Seq<char>, variant: Seq<char>) -> Result<
    PaletteView,
    ErrorView,
> {
    match seed {
        Err(e) => Err(e),
        Ok(seed) => match spec_variant(variant) {
            None => Err(invalid_variant(variant)),
            Some(v) => match spec_theme(theme) {
                None => Err(invalid_theme(theme)),
                Some(t) => Ok(
                    PaletteView { seed, theme: t, roles: scheme_roles(seed, v, t == Theme::Dark) },
                ),
            },
        },
    }
}

impl Palette {
    /// The palette of the seed `seed` under `theme`, given both halves of
    /// the scheme that the seed expands to.
    pub fn assemble(
        seed: Rgb,
        theme: Theme,
        dark: Vec<(String, String)>,
        light: Vec<(String, String)>,
    ) -> (p: Palette)
        ensures
            p@ == (PaletteView {
                seed,
                theme,
                roles: if theme == Theme::Dark {
                    dark.deep_view()
                } else {
                    light.deep_view()
                },
            }),
    {
        match theme {
            Theme::Dark => Palette { seed, theme, roles: dark },
            Theme::Light => Palette { seed, theme, roles: light },
        }
    }

    /// The palette as context pairs, in the order they are written.
    pub fn pairs(&self) -> (pairs: Vec<(String, String)>)
        ensures
            pairs.deep_view() == self@.pairs(),
    {
        let mut pairs: Vec<(String, String)> = Vec::new();
        pairs.push((String::from_str("source_color"), to_hex(self.seed)));
        let ghost head = pairs.deep_view();
        assert(head =~= seq![("source_color"@, spec_hex(self.seed))]);
        let mut k: usize = 0;
        assert(pairs.deep_view() =~= head + self@.roles.take(0));
        while k < self.roles.len()
            invariant
                k <= self.roles.len(),
                pairs.deep_view() == head + self@.roles.take(k as int),
            decreases self.roles.len() - k,
        {
            let ghost before = pairs.deep_view();
            pairs.push((self.roles[k].0.clone(), self.roles[k].1.clone()));
            assert(pairs.deep_view() =~= before.push(self@.roles[k as int]));
            assert(pairs.deep_view() =~= head + self@.roles.take(k + 1));
            k = k + 1;
        }
        assert(self@.roles.take(self.roles.len() as int) =~= self@.roles);
        let ramp = base16_pairs(self.seed);
        let mut k: usize = 0;
        assert(pairs.deep_view() =~= head + self@.roles + ramp_pairs(self.seed).take(0));
        while k < ramp.len()
            invariant
                k <= ramp.len(),
                ramp.deep_view() == ramp_pairs(self.seed),
                pairs.deep_view() == head + self@.roles + ramp_pairs(self.seed).take(k as int),
            decreases ramp.len() - k,
        {
            let ghost before = pairs.deep_view();
            pairs.push((ramp[k].0.clone(), ramp[k].1.clone()));
            assert(pairs.deep_view() =~= before.push(ramp_pairs(self.seed)[k as int]));
            assert(pairs.deep_view() =~= head + self@.roles + ramp_pairs(self.seed).take(k + 1));
            k = k + 1;
        }
        assert(ramp_pairs(self.seed).take(ramp.len() as int) =~= ramp_pairs(self.seed));
        let ghost before = pairs.deep_view();
        pairs.push((String::from_str("theme"), String::from_str(self.theme.name())));
        assert(pairs.deep_view() =~= before.push(("theme"@, self.theme.spec_name())));
        assert(pairs.deep_view() =~= self@.pairs());
        pairs
    }
}

/// Derives the palette of a wallpaper under the theme and the variant
/// that are named.
pub fn derive_palette(wallpaper: &Wallpaper, theme: &str, variant: &str) -> (r: Result<
    Palette,
    Error,
>)
    ensures
        match r {
            Ok(p) => spec_palette(wallpaper@.spec_seed(), theme@, variant@) == Ok::<
                PaletteView,
                ErrorView,
            >(p@),
            Err(e) => spec_palette(wallpaper@.spec_seed(), theme@, variant@) == Err::<
                PaletteView,
                ErrorView,
            >(e@),
        },
{
    let seed = match seed_color(wallpaper) {
        Ok(seed) => seed,
        Err(e) => {
            return Err(e);
        },
    };
    let variant = match Variant::parse(variant) {
        Ok(variant) => variant,
        Err(e) => {
            return Err(e);
        },
    };
    let theme = match Theme::parse(theme) {
        Ok(theme) => theme,
        Err(e) => {
            return Err(e);
        },
    };
    let (dark, light) = material_schemes(seed, variant);
    Ok(Palette::assemble(seed, theme, dark, light))
}

/// Derives the palette of a wallpaper and writes it into the context: the
/// seed, the roles of the scheme, the ramp and the theme, over whatever
/// the context held under those keys. On an error the context is left as
/// it was.
pub fn generate_material_colors(
    wallpaper: &Wallpaper,
    theme: &str,
    variant: &str,
    context: &mut Context,
) -> (r: Result<(), Error>)
    ensures
        match spec_palette(wallpaper@.spec_seed(), theme@, variant@) {
            Ok(p) => r is Ok && final(context)@ == overlay_all(old(context)@, p.pairs()),
            Err(e) => r is Err && r->Err_0@ == e && final(context)@ == old(context)@,
        },
{
    match derive_palette(wallpaper, theme, variant) {
        Ok(palette) => {
            let pairs = palette.pairs();
            context.extend(&pairs);
            Ok(())
        },
        Err(e) => Err(e),
    }
}

/// The same wallpaper, theme and variant give the same seed colour and
/// the same palette, ramp included, whenever they are derived.
pub proof fn lemma_palette_is_determined(
    wallpaper: WallpaperView,
    theme: Seq<char>,
    variant: Seq<char>,
    first: PaletteView,
    second: PaletteView,
)
    requires
        spec_palette(wallpaper.spec_seed(), theme, variant) == Ok::<PaletteView, ErrorView>(first),
        spec_palette(wallpaper.spec_seed(), theme, variant) == Ok::<PaletteView, ErrorView>(second),
    ensures
        first.seed == second.seed,
        crate::colors::spec_ramp(first.seed) == crate::colors::spec_ramp(second.seed),
        first == second,
        first.pairs() == second.pairs(),
{
}

} // verus!
