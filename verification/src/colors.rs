//! Colours: blending, the sixteen-slot ramp, and the palette that is
//! derived from a wallpaper.

use vstd::prelude::*;
use vstd::string::StringExecFns;
use material_colors::color::Argb;
use crate::context::{overlay_all, Context};

verus! {

/// A colour of three eight-bit channels.
#[derive(Clone, Copy, Debug, PartialEq, Eq, Structural)]
pub struct Rgb {
    pub red: u8,
    pub green: u8,
    pub blue: u8,
}

impl DeepView for Rgb {
    type V = Rgb;

    open spec fn deep_view(&self) -> Rgb {
        *self
    }
}

/// The sixteen hexadecimal digits, in lower case.
pub open spec fn hex_digits() -> Seq<char> {
    seq!['0', '1', '2', '3', '4', '5', '6', '7', '8', '9', 'a', 'b', 'c', 'd', 'e', 'f']
}

/// The two hexadecimal digits of a byte.
pub open spec fn hex_byte(b: u8) -> Seq<char> {
    seq![hex_digits()[b as int / 16], hex_digits()[b as int % 16]]
}

/// A colour as six hexadecimal digits: red, green, blue, two digits
/// each, in lower case and without a leading `#`.
pub open spec fn spec_hex(c: Rgb) -> Seq<char> {
    hex_byte(c.red) + hex_byte(c.green) + hex_byte(c.blue)
}

/// `material_colors::color::Argb::to_hex`, on an opaque colour of these
/// channels: the colour as six lower-case hexadecimal digits.
#[verifier::external_body]
pub(crate) fn to_hex(c: Rgb) -> (s: String)
    ensures
        s@ == spec_hex(c),
{
    Argb::new(255, c.red, c.green, c.blue).to_hex()
}

/// The share of the reference colour in every slot of the ramp, in
/// percent. The seed has the rest.
pub const RAMP_WEIGHT: u8 = 50;

/// `x` brought into the range of a byte.
pub open spec fn clamp_byte(x: int) -> int {
    if x < 0 {
        0
    } else if x > 255 {
        255
    } else {
        x
    }
}

/// The weighted sum of a blend before it is clamped: `percent`
/// hundredths of `reference` and the rest of `seed`, rounded to the
/// nearest integer, a half upwards.
pub open spec fn weighted(reference: u8, seed: u8, percent: u8) -> int {
    (percent * reference + (100 - percent) * seed + 50) / 100
}

/// One channel of a blend: the weighted sum, clamped to a byte.
pub open spec fn spec_blend_channel(reference: u8, seed: u8, percent: u8) -> u8 {
    clamp_byte(weighted(reference, seed, percent)) as u8
}

/// The blend of two colours, channel by channel.
pub open spec fn spec_blend(reference: Rgb, seed: Rgb, percent: u8) -> Rgb {
    Rgb {
        red: spec_blend_channel(reference.red, seed.red, percent),
        green: spec_blend_channel(reference.green, seed.green, percent),
        blue: spec_blend_channel(reference.blue, seed.blue, percent),
    }
}

/// With a weight of no more than the whole, a blended channel lies
/// between its two inputs, so nothing is clamped. The whole weight gives
/// the reference, no weight gives the seed, and an even weight gives the
/// mean, a half rounded upwards.
pub proof fn lemma_blend_channel_bounds(reference: u8, seed: u8, percent: u8)
    requires
        percent <= 100,
    ensures
        spec_blend_channel(reference, seed, percent) == weighted(reference, seed, percent),
        reference <= seed ==> reference <= spec_blend_channel(reference, seed, percent) <= seed,
        seed <= reference ==> seed <= spec_blend_channel(reference, seed, percent) <= reference,
        percent == 100 ==> spec_blend_channel(reference, seed, percent) == reference,
        percent == 0 ==> spec_blend_channel(reference, seed, percent) == seed,
        percent == 50 ==> spec_blend_channel(reference, seed, percent) == (reference + seed + 1) / 2,
{
    let r = reference as int;
    let s = seed as int;
    let p = percent as int;
    let total = p * r + (100 - p) * s;
    assert(r <= s ==> 100 * r <= total <= 100 * s) by (nonlinear_arith)
        requires
            0 <= p <= 100,
            total == p * r + (100 - p) * s,
    ;
    assert(s <= r ==> 100 * s <= total <= 100 * r) by (nonlinear_arith)
        requires
            0 <= p <= 100,
            total == p * r + (100 - p) * s,
    ;
    assert(p == 100 ==> total == 100 * r) by (nonlinear_arith)
        requires
            total == p * r + (100 - p) * s,
    ;
    assert(p == 0 ==> total == 100 * s) by (nonlinear_arith)
        requires
            total == p * r + (100 - p) * s,
    ;
    assert(p == 50 ==> total == 50 * (r + s)) by (nonlinear_arith)
        requires
            total == p * r + (100 - p) * s,
    ;
    if p == 50 {
        let mean = (r + s + 1) / 2;
        assert(total + 50 == 100 * mean + 50 * ((r + s + 1) % 2));
    }
}

/// One channel of a blend.
pub fn blend_channel(reference: u8, seed: u8, percent: u8) -> (c: u8)
    ensures
        c == spec_blend_channel(reference, seed, percent),
{
    let p: i32 = percent as i32;
    let r: i32 = reference as i32;
    let s: i32 = seed as i32;
    assert(0 <= p * r <= 255 * 255) by (nonlinear_arith)
        requires
            0 <= p <= 255,
            0 <= r <= 255,
    ;
    assert(-155 * 255 <= (100 - p) * s <= 100 * 255) by (nonlinear_arith)
        requires
            0 <= p <= 255,
            0 <= s <= 255,
    ;
    let total: i32 = p * r + (100 - p) * s + 50;
    if total < 0 {
        0
    } else {
        let rounded: i32 = total / 100;
        if rounded > 255 {
            255
        } else {
            rounded as u8
        }
    }
}

/// Blends `reference` with `seed`, `percent` hundredths of the former.
/// A weight beyond the whole moves away from the seed, past the
/// reference, as far as a byte goes.
pub fn blend(reference: Rgb, seed: Rgb, percent: u8) -> (c: Rgb)
    ensures
        c == spec_blend(reference, seed, percent),
{
    Rgb {
        red: blend_channel(reference.red, seed.red, percent),
        green: blend_channel(reference.green, seed.green, percent),
        blue: blend_channel(reference.blue, seed.blue, percent),
    }
}

/// Blends `reference` with `seed` at the weight of the ramp.
pub fn blend_color(reference: Rgb, seed: Rgb) -> (c: Rgb)
    ensures
        c == spec_blend(reference, seed, RAMP_WEIGHT),
{
    blend(reference, seed, RAMP_WEIGHT)
}

/// How many slots the ramp has.
pub const RAMP_SLOTS: usize = 16;

/// The reference colours of the ramp, slot by slot.
pub open spec fn spec_reference_colors() -> Seq<Rgb> {
    seq![
        Rgb { red: 0, green: 0, blue: 0 },
        Rgb { red: 128, green: 0, blue: 0 },
        Rgb { red: 0, green: 128, blue: 0 },
        Rgb { red: 128, green: 128, blue: 0 },
        Rgb { red: 0, green: 0, blue: 128 },
        Rgb { red: 128, green: 0, blue: 128 },
        Rgb { red: 0, green: 128, blue: 128 },
        Rgb { red: 192, green: 192, blue: 192 },
        Rgb { red: 128, green: 128, blue: 128 },
        Rgb { red: 255, green: 0, blue: 0 },
        Rgb { red: 0, green: 255, blue: 0 },
        Rgb { red: 255, green: 255, blue: 0 },
        Rgb { red: 0, green: 0, blue: 255 },
        Rgb { red: 255, green: 0, blue: 255 },
        Rgb { red: 0, green: 255, blue: 255 },
        Rgb { red: 255, green: 255, blue: 255 },
    ]
}

/// The context keys of the ramp, slot by slot.
pub open spec fn spec_slot_names() -> Seq<Seq<char>> {
    seq![
        "base0"@,
        "base1"@,
        "base2"@,
        "base3"@,
        "base4"@,
        "base5"@,
        "base6"@,
        "base7"@,
        "base8"@,
        "base9"@,
        "base10"@,
        "base11"@,
        "base12"@,
        "base13"@,
        "base14"@,
        "base15"@,
    ]
}

/// The ramp for the seed colour `seed`: each reference colour blended
/// with the seed at the weight of the ramp.
pub open spec fn spec_ramp(seed: Rgb) -> Seq<Rgb> {
    Seq::new(
        RAMP_SLOTS as nat,
        |k: int| spec_blend(spec_reference_colors()[k], seed, RAMP_WEIGHT),
    )
}

/// The ramp for `seed` as context pairs: the key of each slot with its
/// colour in hexadecimal.
pub open spec fn ramp_pairs(seed: Rgb) -> Seq<(Seq<char>, Seq<char>)> {
    Seq::new(RAMP_SLOTS as nat, |k: int| (spec_slot_names()[k], spec_hex(spec_ramp(seed)[k])))
}

/// The reference colours of the ramp, slot by slot.
pub fn reference_colors() -> (colors: Vec<Rgb>)
    ensures
        colors@ == spec_reference_colors(),
{
    let colors = vec![
        Rgb { red: 0, green: 0, blue: 0 },
        Rgb { red: 128, green: 0, blue: 0 },
        Rgb { red: 0, green: 128, blue: 0 },
        Rgb { red: 128, green: 128, blue: 0 },
        Rgb { red: 0, green: 0, blue: 128 },
        Rgb { red: 128, green: 0, blue: 128 },
        Rgb { red: 0, green: 128, blue: 128 },
        Rgb { red: 192, green: 192, blue: 192 },
        Rgb { red: 128, green: 128, blue: 128 },
        Rgb { red: 255, green: 0, blue: 0 },
        Rgb { red: 0, green: 255, blue: 0 },
        Rgb { red: 255, green: 255, blue: 0 },
        Rgb { red: 0, green: 0, blue: 255 },
        Rgb { red: 255, green: 0, blue: 255 },
        Rgb { red: 0, green: 255, blue: 255 },
        Rgb { red: 255, green: 255, blue: 255 },
    ];
    assert(colors@ =~= spec_reference_colors());
    colors
}

/// The context keys of the ramp, slot by slot.
pub fn slot_names() -> (names: Vec<&'static str>)
    ensures
        names.deep_view() == spec_slot_names(),
{
    let names = vec![
        "base0",
        "base1",
        "base2",
        "base3",
        "base4",
        "base5",
        "base6",
        "base7",
        "base8",
        "base9",
        "base10",
        "base11",
        "base12",
        "base13",
        "base14",
        "base15",
    ];
    assert(names.deep_view() =~= spec_slot_names());
    names
}

/// The ramp for the seed colour `seed`.
pub fn base16_ramp(seed: Rgb) -> (ramp: Vec<Rgb>)
    ensures
        ramp@ == spec_ramp(seed),
{
    let references = reference_colors();
    let mut ramp: Vec<Rgb> = Vec::new();
    let mut k: usize = 0;
    while k < RAMP_SLOTS
        invariant
            k <= RAMP_SLOTS,
            references@ == spec_reference_colors(),
            ramp@ == spec_ramp(seed).take(k as int),
        decreases RAMP_SLOTS - k,
    {
        ramp.push(blend_color(references[k], seed));
        assert(ramp@ =~= spec_ramp(seed).take(k + 1));
        k = k + 1;
    }
    assert(ramp@ =~= spec_ramp(seed));
    ramp
}

/// The ramp for `seed` as context pairs.
pub fn base16_pairs(seed: Rgb) -> (pairs: Vec<(String, String)>)
    ensures
        pairs.deep_view() == ramp_pairs(seed),
{
    let names = slot_names();
    let ramp = base16_ramp(seed);
    let mut pairs: Vec<(String, String)> = Vec::new();
    let mut k: usize = 0;
    assert(names.len() == names.deep_view().len());
    while k < RAMP_SLOTS
        invariant
            k <= RAMP_SLOTS,
            names.len() == RAMP_SLOTS,
            names.deep_view() == spec_slot_names(),
            ramp@ == spec_ramp(seed),
            pairs.deep_view() == ramp_pairs(seed).take(k as int),
        decreases RAMP_SLOTS - k,
    {
        let ghost before = pairs.deep_view();
        let name = String::from_str(names[k]);
        assert(name@ == names.deep_view()[k as int]);
        let pair = (name, to_hex(ramp[k]));
        pairs.push(pair);
        assert(pairs.deep_view() =~= before.push(ramp_pairs(seed)[k as int]));
        assert(pairs.deep_view() =~= ramp_pairs(seed).take(k + 1));
        k = k + 1;
    }
    assert(pairs.deep_view() =~= ramp_pairs(seed));
    pairs
}

/// Writes the ramp for `seed` into the context, one variable for each
/// slot, over whatever the context held under those keys.
pub fn generate_base16_colors(context: &mut Context, seed: Rgb)
    ensures
        final(context)@ == overlay_all(old(context)@, ramp_pairs(seed)),
{
    let pairs = base16_pairs(seed);
    context.extend(&pairs);
}

} // verus!
