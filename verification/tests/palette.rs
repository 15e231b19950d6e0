use dotman::colors::{base16_pairs, Rgb};
use dotman::context::Context;
use dotman::error::ErrorKind;
use dotman::palette::{
    derive_palette, downsample, generate_material_colors, pick_seed, seed_color, Palette, Theme,
    Variant, Wallpaper, SAMPLE_SIDE,
};

fn rgb(red: u8, green: u8, blue: u8) -> Rgb {
    Rgb { red, green, blue }
}

fn wallpaper(width: u32, height: u32, pixels: Vec<u8>) -> Wallpaper {
    Wallpaper { path: "/home/u/wall.png".to_string(), width, height, pixels }
}

fn plain(color: Rgb) -> Wallpaper {
    let mut pixels = Vec::new();
    for _ in 0..12 {
        pixels.push(color.red);
        pixels.push(color.green);
        pixels.push(color.blue);
    }
    wallpaper(4, 3, pixels)
}

#[test]
fn variant_names() {
    assert_eq!(Variant::parse("monochrome").unwrap(), Variant::Monochrome);
    assert_eq!(Variant::parse("neutral").unwrap(), Variant::Neutral);
    assert_eq!(Variant::parse("tonal_spot").unwrap(), Variant::TonalSpot);
    assert_eq!(Variant::parse("vibrant").unwrap(), Variant::Vibrant);
    assert_eq!(Variant::parse("expressive").unwrap(), Variant::Expressive);
    assert_eq!(Variant::parse("fidelity").unwrap(), Variant::Fidelity);
    assert_eq!(Variant::parse("content").unwrap(), Variant::Content);
    assert_eq!(Variant::parse("rainbow").unwrap(), Variant::Rainbow);
    assert_eq!(Variant::parse("fruit_salad").unwrap(), Variant::FruitSalad);
}

#[test]
fn an_unknown_variant_lists_the_known_ones() {
    let e = Variant::parse("pastel").unwrap_err();
    assert_eq!(e.kind(), ErrorKind::InvalidVariant);
    assert_eq!(
        e.message(),
        "invalid variant pastel\nPossible values: \"monochrome\", \"neutral\", \"tonal_spot\", \"vibrant\", \"expressive\", \"fidelity\", \"content\", \"rainbow\", \"fruit_salad\""
    );
    assert_eq!(Variant::parse("TonalSpot").unwrap_err().kind(), ErrorKind::InvalidVariant);
    assert_eq!(Variant::parse("").unwrap_err().kind(), ErrorKind::InvalidVariant);
}

#[test]
fn theme_names() {
    assert_eq!(Theme::parse("dark").unwrap(), Theme::Dark);
    assert_eq!(Theme::parse("light").unwrap(), Theme::Light);
    assert_eq!(Theme::Dark.name(), "dark");
    assert_eq!(Theme::Light.name(), "light");
}

#[test]
fn an_unknown_theme_lists_the_known_ones() {
    let e = Theme::parse("dim").unwrap_err();
    assert_eq!(e.kind(), ErrorKind::InvalidTheme);
    assert_eq!(e.message(), "invalid theme dim\nPossible values: \"dark\", \"light\"");
}

#[test]
fn the_seed_is_the_first_colour_of_the_palette() {
    assert_eq!(pick_seed(&Some(vec![rgb(1, 2, 3), rgb(4, 5, 6)]), "p").unwrap(), rgb(1, 2, 3));
}

#[test]
fn no_palette_is_an_image_error() {
    for palette in [None, Some(Vec::new())] {
        let e = pick_seed(&palette, "/home/u/wall.png").unwrap_err();
        assert_eq!(e.kind(), ErrorKind::Image);
        assert_eq!(e.message(), "Could not color quantize image /home/u/wall.png");
    }
}

#[test]
fn the_seed_of_a_plain_image_is_its_colour() {
    assert_eq!(seed_color(&plain(rgb(12, 200, 77))).unwrap(), rgb(12, 200, 77));
    assert_eq!(seed_color(&plain(rgb(0, 0, 0))).unwrap(), rgb(0, 0, 0));
    assert_eq!(seed_color(&plain(rgb(255, 255, 255))).unwrap(), rgb(255, 255, 255));
}

#[test]
fn the_seed_of_two_pixels() {
    let w = wallpaper(2, 1, vec![10, 20, 30, 20, 40, 51]);
    assert_eq!(seed_color(&w).unwrap(), rgb(15, 30, 40));
}

#[test]
fn the_seed_is_the_same_on_every_run() {
    let mut pixels = Vec::new();
    for k in 0..(64 * 48 * 3) {
        pixels.push(((k * 37 + k / 7) % 251) as u8);
    }
    let w = wallpaper(64, 48, pixels);
    let first = seed_color(&w).unwrap();
    for _ in 0..5 {
        assert_eq!(seed_color(&w).unwrap(), first);
    }
}

#[test]
fn an_image_without_pixels_has_no_seed() {
    let e = seed_color(&wallpaper(0, 0, Vec::new())).unwrap_err();
    assert_eq!(e.kind(), ErrorKind::Image);
    assert_eq!(e.message(), "Could not color quantize image /home/u/wall.png");
}

#[test]
fn too_few_pixels_for_the_dimensions_have_no_seed() {
    let e = seed_color(&wallpaper(2, 2, vec![1, 2, 3])).unwrap_err();
    assert_eq!(e.kind(), ErrorKind::Image);
}

#[test]
fn bytes_beyond_the_dimensions_are_ignored() {
    let w = wallpaper(1, 1, vec![9, 8, 7, 200, 200, 200]);
    assert_eq!(seed_color(&w).unwrap(), rgb(9, 8, 7));
}

#[test]
fn a_palette_has_the_roles_of_the_scheme() {
    let p = derive_palette(&plain(rgb(66, 133, 244)), "dark", "tonal_spot").unwrap();
    assert_eq!(p.seed, rgb(66, 133, 244));
    assert_eq!(p.theme, Theme::Dark);
    assert_eq!(p.roles.len(), 49);
    assert_eq!(p.roles[0].0, "primary");
    assert_eq!(p.roles[48].0, "scrim");
    for (name, hex) in p.roles.iter() {
        assert!(!name.is_empty());
        assert_eq!(hex.len(), 6);
        assert!(hex.chars().all(|c| c.is_ascii_digit() || ('a'..='f').contains(&c)));
    }
}

#[test]
fn dark_and_light_differ() {
    let dark = derive_palette(&plain(rgb(66, 133, 244)), "dark", "tonal_spot").unwrap();
    let light = derive_palette(&plain(rgb(66, 133, 244)), "light", "tonal_spot").unwrap();
    assert_eq!(light.theme, Theme::Light);
    assert_ne!(dark.roles, light.roles);
    let names = |p: &Palette| p.roles.iter().map(|r| r.0.clone()).collect::<Vec<String>>();
    assert_eq!(names(&dark), names(&light));
    let background = |p: &Palette| p.roles.iter().find(|r| r.0 == "background").unwrap().1.clone();
    assert!(background(&dark) < background(&light));
}

#[test]
fn variants_differ() {
    let a = derive_palette(&plain(rgb(66, 133, 244)), "dark", "tonal_spot").unwrap();
    let b = derive_palette(&plain(rgb(66, 133, 244)), "dark", "monochrome").unwrap();
    let c = derive_palette(&plain(rgb(66, 133, 244)), "dark", "vibrant").unwrap();
    assert_ne!(a.roles, b.roles);
    assert_ne!(a.roles, c.roles);
    assert_ne!(b.roles, c.roles);
}

#[test]
fn the_palette_is_the_same_on_every_run() {
    let w = plain(rgb(201, 17, 88));
    let first = derive_palette(&w, "light", "expressive").unwrap();
    let second = derive_palette(&w, "light", "expressive").unwrap();
    assert_eq!(first.seed, second.seed);
    assert_eq!(first.roles, second.roles);
    assert_eq!(first.pairs(), second.pairs());
}

#[test]
fn errors_come_in_order_seed_variant_theme() {
    let bad = wallpaper(0, 0, Vec::new());
    assert_eq!(derive_palette(&bad, "dim", "pastel").unwrap_err().kind(), ErrorKind::Image);
    let good = plain(rgb(1, 2, 3));
    assert_eq!(
        derive_palette(&good, "dim", "pastel").unwrap_err().kind(),
        ErrorKind::InvalidVariant
    );
    assert_eq!(
        derive_palette(&good, "dim", "content").unwrap_err().kind(),
        ErrorKind::InvalidTheme
    );
}

#[test]
fn the_pairs_of_a_palette() {
    let p = Palette::assemble(
        rgb(30, 60, 91),
        Theme::Light,
        vec![("primary".to_string(), "111111".to_string())],
        vec![("primary".to_string(), "eeeeee".to_string())],
    );
    assert_eq!(p.roles, vec![("primary".to_string(), "eeeeee".to_string())]);
    let pairs = p.pairs();
    assert_eq!(pairs.len(), 1 + 1 + 16 + 1);
    assert_eq!(pairs[0], ("source_color".to_string(), "1e3c5b".to_string()));
    assert_eq!(pairs[1], ("primary".to_string(), "eeeeee".to_string()));
    assert_eq!(pairs[2..18].to_vec(), base16_pairs(rgb(30, 60, 91)));
    assert_eq!(pairs[18], ("theme".to_string(), "light".to_string()));
}

#[test]
fn assemble_picks_the_half_of_the_theme() {
    let p = Palette::assemble(
        rgb(0, 0, 0),
        Theme::Dark,
        vec![("primary".to_string(), "111111".to_string())],
        vec![("primary".to_string(), "eeeeee".to_string())],
    );
    assert_eq!(p.roles, vec![("primary".to_string(), "111111".to_string())]);
}

#[test]
fn the_palette_goes_into_the_context() {
    let mut context = Context::new();
    context.insert("primary".to_string(), "stale".to_string());
    context.insert("font".to_string(), "mono".to_string());
    generate_material_colors(&plain(rgb(66, 133, 244)), "dark", "tonal_spot", &mut context).unwrap();
    assert_eq!(context.len(), 1 + 49 + 16 + 1 + 1);
    assert_eq!(context.get("source_color").map(|s| s.as_str()), Some("4285f4"));
    assert_eq!(context.get("theme").map(|s| s.as_str()), Some("dark"));
    assert_eq!(context.get("font").map(|s| s.as_str()), Some("mono"));
    assert_eq!(context.get("base0").map(|s| s.as_str()), Some("21437a"));
    assert_eq!(context.get("base15").map(|s| s.as_str()), Some("a1c2fa"));
    let primary = context.get("primary").unwrap();
    assert_ne!(primary, "stale");
    assert_eq!(primary.len(), 6);
}

#[test]
fn a_failed_palette_leaves_the_context_alone() {
    let mut context = Context::new();
    context.insert("font".to_string(), "mono".to_string());
    let e = generate_material_colors(&plain(rgb(1, 2, 3)), "dim", "tonal_spot", &mut context)
        .unwrap_err();
    assert_eq!(e.kind(), ErrorKind::InvalidTheme);
    assert_eq!(context.entries(), &vec![("font".to_string(), "mono".to_string())]);
}

#[test]
fn a_small_wallpaper_is_its_own_sample() {
    let w = wallpaper(2, 2, vec![1, 2, 3, 4, 5, 6, 7, 8, 9, 10, 11, 12]);
    let s = downsample(&w).unwrap();
    assert_eq!((s.width, s.height), (2, 2));
    assert_eq!(s.pixels, w.pixels);
    assert_eq!(s.path, w.path);
}

#[test]
fn a_sample_drops_bytes_beyond_the_dimensions() {
    let s = downsample(&wallpaper(1, 1, vec![9, 8, 7, 200, 200, 200])).unwrap();
    assert_eq!(s.pixels, vec![9, 8, 7]);
}

#[test]
fn a_wide_wallpaper_is_sampled_at_evenly_spread_columns() {
    assert_eq!(SAMPLE_SIDE, 128);
    let mut pixels = Vec::new();
    for x in 0..256u32 {
        pixels.push(x as u8);
        pixels.push(if x % 2 == 0 { 0 } else { 255 });
        pixels.push(7);
    }
    let s = downsample(&wallpaper(256, 1, pixels)).unwrap();
    assert_eq!((s.width, s.height), (128, 1));
    assert_eq!(s.pixels.len(), 128 * 3);
    for x in 0..128usize {
        assert_eq!(s.pixels[x * 3], (2 * x) as u8);
        assert_eq!(s.pixels[x * 3 + 1], 0);
        assert_eq!(s.pixels[x * 3 + 2], 7);
    }
}

#[test]
fn a_tall_wallpaper_is_sampled_at_evenly_spread_rows() {
    let mut pixels = Vec::new();
    for y in 0..300u32 {
        for x in 0..2u32 {
            pixels.push((y % 256) as u8);
            pixels.push(x as u8);
            pixels.push((y / 256) as u8);
        }
    }
    let s = downsample(&wallpaper(2, 300, pixels)).unwrap();
    assert_eq!((s.width, s.height), (2, 128));
    for y in 0..128usize {
        let source = y * 300 / 128;
        for x in 0..2usize {
            let at = (y * 2 + x) * 3;
            assert_eq!(s.pixels[at], (source % 256) as u8);
            assert_eq!(s.pixels[at + 1], x as u8);
            assert_eq!(s.pixels[at + 2], (source / 256) as u8);
        }
    }
}

#[test]
fn too_few_pixels_have_no_sample() {
    assert!(downsample(&wallpaper(2, 2, vec![1, 2, 3])).is_none());
    assert!(downsample(&wallpaper(u32::MAX, u32::MAX, vec![0; 12])).is_none());
    assert!(downsample(&wallpaper(0, 5, Vec::new())).is_some());
}

#[test]
fn the_seed_is_taken_from_the_sample() {
    let mut pixels = Vec::new();
    for x in 0..256u32 {
        let level = if x % 2 == 0 { 40 } else { 240 };
        pixels.push(level);
        pixels.push(level);
        pixels.push(level);
    }
    assert_eq!(seed_color(&wallpaper(256, 1, pixels)).unwrap(), rgb(40, 40, 40));
}
