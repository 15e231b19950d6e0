use dotman::builder::create_context_map;
use dotman::context::Context;
use dotman::error::{Error, ErrorKind, LogLevel};
use dotman::manifest::{
    default_recursive_option, default_theme_option, default_variant_option, has_templates, Entry,
    EntryGroup, Manifest, Options,
};
use dotman::palette::Wallpaper;

fn entry(template: Option<&str>) -> Entry {
    Entry {
        target: Some("./t".to_string()),
        dest: "~/d".to_string(),
        template: template.map(|s| s.to_string()),
        recursive: default_recursive_option(),
        pre_hooks: Vec::new(),
        post_hooks: Vec::new(),
    }
}

fn manifest(wallpaper: Option<&str>, templated: bool, variables: &[(&str, &str)]) -> Manifest {
    Manifest {
        options: Options {
            wallpaper: wallpaper.map(|s| s.to_string()),
            theme: default_theme_option(),
            variant: default_variant_option(),
        },
        variables: variables.iter().map(|(k, v)| (k.to_string(), v.to_string())).collect(),
        entries: vec![
            EntryGroup { name: "plain".to_string(), entries: vec![entry(None)] },
            EntryGroup {
                name: "mixed".to_string(),
                entries: vec![entry(None), entry(if templated { Some("./x.tpl") } else { None })],
            },
        ],
    }
}

fn wallpaper() -> Wallpaper {
    Wallpaper {
        path: "/home/u/pictures/wall.png".to_string(),
        width: 2,
        height: 2,
        pixels: vec![66, 133, 244, 66, 133, 244, 66, 133, 244, 66, 133, 244],
    }
}

fn value<'a>(context: &'a Context, key: &str) -> Option<&'a str> {
    context.get(key).map(|s| s.as_str())
}

#[test]
fn the_defaults() {
    assert_eq!(default_theme_option(), "dark");
    assert_eq!(default_variant_option(), "tonal_spot");
    assert!(!default_recursive_option());
}

#[test]
fn templates_are_found_in_any_group() {
    assert!(has_templates(&manifest(None, true, &[])));
    assert!(!has_templates(&manifest(None, false, &[])));
    let m = manifest(None, true, &[]);
    assert!(!m.entries[0].has_templates());
    assert!(m.entries[1].has_templates());
    let empty = Manifest { entries: Vec::new(), ..manifest(None, false, &[]) };
    assert!(!has_templates(&empty));
}

#[test]
fn group_names_are_checked_for_uniqueness() {
    let mut m = manifest(None, false, &[]);
    assert!(m.names_unique());
    m.entries.push(EntryGroup { name: "plain".to_string(), entries: Vec::new() });
    assert!(!m.names_unique());
}

#[test]
fn with_a_wallpaper_the_palette_is_built() {
    let mut context = Context::new();
    let m = manifest(Some("~/pictures/wall.png"), true, &[("font", "mono")]);
    let built = create_context_map(&mut context, &m, Some(&wallpaper())).unwrap();
    assert!(built);
    assert_eq!(value(&context, "wallpaper"), Some("/home/u/pictures/wall.png"));
    assert_eq!(value(&context, "source_color"), Some("4285f4"));
    assert_eq!(value(&context, "theme"), Some("dark"));
    assert_eq!(value(&context, "font"), Some("mono"));
    assert_eq!(value(&context, "base0"), Some("21437a"));
    assert!(context.contains_key("primary"));
    assert!(context.contains_key("on_surface"));
    assert_eq!(context.len(), 1 + 1 + 49 + 16 + 1 + 1);
}

#[test]
fn user_variables_win_over_the_palette() {
    let mut context = Context::new();
    let m = manifest(
        Some("wall.png"),
        true,
        &[("primary", "123456"), ("theme", "mine"), ("wallpaper", "none"), ("base7", "x")],
    );
    create_context_map(&mut context, &m, Some(&wallpaper())).unwrap();
    assert_eq!(value(&context, "primary"), Some("123456"));
    assert_eq!(value(&context, "theme"), Some("mine"));
    assert_eq!(value(&context, "wallpaper"), Some("none"));
    assert_eq!(value(&context, "base7"), Some("x"));
    assert_eq!(value(&context, "source_color"), Some("4285f4"));
    assert_eq!(context.len(), 1 + 1 + 49 + 16 + 1);
}

#[test]
fn of_two_declarations_of_a_variable_the_last_wins() {
    let mut context = Context::new();
    let m = manifest(None, false, &[("font", "serif"), ("size", "12"), ("font", "mono")]);
    create_context_map(&mut context, &m, None).unwrap();
    assert_eq!(value(&context, "font"), Some("mono"));
    assert_eq!(value(&context, "size"), Some("12"));
}

#[test]
fn without_wallpaper_a_template_is_an_error() {
    let mut context = Context::new();
    context.insert("kept".to_string(), "yes".to_string());
    let m = manifest(None, true, &[("font", "mono")]);
    let e: Error = create_context_map(&mut context, &m, None).unwrap_err();
    assert_eq!(e.kind(), ErrorKind::MissingWallpaper);
    assert_eq!(e.message(), "could not generate color palette: wallpaper is not set.");
    assert_eq!(context.len(), 1);
    assert_eq!(value(&context, "kept"), Some("yes"));
}

#[test]
fn without_wallpaper_and_templates_the_palette_is_skipped() {
    let mut context = Context::new();
    let m = manifest(None, false, &[("font", "mono")]);
    let built = create_context_map(&mut context, &m, Some(&wallpaper())).unwrap();
    assert!(!built);
    assert_eq!(context.len(), 1);
    assert_eq!(value(&context, "font"), Some("mono"));
}

#[test]
fn a_declared_wallpaper_that_was_not_loaded_is_an_image_error() {
    let mut context = Context::new();
    let m = manifest(Some("~/wall.png"), false, &[("font", "mono")]);
    let e = create_context_map(&mut context, &m, None).unwrap_err();
    assert_eq!(e.kind(), ErrorKind::Image);
    assert_eq!(e.message(), "Could not load image ~/wall.png");
    assert_eq!(context.len(), 0);
}

#[test]
fn bad_palette_options_leave_the_context_alone() {
    let mut context = Context::new();
    let mut m = manifest(Some("wall.png"), true, &[("font", "mono")]);
    m.options.variant = "pastel".to_string();
    let e = create_context_map(&mut context, &m, Some(&wallpaper())).unwrap_err();
    assert_eq!(e.kind(), ErrorKind::InvalidVariant);
    assert_eq!(context.len(), 0);
    m.options.variant = "content".to_string();
    m.options.theme = "dusk".to_string();
    let e = create_context_map(&mut context, &m, Some(&wallpaper())).unwrap_err();
    assert_eq!(e.kind(), ErrorKind::InvalidTheme);
    assert_eq!(context.len(), 0);
}

#[test]
fn errors_carry_their_kind_and_message() {
    let e = Error::new(ErrorKind::NotFound, "could not find ./vimrc".to_string());
    assert_eq!(e.kind(), ErrorKind::NotFound);
    assert_eq!(e.message(), "could not find ./vimrc");
    let e = Error::with_detail(ErrorKind::Config, "could not parse toml ", "Manifest.toml");
    assert_eq!(e.kind(), ErrorKind::Config);
    assert_eq!(e.message(), "could not parse toml Manifest.toml");
}

#[test]
fn log_lines() {
    assert_eq!(LogLevel::Info.prefix(), "\x1b[0;32mINFO\x1b[0m: ");
    assert_eq!(LogLevel::Warning.prefix(), "\x1b[0;33mWARNING\x1b[0m: ");
    assert_eq!(LogLevel::Error.prefix(), "\x1b[0;31mERROR\x1b[0m: ");
    assert_eq!(LogLevel::Info.line("Symlinked a -> b"), "\x1b[0;32mINFO\x1b[0m: Symlinked a -> b");
    assert!(LogLevel::Error.to_stderr());
    assert!(!LogLevel::Warning.to_stderr());
    assert!(!LogLevel::Info.to_stderr());
}
