use dotman::builder::create_context_map;
use dotman::cli::{Cli, Parsed};
use dotman::context::Context;
use dotman::error::ErrorKind;
use dotman::manifest::{Entry, EntryGroup, Manifest, Options};
use dotman::paths::{join_path, resolve_home_dir};
use dotman::plan::{plan, Step};
use dotman::symlink::{DestState, LinkAction};
use dotman::walk::{Inspection, Walk};

fn manifest(entries: Vec<EntryGroup>) -> Manifest {
    Manifest {
        options: Options {
            wallpaper: None,
            theme: "dark".to_string(),
            variant: "tonal_spot".to_string(),
        },
        variables: Vec::new(),
        entries,
    }
}

fn entry(target: Option<&str>, dest: &str, template: Option<&str>) -> EntryGroup {
    EntryGroup {
        name: dest.trim_start_matches("~/.").to_string(),
        entries: vec![Entry {
            target: target.map(|s| s.to_string()),
            dest: dest.to_string(),
            template: template.map(|s| s.to_string()),
            recursive: false,
            pre_hooks: Vec::new(),
            post_hooks: Vec::new(),
        }],
    }
}

fn operation(words: &[&str]) -> Cli {
    let args: Vec<String> = words.iter().map(|w| w.to_string()).collect();
    match Cli::try_parse(&args).unwrap() {
        Parsed::Run(cli) => cli,
        Parsed::Help(topic) => panic!("unexpected help {:?}", topic),
    }
}

/// One `link` of the manifest, against a destination in the state
/// `found`: the action taken, and the link that is then at the
/// destination.
fn link_once(m: &Manifest, found: DestState) -> (LinkAction, String, String) {
    let cli = operation(&["dotman", "link"]);
    let steps = plan(m, &cli.subcommand).unwrap();
    assert_eq!(steps.len(), 1);
    let (target, dest, force, recursive) = match &steps[0] {
        Step::Link { entry, target, dest, force, recursive } => {
            assert_eq!(entry, "vimrc");
            (target.clone(), dest.clone(), *force, *recursive)
        }
        other => panic!("expected a link, got {:?}", other),
    };
    let home = Some("/home/u");
    let target = join_path("/dots", &resolve_home_dir(&target, home).unwrap());
    let dest = join_path("/dots", &resolve_home_dir(&dest, home).unwrap());
    let mut walk = Walk::new(target, dest, force, recursive);
    assert_eq!(walk.next().unwrap().target, "/dots/./vimrc");
    let task = walk
        .advance(Inspection {
            canonical: "/dots/vimrc".to_string(),
            is_dir: false,
            names: Vec::new(),
            dest: found,
        })
        .unwrap();
    assert!(walk.next().is_none());
    (task.action, task.target, task.dest)
}

#[test]
fn linking_vimrc_creates_the_link_and_a_second_run_finds_it_up_to_date() {
    let m = manifest(vec![entry(Some("./vimrc"), "~/.vimrc", None)]);
    let (action, target, dest) = link_once(&m, DestState::Missing);
    assert_eq!(action, LinkAction::Create);
    assert_eq!(target, "/dots/vimrc");
    assert_eq!(dest, "/home/u/.vimrc");

    let now = DestState::Symlink { resolved: Some(target) };
    let (action, _, dest) = link_once(&m, now);
    assert_eq!(action, LinkAction::UpToDate);
    assert!(!action.mutates());
    assert_eq!(dest, "/home/u/.vimrc");
}

#[test]
fn generate_without_wallpaper_fails_with_nothing_done() {
    let m = manifest(vec![entry(None, "~/.kitty", Some("./kitty.tpl"))]);
    let cli = operation(&["dotman", "generate"]);
    let e = plan(&m, &cli.subcommand).unwrap_err();
    assert_eq!(e.kind(), ErrorKind::MissingWallpaper);

    let mut context = Context::new();
    let e = create_context_map(&mut context, &m, None).unwrap_err();
    assert_eq!(e.kind(), ErrorKind::MissingWallpaper);
    assert_eq!(context.len(), 0);
}

#[test]
fn generate_of_an_unknown_name_fails_with_nothing_done() {
    let m = manifest(vec![entry(Some("./vimrc"), "~/.vimrc", None)]);
    let cli = operation(&["dotman", "generate", "NAME"]);
    let e = plan(&m, &cli.subcommand).unwrap_err();
    assert_eq!(e.kind(), ErrorKind::EntryNotFound);
    assert_eq!(e.message(), "could not find NAME");
}
