use dotman::cli::{Cli, HelpTopic, Parsed, SubCommand, Verb, GENERATE_USAGE, LINK_USAGE, SYNC_USAGE, USAGE};
use dotman::error::ErrorKind;

fn args(words: &[&str]) -> Vec<String> {
    words.iter().map(|w| w.to_string()).collect()
}

fn run(words: &[&str]) -> Cli {
    match Cli::try_parse(&args(words)) {
        Ok(Parsed::Run(cli)) => cli,
        other => panic!("expected an operation, got {:?}", other),
    }
}

fn help(words: &[&str]) -> HelpTopic {
    match Cli::try_parse(&args(words)) {
        Ok(Parsed::Help(topic)) => topic,
        other => panic!("expected a help topic, got {:?}", other),
    }
}

fn failure(words: &[&str]) -> String {
    match Cli::try_parse(&args(words)) {
        Err(e) => {
            assert_eq!(e.kind(), ErrorKind::Usage);
            e.message()
        }
        other => panic!("expected a usage error, got {:?}", other),
    }
}

#[test]
fn sync_without_options_uses_the_default_manifest() {
    let cli = run(&["dotman", "sync"]);
    assert_eq!(cli.manifest_path, "Manifest.toml");
    assert!(matches!(cli.subcommand, SubCommand::Sync { force: false, name: None }));
}

#[test]
fn link_with_force_and_name() {
    let cli = run(&["dotman", "link", "-f", "vimrc"]);
    match cli.subcommand {
        SubCommand::Link { force, name } => {
            assert!(force);
            assert_eq!(name.as_deref(), Some("vimrc"));
        }
        other => panic!("expected link, got {:?}", other),
    }
}

#[test]
fn long_force_flag_after_the_name() {
    let cli = run(&["dotman", "sync", "nvim", "--force"]);
    match cli.subcommand {
        SubCommand::Sync { force, name } => {
            assert!(force);
            assert_eq!(name.as_deref(), Some("nvim"));
        }
        other => panic!("expected sync, got {:?}", other),
    }
}

#[test]
fn generate_takes_a_name() {
    let cli = run(&["dotman", "generate", "kitty"]);
    match cli.subcommand {
        SubCommand::Generate { name } => assert_eq!(name.as_deref(), Some("kitty")),
        other => panic!("expected generate, got {:?}", other),
    }
}

#[test]
fn the_last_name_counts() {
    let cli = run(&["dotman", "link", "first", "second"]);
    match cli.subcommand {
        SubCommand::Link { force, name } => {
            assert!(!force);
            assert_eq!(name.as_deref(), Some("second"));
        }
        other => panic!("expected link, got {:?}", other),
    }
}

#[test]
fn manifest_flag_takes_the_next_argument() {
    let cli = run(&["dotman", "-m", "other.toml", "link"]);
    assert_eq!(cli.manifest_path, "other.toml");
    let cli = run(&["dotman", "--manifest", "-odd", "generate"]);
    assert_eq!(cli.manifest_path, "-odd");
    let cli = run(&["dotman", "-m", "a.toml", "-m", "b.toml", "sync"]);
    assert_eq!(cli.manifest_path, "b.toml");
}

#[test]
fn subcommand_words_after_the_subcommand_are_names() {
    let cli = run(&["dotman", "sync", "link"]);
    match cli.subcommand {
        SubCommand::Sync { force, name } => {
            assert!(!force);
            assert_eq!(name.as_deref(), Some("link"));
        }
        other => panic!("expected sync, got {:?}", other),
    }
}

#[test]
fn help_topics() {
    assert_eq!(help(&["dotman", "-h"]), HelpTopic::General);
    assert_eq!(help(&["dotman", "--help", "bogus"]), HelpTopic::General);
    assert_eq!(help(&["dotman", "sync", "--help"]), HelpTopic::Sync);
    assert_eq!(help(&["dotman", "link", "x", "-h"]), HelpTopic::Link);
    assert_eq!(help(&["dotman", "generate", "-h", "--bogus"]), HelpTopic::Generate);
    assert_eq!(help(&["dotman", "-m", "m.toml", "--help"]), HelpTopic::General);
}

#[test]
fn help_texts() {
    assert_eq!(
        HelpTopic::General.text(),
        format!("Dotfiles manager for unix-like operating systems\n{}", USAGE)
    );
    assert_eq!(
        HelpTopic::Sync.text(),
        format!("Symlink files and generate templates\n{}", SYNC_USAGE)
    );
    assert_eq!(HelpTopic::Link.text(), format!("Symlink files\n{}", LINK_USAGE));
    assert_eq!(HelpTopic::Generate.text(), format!("Generate templates\n{}", GENERATE_USAGE));
    assert!(USAGE.starts_with("\nUsage: dotman [OPTION] <SUBCOMMAND>"));
}

#[test]
fn missing_arguments() {
    assert_eq!(failure(&["dotman"]), format!("missing arguments.\n{}", USAGE));
    assert_eq!(failure(&[]), format!("missing arguments.\n{}", USAGE));
    assert_eq!(failure(&["dotman", "-m", "x.toml"]), format!("missing arguments.\n{}", USAGE));
}

#[test]
fn missing_manifest_path() {
    assert_eq!(
        failure(&["dotman", "--manifest"]),
        format!("missing required argument: PATH.\n{}", USAGE)
    );
}

#[test]
fn invalid_global_flag() {
    assert_eq!(failure(&["dotman", "-x", "sync"]), format!("invalid flag -x.\n{}", USAGE));
    assert_eq!(failure(&["dotman", "-f", "sync"]), format!("invalid flag -f.\n{}", USAGE));
}

#[test]
fn invalid_subcommand() {
    assert_eq!(
        failure(&["dotman", "deploy"]),
        format!("invalid subcommand deploy.\n{}", USAGE)
    );
    assert_eq!(failure(&["dotman", ""]), format!("invalid subcommand .\n{}", USAGE));
}

#[test]
fn invalid_subcommand_flags() {
    assert_eq!(
        failure(&["dotman", "sync", "-x"]),
        format!("invalid flag -x.\n{}", SYNC_USAGE)
    );
    assert_eq!(
        failure(&["dotman", "link", "--forse"]),
        format!("invalid flag --forse.\n{}", LINK_USAGE)
    );
    assert_eq!(
        failure(&["dotman", "generate", "-f"]),
        format!("invalid flag -f.\n{}", GENERATE_USAGE)
    );
    assert_eq!(
        failure(&["dotman", "sync", "-m", "x.toml"]),
        format!("invalid flag -m.\n{}", SYNC_USAGE)
    );
}

#[test]
fn the_first_deciding_option_wins() {
    assert_eq!(failure(&["dotman", "link", "-x", "-h"]), format!("invalid flag -x.\n{}", LINK_USAGE));
    assert_eq!(help(&["dotman", "link", "-h", "-x"]), HelpTopic::Link);
}

#[test]
fn verbs() {
    assert_eq!(Verb::from_word("sync"), Some(Verb::Sync));
    assert_eq!(Verb::from_word("link"), Some(Verb::Link));
    assert_eq!(Verb::from_word("generate"), Some(Verb::Generate));
    assert_eq!(Verb::from_word("Sync"), None);
    assert_eq!(Verb::Sync.usage(), SYNC_USAGE);
    assert_eq!(Verb::Link.usage(), LINK_USAGE);
    assert_eq!(Verb::Generate.usage(), GENERATE_USAGE);
}
