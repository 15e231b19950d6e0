//! The command line: one parsing pass from the argument list to the
//! operation to run.

use vstd::prelude::*;
use vstd::string::StringExecFns;
use crate::error::{Error, ErrorKind, ErrorView};
use crate::text::{spec_starts_with, starts_with_char, str_eq};

verus! {

/// The general usage text.
pub const USAGE: &'static str = "
Usage: dotman [OPTION] <SUBCOMMAND>

Options:
    -m, --manifest <FILE>  Path to Manifest file [default: ./Manifest.toml]
    -h, --help             Print help

Subcommands:
    sync                   Symlink files and generate templates 
    link                   Symlink files
    generate               Generate templates";

/// The usage text of `sync`.
pub const SYNC_USAGE: &'static str = "
Usage: dotman sync [OPTION] [NAME]

Options:
    -f, --force  Force remove existing files
    -h, --help   Print help";

/// The usage text of `link`.
pub const LINK_USAGE: &'static str = "
Usage: dotman link [OPTION] [NAME]

Options:
    -f, --force  Force remove existing files
    -h, --help   Print help";

/// The usage text of `generate`.
pub const GENERATE_USAGE: &'static str = "
Usage: dotman generate [NAME]

Options:
    -h, --help  Print help";

/// The manifest that is read when `--manifest` is not given.
pub const DEFAULT_MANIFEST: &'static str = "Manifest.toml";

/// The operation to run, with its options.
#[derive(Debug)]
pub enum SubCommand {
    /// Materialize symlinks, then render templates.
    Sync { force: bool, name: Option<String> },
    /// Materialize symlinks only.
    Link { force: bool, name: Option<String> },
    /// Render templates only.
    Generate { name: Option<String> },
}

/// A `SubCommand` as mathematical values.
pub enum SubCommandView {
    Sync { force: bool, name: Option<Seq<char>> },
    Link { force: bool, name: Option<Seq<char>> },
    Generate { name: Option<Seq<char>> },
}

impl View for SubCommand {
    type V = SubCommandView;

    open spec fn view(&self) -> SubCommandView {
        match *self {
            SubCommand::Sync { force, name } => SubCommandView::Sync { force, name: name.deep_view() },
            SubCommand::Link { force, name } => SubCommandView::Link { force, name: name.deep_view() },
            SubCommand::Generate { name } => SubCommandView::Generate { name: name.deep_view() },
        }
    }
}

/// A parsed command line.
#[derive(Debug)]
pub struct Cli {
    pub manifest_path: String,
    pub subcommand: SubCommand,
}

/// A `Cli` as mathematical values.
pub struct CliView {
    pub manifest_path: Seq<char>,
    pub subcommand: SubCommandView,
}

impl View for Cli {
    type V = CliView;

    open spec fn view(&self) -> CliView {
        CliView { manifest_path: self.manifest_path@, subcommand: self.subcommand@ }
    }
}

/// The three subcommand words.
#[derive(Clone, Copy, Debug, PartialEq, Eq, Structural)]
pub enum Verb {
    Sync,
    Link,
    Generate,
}

/// The usage texts that `--help` can ask for.
#[derive(Clone, Copy, Debug, PartialEq, Eq, Structural)]
pub enum HelpTopic {
    General,
    Sync,
    Link,
    Generate,
}

/// What a command line asks for: an operation, or a usage text.
#[derive(Debug)]
pub enum Parsed {
    Run(Cli),
    Help(HelpTopic),
}

/// The meaning of a command line: an operation, a usage text, or the
/// message of the usage error.
pub enum ParseView {
    Run(CliView),
    Help(HelpTopic),
    Fail(Seq<char>),
}

/// What the arguments after a subcommand word amount to.
pub enum TailView {
    Options { force: bool, name: Option<Seq<char>> },
    Help,
    InvalidFlag(Seq<char>),
}

/// Whether `arg` is written as an option: it starts with a dash.
pub open spec fn is_flag(arg: Seq<char>) -> bool {
    spec_starts_with(arg, '-')
}

/// Whether `arg` asks for help.
pub open spec fn is_help_flag(arg: Seq<char>) -> bool {
    arg == "-h"@ || arg == "--help"@
}

/// Whether `arg` allows existing destinations to be replaced.
pub open spec fn is_force_flag(arg: Seq<char>) -> bool {
    arg == "-f"@ || arg == "--force"@
}

/// Whether `arg` announces the path of the manifest.
pub open spec fn is_manifest_flag(arg: Seq<char>) -> bool {
    arg == "-m"@ || arg == "--manifest"@
}

/// The subcommand that the word `arg` names, if any.
pub open spec fn spec_verb(arg: Seq<char>) -> Option<Verb> {
    if arg == "sync"@ {
        Some(Verb::Sync)
    } else if arg == "link"@ {
        Some(Verb::Link)
    } else if arg == "generate"@ {
        Some(Verb::Generate)
    } else {
        None
    }
}

impl Verb {
    /// Whether the subcommand takes `--force`.
    pub open spec fn takes_force(self) -> bool {
        self != Verb::Generate
    }

    /// The usage text of the subcommand.
    pub open spec fn spec_usage(self) -> Seq<char> {
        match self {
            Verb::Sync => SYNC_USAGE@,
            Verb::Link => LINK_USAGE@,
            Verb::Generate => GENERATE_USAGE@,
        }
    }

    /// The help topic of the subcommand.
    pub open spec fn topic(self) -> HelpTopic {
        match self {
            Verb::Sync => HelpTopic::Sync,
            Verb::Link => HelpTopic::Link,
            Verb::Generate => HelpTopic::Generate,
        }
    }

    /// The operation for this subcommand with the given options. A
    /// subcommand that takes no `--force` ignores `force`.
    pub open spec fn operation(self, force: bool, name: Option<Seq<char>>) -> SubCommandView {
        match self {
            Verb::Sync => SubCommandView::Sync { force, name },
            Verb::Link => SubCommandView::Link { force, name },
            Verb::Generate => SubCommandView::Generate { name },
        }
    }
}

/// The arguments from index `i` on, read as the options of `verb`, where
/// `force` and `name` are what the arguments before `i` have set. Every
/// argument is consumed: the first `--help` or unknown option decides, a
/// later name replaces an earlier one.
pub open spec fn parse_tail(
    verb: Verb,
    args: Seq<Seq<char>>,
    i: int,
    force: bool,
    name: Option<Seq<char>>,
) -> TailView
    decreases args.len() - i,
{
    if i < 0 || i >= args.len() {
        TailView::Options { force, name }
    } else if is_flag(args[i]) {
        if is_help_flag(args[i]) {
            TailView::Help
        } else if verb.takes_force() && is_force_flag(args[i]) {
            parse_tail(verb, args, i + 1, true, name)
        } else {
            TailView::InvalidFlag(args[i])
        }
    } else {
        parse_tail(verb, args, i + 1, force, Some(args[i]))
    }
}

/// The message of a usage error: what is wrong, the offending argument,
/// and the usage text that applies.
pub open spec fn usage_error(what: Seq<char>, arg: Seq<char>, usage: Seq<char>) -> Seq<char> {
    what + arg + ".\n"@ + usage
}

/// The arguments from index `i` on, read as global options followed by a
/// subcommand, where `manifest` is the manifest path set so far.
pub open spec fn parse_from(args: Seq<Seq<char>>, i: int, manifest: Seq<char>) -> ParseView
    decreases args.len() - i,
{
    if i < 0 || i >= args.len() {
        ParseView::Fail(usage_error("missing arguments"@, ""@, USAGE@))
    } else if is_flag(args[i]) {
        if is_help_flag(args[i]) {
            ParseView::Help(HelpTopic::General)
        } else if is_manifest_flag(args[i]) {
            if i + 1 < args.len() {
                parse_from(args, i + 2, args[i + 1])
            } else {
                ParseView::Fail(
                    usage_error("missing required argument: PATH"@, ""@, USAGE@),
                )
            }
        } else {
            ParseView::Fail(usage_error("invalid flag "@, args[i], USAGE@))
        }
    } else {
        match spec_verb(args[i]) {
            Some(verb) => match parse_tail(verb, args, i + 1, false, None) {
                TailView::Options { force, name } => ParseView::Run(
                    CliView { manifest_path: manifest, subcommand: verb.operation(force, name) },
                ),
                TailView::Help => ParseView::Help(verb.topic()),
                TailView::InvalidFlag(arg) => ParseView::Fail(
                    usage_error("invalid flag "@, arg, verb.spec_usage()),
                ),
            },
            None => ParseView::Fail(usage_error("invalid subcommand "@, args[i], USAGE@)),
        }
    }
}

/// The meaning of the argument list `args`, whose first item is the
/// program's name and is skipped.
pub open spec fn spec_parse(args: Seq<Seq<char>>) -> ParseView {
    parse_from(args, 1, DEFAULT_MANIFEST@)
}

impl Verb {
    /// The usage text of the subcommand.
    pub fn usage(&self) -> (s: &'static str)
        ensures
            s@ == self.spec_usage(),
    {
        match self {
            Verb::Sync => SYNC_USAGE,
            Verb::Link => LINK_USAGE,
            Verb::Generate => GENERATE_USAGE,
        }
    }

    /// The subcommand that the word `arg` names, if any.
    pub fn from_word(arg: &str) -> (v: Option<Verb>)
        ensures
            v == spec_verb(arg@),
    {
        if str_eq(arg, "sync") {
            Some(Verb::Sync)
        } else if str_eq(arg, "link") {
            Some(Verb::Link)
        } else if str_eq(arg, "generate") {
            Some(Verb::Generate)
        } else {
            None
        }
    }

    fn into_operation(self, force: bool, name: Option<String>) -> (c: SubCommand)
        ensures
            c@ == self.operation(force, name.deep_view()),
    {
        match self {
            Verb::Sync => SubCommand::Sync { force, name },
            Verb::Link => SubCommand::Link { force, name },
            Verb::Generate => SubCommand::Generate { name },
        }
    }

    fn help(self) -> (t: HelpTopic)
        ensures
            t == self.topic(),
    {
        match self {
            Verb::Sync => HelpTopic::Sync,
            Verb::Link => HelpTopic::Link,
            Verb::Generate => HelpTopic::Generate,
        }
    }
}

impl HelpTopic {
    /// The one-line summary that heads the help text.
    pub open spec fn spec_summary(self) -> Seq<char> {
        match self {
            HelpTopic::General => "Dotfiles manager for unix-like operating systems\n"@,
            HelpTopic::Sync => "Symlink files and generate templates\n"@,
            HelpTopic::Link => "Symlink files\n"@,
            HelpTopic::Generate => "Generate templates\n"@,
        }
    }

    /// The usage text of the topic.
    pub open spec fn spec_usage(self) -> Seq<char> {
        match self {
            HelpTopic::General => USAGE@,
            HelpTopic::Sync => SYNC_USAGE@,
            HelpTopic::Link => LINK_USAGE@,
            HelpTopic::Generate => GENERATE_USAGE@,
        }
    }

    /// The text that `--help` prints for this topic: the summary line, then
    /// the usage.
    pub fn text(&self) -> (s: String)
        ensures
            s@ == self.spec_summary() + self.spec_usage(),
    {
        let (summary, usage) = match self {
            HelpTopic::General => ("Dotfiles manager for unix-like operating systems\n", USAGE),
            HelpTopic::Sync => ("Symlink files and generate templates\n", SYNC_USAGE),
            HelpTopic::Link => ("Symlink files\n", LINK_USAGE),
            HelpTopic::Generate => ("Generate templates\n", GENERATE_USAGE),
        };
        let mut s = String::from_str(summary);
        s.append(usage);
        s
    }
}

fn usage_failure(what: &str, arg: &str, usage: &str) -> (e: Error)
    ensures
        e@ == (ErrorView { kind: ErrorKind::Usage, ctx: usage_error(what@, arg@, usage@) }),
{
    let mut ctx = String::from_str(what);
    ctx.append(arg);
    ctx.append(".\n");
    ctx.append(usage);
    Error::new(ErrorKind::Usage, ctx)
}

fn is_help(arg: &str) -> (r: bool)
    ensures
        r == is_help_flag(arg@),
{
    str_eq(arg, "-h") || str_eq(arg, "--help")
}

fn is_force(arg: &str) -> (r: bool)
    ensures
        r == is_force_flag(arg@),
{
    str_eq(arg, "-f") || str_eq(arg, "--force")
}

fn is_manifest(arg: &str) -> (r: bool)
    ensures
        r == is_manifest_flag(arg@),
{
    str_eq(arg, "-m") || str_eq(arg, "--manifest")
}

/// What `try_parse` owes for the arguments whose meaning is `meaning`.
pub open spec fn parse_result_is(r: Result<Parsed, Error>, meaning: ParseView) -> bool {
    match r {
        Ok(Parsed::Run(cli)) => meaning == ParseView::Run(cli@),
        Ok(Parsed::Help(topic)) => meaning == ParseView::Help(topic),
        Err(e) => e@.kind == ErrorKind::Usage && meaning == ParseView::Fail(e@.ctx),
    }
}

/// Reads the arguments from index `start` on as the options of `verb`.
fn parse_options(verb: Verb, args: &Vec<String>, start: usize, manifest_path: String) -> (r: Result<
    Parsed,
    Error,
>)
    ensures
        parse_result_is(
            r,
            match parse_tail(verb, args.deep_view(), start as int, false, None) {
                TailView::Options { force, name } => ParseView::Run(
                    CliView {
                        manifest_path: manifest_path@,
                        subcommand: verb.operation(force, name),
                    },
                ),
                TailView::Help => ParseView::Help(verb.topic()),
                TailView::InvalidFlag(arg) => ParseView::Fail(
                    usage_error("invalid flag "@, arg, verb.spec_usage()),
                ),
            },
        ),
{
    let ghost av = args.deep_view();
    let mut force = false;
    let mut name: Option<String> = None;
    let mut i: usize = start;
    while i < args.len()
        invariant
            av == args.deep_view(),
            parse_tail(verb, av, i as int, force, name.deep_view()) == parse_tail(
                verb,
                av,
                start as int,
                false,
                None,
            ),
        decreases args.len() - i,
    {
        let arg = args[i].as_str();
        if starts_with_char(arg, '-') {
            if is_help(arg) {
                return Ok(Parsed::Help(verb.help()));
            } else if !matches!(verb, Verb::Generate) && is_force(arg) {
                force = true;
            } else {
                return Err(usage_failure("invalid flag ", arg, verb.usage()));
            }
        } else {
            name = Some(args[i].clone());
        }
        i = i + 1;
    }
    Ok(Parsed::Run(Cli { manifest_path, subcommand: verb.into_operation(force, name) }))
}

impl Cli {
    /// Parses the argument list of the process; its first item, the
    /// program's name, is skipped.
    ///
    /// Global options come first: `-m`/`--manifest` takes the next argument
    /// as the manifest path, `-h`/`--help` asks for the general usage. The
    /// first word that is no option must be `sync`, `link` or `generate`;
    /// everything after it belongs to that subcommand: `-f`/`--force` (not
    /// for `generate`), `-h`/`--help`, and an entry name, of which the last
    /// one given counts.
    pub fn try_parse(args: &Vec<String>) -> (r: Result<Parsed, Error>)
        ensures
            parse_result_is(r, spec_parse(args.deep_view())),
    {
        let ghost av = args.deep_view();
        let mut manifest_path = String::from_str(DEFAULT_MANIFEST);
        let mut i: usize = 1;
        while i < args.len()
            invariant
                av == args.deep_view(),
                parse_from(av, i as int, manifest_path@) == spec_parse(av),
            decreases args.len() - i,
        {
            let arg = args[i].as_str();
            if starts_with_char(arg, '-') {
                if is_help(arg) {
                    return Ok(Parsed::Help(HelpTopic::General));
                } else if is_manifest(arg) {
                    if i + 1 < args.len() {
                        manifest_path = args[i + 1].clone();
                        i = i + 2;
                    } else {
                        return Err(usage_failure("missing required argument: PATH", "", USAGE));
                    }
                } else {
                    return Err(usage_failure("invalid flag ", arg, USAGE));
                }
            } else {
                match Verb::from_word(arg) {
                    Some(verb) => {
                        return parse_options(verb, args, i + 1, manifest_path);
                    },
                    None => {
                        return Err(usage_failure("invalid subcommand ", arg, USAGE));
                    },
                }
            }
        }
        Err(usage_failure("missing arguments", "", USAGE))
    }
}

} // verus!
