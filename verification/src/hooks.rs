//! Hooks: from a command line to the program to launch and its arguments.

use vstd::prelude::*;
use vstd::string::StringExecFns;
use crate::error::{Error, ErrorKind, ErrorView};

verus! {

/// The words of `line`: its maximal runs of characters that are not
/// white space, in order.
pub uninterp spec fn words_of(line: Seq<char>) -> Seq<Seq<char>>;

/// `str::split_whitespace`: the words of `line`, each as a string of its
/// own.
#[verifier::external_body]
fn split_whitespace(line: &str) -> (words: Vec<String>)
    ensures
        words.deep_view() == words_of(line@),
{
    line.split_whitespace().map(String::from).collect()
}

/// A program to launch, with its arguments.
#[derive(Debug)]
pub struct HookCommand {
    pub program: String,
    pub args: Vec<String>,
}

/// A `HookCommand` as mathematical values.
pub struct HookCommandView {
    pub program: Seq<char>,
    pub args: Seq<Seq<char>>,
}

impl View for HookCommand {
    type V = HookCommandView;

    open spec fn view(&self) -> HookCommandView {
        HookCommandView { program: self.program@, args: self.args.deep_view() }
    }
}

/// The error for a hook without a single word.
pub open spec fn no_command() -> ErrorView {
    ErrorView { kind: ErrorKind::Hook, ctx: "could not execute hook: No command provided"@ }
}

/// The command that the words `words` make up: the first is the program,
/// the others are its arguments. No word at all is an error.
pub open spec fn spec_command(words: Seq<Seq<char>>) -> Result<HookCommandView, ErrorView> {
    if words.len() == 0 {
        Err(no_command())
    } else {
        Ok(HookCommandView { program: words[0], args: words.skip(1) })
    }
}

/// Makes a command of the words of a command line.
pub fn command_from_words(words: Vec<String>) -> (r: Result<HookCommand, Error>)
    ensures
        match r {
            Ok(command) => spec_command(words.deep_view()) == Ok::<HookCommandView, ErrorView>(
                command@,
            ),
            Err(e) => spec_command(words.deep_view()) == Err::<HookCommandView, ErrorView>(e@),
        },
{
    if words.len() == 0 {
        return Err(
            Error::new(
                ErrorKind::Hook,
                String::from_str("could not execute hook: No command provided"),
            ),
        );
    }
    let mut args: Vec<String> = Vec::new();
    let mut k: usize = 1;
    while k < words.len()
        invariant
            1 <= k <= words.len(),
            args.deep_view() == words.deep_view().subrange(1, k as int),
        decreases words.len() - k,
    {
        let ghost before = args.deep_view();
        args.push(words[k].clone());
        assert(args.deep_view() =~= before.push(words.deep_view()[k as int]));
        assert(args.deep_view() =~= words.deep_view().subrange(1, k + 1));
        k = k + 1;
    }
    assert(args.deep_view() =~= words.deep_view().skip(1));
    Ok(HookCommand { program: words[0].clone(), args })
}

/// Reads the command line of a hook: it is split at white space, with no
/// quoting of any kind. The first word is the program to launch.
pub fn parse_hook(line: &str) -> (r: Result<HookCommand, Error>)
    ensures
        match r {
            Ok(command) => spec_command(words_of(line@)) == Ok::<HookCommandView, ErrorView>(
                command@,
            ),
            Err(e) => spec_command(words_of(line@)) == Err::<HookCommandView, ErrorView>(e@),
        },
{
    command_from_words(split_whitespace(line))
}

} // verus!
