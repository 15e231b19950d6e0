//! Template rendering: from a template's source and the context to the
//! text that is written, or the error that the entry ends with.

use vstd::prelude::*;
use vstd::string::StringExecFns;
use crate::context::Context;
use crate::engine::{compile, describe, render, rendering, template_compiles};
use crate::error::{Error, ErrorKind, ErrorView};

verus! {

/// How the engine fared with a template: the text, or its words for the
/// failure of compiling or of rendering.
#[derive(Debug)]
pub enum Rendering {
    Rendered(String),
    CompileFailed(String),
    RenderFailed(String),
}

/// The message of a template error: what failed, the template's path,
/// and the engine's words.
pub open spec fn template_error(what: Seq<char>, path: Seq<char>, reason: Seq<char>) -> Seq<char> {
    what + path + ": "@ + reason
}

/// What is returned for the template at `path` after the engine fared
/// as `outcome` says.
pub open spec fn spec_finish(path: Seq<char>, outcome: Rendering) -> Result<Seq<char>, ErrorView> {
    match outcome {
        Rendering::Rendered(text) => Ok(text@),
        Rendering::CompileFailed(reason) => Err(
            ErrorView {
                kind: ErrorKind::TemplateCompile,
                ctx: template_error("could not compile template "@, path, reason@),
            },
        ),
        Rendering::RenderFailed(reason) => Err(
            ErrorView {
                kind: ErrorKind::TemplateRender,
                ctx: template_error("could not render template "@, path, reason@),
            },
        ),
    }
}

fn template_failure(kind: ErrorKind, what: &str, path: &str, reason: &str) -> (e: Error)
    ensures
        e@ == (ErrorView { kind, ctx: template_error(what@, path@, reason@) }),
{
    let mut ctx = String::from_str(what);
    ctx.append(path);
    ctx.append(": ");
    ctx.append(reason);
    Error::new(kind, ctx)
}

/// Turns the engine's outcome for the template at `path` into the text to
/// write, or into the error of the entry.
pub fn finish(path: &str, outcome: Rendering) -> (r: Result<String, Error>)
    ensures
        match r {
            Ok(text) => spec_finish(path@, outcome) == Ok::<Seq<char>, ErrorView>(text@),
            Err(e) => spec_finish(path@, outcome) == Err::<Seq<char>, ErrorView>(e@),
        },
{
    match outcome {
        Rendering::Rendered(text) => Ok(text),
        Rendering::CompileFailed(reason) => Err(
            template_failure(
                ErrorKind::TemplateCompile,
                "could not compile template ",
                path,
                reason.as_str(),
            ),
        ),
        Rendering::RenderFailed(reason) => Err(
            template_failure(
                ErrorKind::TemplateRender,
                "could not render template ",
                path,
                reason.as_str(),
            ),
        ),
    }
}

/// Compiles `source` and renders it against `context`. A template that
/// does not compile fails as such; one that compiles and does not render
/// fails in rendering.
pub fn run_engine(source: &str, context: &Context) -> (outcome: Rendering)
    ensures
        match outcome {
            Rendering::Rendered(text) => template_compiles(source@) && rendering(source@, context@)
                == Some(text@),
            Rendering::CompileFailed(_) => !template_compiles(source@),
            Rendering::RenderFailed(_) => template_compiles(source@) && rendering(
                source@,
                context@,
            ) is None,
        },
{
    match compile(source) {
        Err(e) => Rendering::CompileFailed(describe(&e)),
        Ok(()) => match render(source, context) {
            Ok(text) => Rendering::Rendered(text),
            Err(e) => Rendering::RenderFailed(describe(&e)),
        },
    }
}

/// Renders the template at `path`, whose text is `source`, against
/// `context`.
///
/// The result is the text to write to the entry's destination. A
/// malformed template is a compile error and a template that cannot be
/// rendered against the context is a render error; either ends the entry,
/// and its message names the template.
pub fn generate_template(path: &str, source: &str, context: &Context) -> (r: Result<String, Error>)
    ensures
        match r {
            Ok(text) => template_compiles(source@) && rendering(source@, context@) == Some(text@),
            Err(e) => if template_compiles(source@) {
                &&& rendering(source@, context@) is None
                &&& e@.kind == ErrorKind::TemplateRender
                &&& exists|reason: Seq<char>|
                    e@.ctx == template_error("could not render template "@, path@, reason)
            } else {
                &&& e@.kind == ErrorKind::TemplateCompile
                &&& exists|reason: Seq<char>|
                    e@.ctx == template_error("could not compile template "@, path@, reason)
            },
        },
{
    let outcome = run_engine(source, context);
    let ghost fared = outcome;
    proof {
        // The engine's words are the reason that the message holds.
        match fared {
            Rendering::Rendered(_) => {},
            Rendering::CompileFailed(reason) => {
                assert(template_error("could not compile template "@, path@, reason@)
                    == template_error("could not compile template "@, path@, reason@));
            },
            Rendering::RenderFailed(reason) => {
                assert(template_error("could not render template "@, path@, reason@)
                    == template_error("could not render template "@, path@, reason@));
            },
        }
    }
    finish(path, outcome)
}

/// Why a write to a destination failed.
#[derive(Clone, Copy, Debug, PartialEq, Eq, Structural)]
pub enum WriteFailure {
    /// A directory on the way to the destination does not exist.
    NotFound,
    /// Anything else.
    Other,
}

/// Whether a failed write is tried again after the destination's parent
/// directories have been created: only the first attempt, and only where
/// a directory was missing. A destination that exists is overwritten and
/// never gets here.
pub fn retries_after_creating_parents(failure: WriteFailure, first_attempt: bool) -> (retry: bool)
    ensures
        retry <==> (first_attempt && failure == WriteFailure::NotFound),
{
    first_attempt && matches!(failure, WriteFailure::NotFound)
}

} // verus!
