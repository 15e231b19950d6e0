//! The template engine, as far as rendering needs it.

use vstd::prelude::*;
use upon::Error as EngineError;
use crate::context::Context;

verus! {

/// `upon::Error`: the engine's error, carried through as it is.
#[verifier::external_type_specification]
#[verifier::external_body]
pub struct ExEngineError(EngineError);

/// Whether the template engine accepts the syntax of `source`.
pub uninterp spec fn template_compiles(source: Seq<char>) -> bool;

/// The text that the template `source` renders to against the variables
/// `context`; `None` where compiling or rendering fails.
pub uninterp spec fn rendering(source: Seq<char>, context: Map<Seq<char>, Seq<char>>) -> Option<
    Seq<char>,
>;

/// `upon::Engine::compile` on a new engine: whether `source` compiles,
/// with the engine's error where it does not.
#[verifier::external_body]
pub(crate) fn compile(source: &str) -> (r: Result<(), EngineError>)
    ensures
        r is Ok <==> template_compiles(source@),
{
    upon::Engine::new().compile(source).map(|_| ())
}

/// `upon::Template::render` and `upon::Renderer::to_string` on a new
/// engine, for the template compiled from `source` and the variables of
/// `context` as a map from name to value: the text, or the engine's error
/// from compiling or rendering.
#[verifier::external_body]
pub(crate) fn render(source: &str, context: &Context) -> (r: Result<String, EngineError>)
    ensures
        match r {
            Ok(text) => rendering(source@, context@) == Some(text@),
            Err(_) => rendering(source@, context@) is None,
        },
{
    let engine = upon::Engine::new();
    let variables: std::collections::BTreeMap<&str, &str> =
        context.entries().iter().map(|(name, value)| (name.as_str(), value.as_str())).collect();
    engine.compile(source)?.render(&engine, variables).to_string()
}

/// `upon::Error`'s `Display`: the engine's own words for an error.
#[verifier::external_body]
pub(crate) fn describe(e: &EngineError) -> (text: String) {
    e.to_string()
}

} // verus!
