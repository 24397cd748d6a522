//! The template environment that renders streamed components.
use crate::attrs::pair_views;
use minijinja::Environment;
use vstd::prelude::*;

verus! {

/// The template environment of `minijinja`.
#[verifier::external_type_specification]
#[verifier::external_body]
pub struct ExEnvironment<'source>(Environment<'source>);

/// A template environment that owns its template texts.
pub type TemplateEnv = Environment<'static>;

/// The templates an environment holds that were registered from owned text,
/// by name, each as its source text.
pub uninterp spec fn owned_templates(env: TemplateEnv) -> Map<Seq<char>, Seq<char>>;

/// Whether the environment compiles `source` as a template named `name`.
pub uninterp spec fn template_compiles(env: TemplateEnv, name: Seq<char>, source: Seq<char>) -> bool;

/// Calls `Environment::new`, which starts with an empty template store.
#[verifier::external_body]
pub fn new_environment() -> (fresh: TemplateEnv)
    ensures
        owned_templates(fresh) =~= Map::empty(),
{
    Environment::new()
}

/// Calls `Environment::add_template_owned`. Its source first drops a template
/// of that name registered from borrowed text, then compiles the text and,
/// when that succeeds, replaces the owned template of that name; when it
/// fails it returns an error and keeps the owned templates as they were. What
/// the environment compiles does not change.
#[verifier::external_body]
pub fn add_template(env: &mut TemplateEnv, name: String, source: String) -> (ok: bool)
    ensures
        ok == template_compiles(*old(env), name@, source@),
        ok ==> owned_templates(*final(env)) == owned_templates(*old(env)).insert(name@, source@),
        !ok ==> owned_templates(*final(env)) == owned_templates(*old(env)),
        forall|n: Seq<char>, t: Seq<char>| template_compiles(*final(env), n, t) == template_compiles(*old(env), n, t),
{
    env.add_template_owned(name, source).is_ok()
}

/// What rendering a template gives.
#[derive(Debug, Clone, PartialEq, Eq)]
pub enum RenderOutcome {
    /// The environment gives no template of that name.
    NoTemplate,
    /// The template fails to render with the context.
    Failed,
    /// The rendered text.
    Text(String),
}

/// What the environment's template `name` renders with a context whose
/// members are the given strings.
pub uninterp spec fn template_output(env: TemplateEnv, name: Seq<char>, ctx: Seq<(Seq<char>, Seq<char>)>) -> RenderOutcome;

/// Calls `Environment::get_template` and then `Template::render` with the
/// context members collected into a map of strings; the outcome is named by
/// `template_output`.
#[verifier::external_body]
pub fn render_template(env: &TemplateEnv, name: &str, ctx: Vec<(String, String)>) -> (r: RenderOutcome)
    ensures
        r == template_output(*env, name@, pair_views(ctx@)),
{
    let t = match env.get_template(name) {
        Ok(t) => t,
        Err(_) => return RenderOutcome::NoTemplate,
    };
    let ctx: std::collections::BTreeMap<String, String> = ctx.into_iter().collect();
    match t.render(ctx) {
        Ok(text) => RenderOutcome::Text(text),
        Err(_) => RenderOutcome::Failed,
    }
}

} // verus!
