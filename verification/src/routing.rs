//! The gateway's decisions: where a message from a client goes, which hooks
//! greet a new connection, and the table of connected sessions that incoming
//! messages are delivered to.
use crate::config::{hook_map_contents, hook_map_get, Hook, HookMap, Hooks};
use crate::attrs::pair_views;
use crate::json::JsonValue;
use crate::templates::{render_template, template_output, RenderOutcome, TemplateEnv};
use crate::session::Session;
use vstd::prelude::*;

verus! {

/// The positions of the hooks that are switched on, in order.
pub open spec fn enabled_positions(hooks: Seq<Hook>) -> Seq<usize>
    decreases hooks.len(),
{
    if hooks.len() == 0 {
        Seq::empty()
    } else if hooks.last().disable {
        enabled_positions(hooks.drop_last())
    } else {
        enabled_positions(hooks.drop_last()).push((hooks.len() - 1) as usize)
    }
}

/// Where a message from a client goes.
#[derive(Debug, Clone, PartialEq, Eq)]
pub enum Route {
    /// To the hooks of its event at these positions (those switched on, in
    /// order); nothing goes to the outgoing queue.
    Hooks(Vec<usize>),
    /// To the outgoing queue, for the business services.
    Outgo,
}

/// The route that the configuration gives a message with event `event`.
pub open spec fn route_of(hooks: Map<Seq<char>, Hooks>, event: Option<Seq<char>>) -> Option<Seq<usize>> {
    match event {
        Some(e) => if hooks.contains_key(e) {
            Some(enabled_positions(hooks[e].0@))
        } else {
            None
        },
        None => None,
    }
}

/// The positions of the hooks of `hooks` that are switched on.
pub fn enabled_hooks(hooks: &Hooks) -> (r: Vec<usize>)
    ensures
        r@ == enabled_positions(hooks.0@),
{
    let v = hooks.as_vec();
    let mut r: Vec<usize> = Vec::new();
    let mut i: usize = 0;
    while i < v.len()
        invariant
            i <= v.len(),
            *v == hooks.0,
            r@ == enabled_positions(v@.take(i as int)),
        decreases v.len() - i,
    {
        assert(v@.take(i + 1).drop_last() =~= v@.take(i as int));
        if !v[i].disable {
            r.push(i);
        }
        i += 1;
    }
    assert(v@.take(v.len() as int) =~= v@);
    r
}

/// Decides where a message with event `event` goes: to the switched-on hooks
/// of that event when the configuration has hooks for it, else to the
/// outgoing queue.
pub fn route_message(hooks: &HookMap, event: Option<&str>) -> (r: Route)
    ensures
        match route_of(hook_map_contents(*hooks), match event { Some(e) => Some(e@), None => None }) {
            Some(p) => r matches Route::Hooks(v) && v@ == p,
            None => r is Outgo,
        },
{
    match event {
        Some(e) => match hook_map_get(hooks, e) {
            Some(hs) => Route::Hooks(enabled_hooks(hs)),
            None => Route::Outgo,
        },
        None => Route::Outgo,
    }
}

/// The hooks that greet a new connection: all hooks of the event `greet`,
/// switched off or not.
pub fn greet_hooks(hooks: &HookMap) -> (r: Option<&Hooks>)
    ensures
        r is Some <==> hook_map_contents(*hooks).contains_key("greet"@),
        r matches Some(h) ==> *h == hook_map_contents(*hooks)["greet"@],
{
    hook_map_get(hooks, "greet")
}

/// The context of the error template when a hook fails:
/// `{ "event": event, "error": error }`.
pub fn webhook_error_context(event: &str, error: String) -> (m: Vec<(String, JsonValue)>)
    ensures
        m@.len() == 2,
        m@[0].0@ == "event"@,
        m@[0].1 matches JsonValue::Str(s) && s@ == event@,
        m@[1].0@ == "error"@,
        m@[1].1 == JsonValue::Str(error),
{
    let mut m: Vec<(String, JsonValue)> = Vec::new();
    m.push(("event".to_owned(), JsonValue::Str(event.to_owned())));
    m.push(("error".to_owned(), JsonValue::Str(error)));
    m
}


/// Renders the error template `webhook_error.json` for a failed hook, with
/// the context `{ "event": event, "error": error }`.
pub fn render_webhook_error(env: &TemplateEnv, event: &str, error: String) -> (r: RenderOutcome)
    ensures
        r == template_output(*env, "webhook_error.json"@, seq![("event"@, event@), ("error"@, error@)]),
{
    let mut ctx: Vec<(String, String)> = Vec::new();
    ctx.push(("event".to_owned(), event.to_owned()));
    ctx.push(("error".to_owned(), error));
    assert(pair_views(ctx@) =~= seq![("event"@, event@), ("error"@, error@)]);
    render_template(env, "webhook_error.json", ctx)
}

} // verus!

verus! {

/// The hooks that handle a message are exactly the switched-on hooks of its
/// event, each once, in the order the configuration lists them.
pub proof fn law_enabled_positions_exact(hooks: Seq<Hook>)
    requires
        hooks.len() <= usize::MAX,
    ensures
        forall|k: int| 0 <= k < enabled_positions(hooks).len() ==> {
            &&& (#[trigger] enabled_positions(hooks)[k]) < hooks.len()
            &&& !hooks[enabled_positions(hooks)[k] as int].disable
        },
        forall|k: int, l: int| 0 <= k < l < enabled_positions(hooks).len()
            ==> #[trigger] enabled_positions(hooks)[k] < #[trigger] enabled_positions(hooks)[l],
        forall|i: int| 0 <= i < hooks.len() && !(#[trigger] hooks[i]).disable
            ==> enabled_positions(hooks).contains(i as usize),
    decreases hooks.len(),
{
    if hooks.len() > 0 {
        let init = hooks.drop_last();
        law_enabled_positions_exact(init);
        let p = enabled_positions(init);
        assert forall|i: int| 0 <= i < hooks.len() && !(#[trigger] hooks[i]).disable
            implies enabled_positions(hooks).contains(i as usize) by {
            if i < hooks.len() - 1 {
                assert(init[i] == hooks[i]);
                let k = choose|k: int| 0 <= k < p.len() && p[k] == i as usize;
                if !hooks.last().disable {
                    assert(enabled_positions(hooks)[k] == i as usize);
                }
            } else {
                assert(enabled_positions(hooks).last() == i as usize);
            }
        }
        assert forall|k: int| 0 <= k < enabled_positions(hooks).len() implies {
            &&& (#[trigger] enabled_positions(hooks)[k]) < hooks.len()
            &&& !hooks[enabled_positions(hooks)[k] as int].disable
        } by {
            if k < p.len() {
                assert(enabled_positions(hooks)[k] == p[k]);
                assert(init[p[k] as int] == hooks[p[k] as int]);
            } else {
                assert(enabled_positions(hooks)[k] == (hooks.len() - 1) as usize);
            }
        }
        assert forall|k: int, l: int| 0 <= k < l < enabled_positions(hooks).len()
            implies #[trigger] enabled_positions(hooks)[k] < #[trigger] enabled_positions(hooks)[l] by {
            if l < p.len() {
                assert(enabled_positions(hooks)[k] == p[k] && enabled_positions(hooks)[l] == p[l]);
            } else {
                assert(enabled_positions(hooks)[k] == p[k]);
                assert(p[k] < init.len());
            }
        }
    }
}

/// A message whose event has no hooks, or that names no event, goes to the
/// outgoing queue; one whose event has hooks never does, even when all of
/// them are switched off.
pub proof fn law_outgo_iff_unhooked(hooks: Map<Seq<char>, Hooks>, event: Option<Seq<char>>)
    ensures
        route_of(hooks, event) is None <==> (event is None || !hooks.contains_key(event->Some_0)),
{
}

} // verus!
