//! The client's view state, and how the contents of streamed messages update
//! it: registered templates, a layout, a value per event, and a list per event
//! whose elements are merged by id.
use crate::table::TextMap;
use crate::templates::{add_template, new_environment, owned_templates, template_compiles, TemplateEnv};
use crate::ui::carries_id;
use vstd::prelude::*;

verus! {

/// How a streamed element is merged into the list element with the same id.
#[derive(Debug, Clone, Copy, PartialEq, Eq)]
pub enum Method {
    Replace,
    Concat,
    Delete,
}

/// A content item of a message from the gateway. Its component is rendered
/// with the templates registered so far before it is stored.
pub enum Content<B> {
    /// Register the template `name` with the text `source`, replacing one of
    /// the same name; a text that does not compile is not registered.
    Tmpl { name: String, source: String },
    /// Replace the whole layout.
    Create(B),
    /// Store the value of an event.
    SetValue { event: String, data: B },
    /// Join an element into the list of an event; `id` is the element's id.
    Join { event: String, method: Method, id: Option<String>, data: B },
    /// Nothing.
    Empty,
}

/// Whether some element of the list carries the id.
pub open spec fn has_match<B>(list: Seq<(Option<String>, B)>, id: Option<String>) -> bool {
    match id {
        Some(i) => exists|p: int| 0 <= p < list.len() && carries_id((#[trigger] list[p]).0, i@),
        None => false,
    }
}

/// What joining `data` with id `id` does to a list: when elements carry the
/// id, each of them is merged with `data` (keeping its id) and the others stay;
/// otherwise the element is appended.
pub open spec fn joined<B, M: Fn(Method, &B, &B) -> B>(
    before: Seq<(Option<String>, B)>,
    after: Seq<(Option<String>, B)>,
    method: Method,
    id: Option<String>,
    data: B,
    merge: M,
) -> bool {
    if has_match(before, id) {
        &&& after.len() == before.len()
        &&& forall|p: int| 0 <= p < before.len() ==> {
            if carries_id((#[trigger] before[p]).0, id->Some_0@) {
                &&& after[p].0 == before[p].0
                &&& call_ensures(merge, (method, &before[p].1, &data), after[p].1)
            } else {
                after[p] == before[p]
            }
        }
    } else {
        after == before.push((id, data))
    }
}

/// The client's view state.
pub struct Store<B> {
    pub layout: B,
    pub data: TextMap<B>,
    pub list: TextMap<Vec<(Option<String>, B)>>,
    pub templates: TemplateEnv,
}

/// The list of `event` in a store: the stored one, or the empty list.
pub open spec fn list_before<B>(s: Store<B>, event: Seq<char>) -> Seq<(Option<String>, B)> {
    if s.list@.contains_key(event) {
        s.list@[event]@
    } else {
        Seq::empty()
    }
}

/// What applying one content item does, from store `s0` to store `s1`, with
/// `render` rendering a component under the registered templates and `merge`
/// merging a list element: a template is registered when it compiles, and
/// the environment's other settings stay; a rendered layout
/// replaces the old one; a rendered value is stored under its event; a
/// rendered element is joined into the list of its event, and no other list
/// changes; the empty content changes nothing.
pub open spec fn applied<B, R: Fn(&TemplateEnv, B) -> B, M: Fn(Method, &B, &B) -> B>(
    s0: Store<B>,
    item: Content<B>,
    s1: Store<B>,
    render: R,
    merge: M,
) -> bool {
    match item {
        Content::Tmpl { name, source } => {
            &&& s1.layout == s0.layout
            &&& s1.data@ == s0.data@
            &&& s1.list@ == s0.list@
            &&& if template_compiles(s0.templates, name@, source@) {
                owned_templates(s1.templates) == owned_templates(s0.templates).insert(name@, source@)
            } else {
                owned_templates(s1.templates) == owned_templates(s0.templates)
            }
            &&& forall|n: Seq<char>, t: Seq<char>|
                #[trigger] template_compiles(s1.templates, n, t) == template_compiles(s0.templates, n, t)
        },
        Content::Create(b) => {
            &&& call_ensures(render, (&s0.templates, b), s1.layout)
            &&& s1.data@ == s0.data@
            &&& s1.list@ == s0.list@
            &&& s1.templates == s0.templates
        },
        Content::SetValue { event, data } => {
            &&& s1.layout == s0.layout
            &&& s1.data@ == s0.data@.insert(event@, s1.data@[event@])
            &&& call_ensures(render, (&s0.templates, data), s1.data@[event@])
            &&& s1.list@ == s0.list@
            &&& s1.templates == s0.templates
        },
        Content::Join { event, method, id, data } => {
            &&& s1.layout == s0.layout
            &&& s1.data@ == s0.data@
            &&& s1.templates == s0.templates
            &&& s1.list@.dom() == s0.list@.dom().insert(event@)
            &&& forall|e: Seq<char>| e != event@ && #[trigger] s0.list@.contains_key(e)
                ==> s1.list@[e] == s0.list@[e]
            &&& exists|r: B| #[trigger] call_ensures(render, (&s0.templates, data), r)
                && joined(list_before(s0, event@), s1.list@[event@]@, method, id, r, merge)
        },
        Content::Empty => s1 == s0,
    }
}

/// What applying content items in order does: one item after another, each
/// from the store the one before it left.
pub open spec fn applied_seq<B, R: Fn(&TemplateEnv, B) -> B, M: Fn(Method, &B, &B) -> B>(
    s0: Store<B>,
    items: Seq<Content<B>>,
    s1: Store<B>,
    render: R,
    merge: M,
) -> bool
    decreases items.len(),
{
    if items.len() == 0 {
        s1 == s0
    } else {
        exists|mid: Store<B>|
            applied_seq(s0, items.drop_last(), mid, render, merge)
                && #[trigger] applied(mid, items.last(), s1, render, merge)
    }
}

/// One more item extends a run of applied items.
proof fn lemma_applied_step<B, R: Fn(&TemplateEnv, B) -> B, M: Fn(Method, &B, &B) -> B>(
    s0: Store<B>,
    items: Seq<Content<B>>,
    mid: Store<B>,
    s1: Store<B>,
    render: R,
    merge: M,
)
    requires
        items.len() > 0,
        applied_seq(s0, items.drop_last(), mid, render, merge),
        applied(mid, items.last(), s1, render, merge),
    ensures
        applied_seq(s0, items, s1, render, merge),
{
}

impl<B> Store<B> {
    /// A store showing `layout`, with no values, no lists and no templates.
    pub fn new(layout: B) -> (s: Store<B>)
        ensures
            s.layout == layout,
            s.data@ == Map::<Seq<char>, B>::empty(),
            s.list@ == Map::<Seq<char>, Vec<(Option<String>, B)>>::empty(),
            owned_templates(s.templates) == Map::<Seq<char>, Seq<char>>::empty(),
    {
        Store { layout, data: TextMap::new(), list: TextMap::new(), templates: new_environment() }
    }

    /// Applies one content item, rendering its component with the templates
    /// registered so far (see `applied`).
    pub fn apply<R: Fn(&TemplateEnv, B) -> B, M: Fn(Method, &B, &B) -> B>(&mut self, item: Content<B>, render: &R, merge: &M)
        requires
            forall|t: &TemplateEnv, b: B| #[trigger] call_requires(*render, (t, b)),
            forall|m: Method, a: &B, b: &B| #[trigger] call_requires(*merge, (m, a, b)),
        ensures
            applied(*old(self), item, *final(self), *render, *merge),
    {
        match item {
            Content::Tmpl { name, source } => {
                add_template(&mut self.templates, name, source);
            },
            Content::Create(b) => {
                let d = render(&self.templates, b);
                self.layout = d;
            },
            Content::SetValue { event, data } => {
                let d = render(&self.templates, data);
                let ghost k = event@;
                self.data.insert(event, d);
                assert(self.data@[k] == d);
            },
            Content::Join { event, method, id, data } => {
                let d = render(&self.templates, data);
                let ghost k = event@;
                let mut list = match self.list.remove(&event) {
                    Some(l) => l,
                    None => Vec::new(),
                };
                let ghost before = list@;
                assert(before == list_before(*old(self), event@));
                let mut matched = false;
                match &id {
                    Some(key) => {
                        let mut p: usize = 0;
                        while p < list.len()
                            invariant
                                p <= list.len(),
                                list@.len() == before.len(),
                                forall|m: Method, a: &B, b: &B| #[trigger] call_requires(*merge, (m, a, b)),
                                matched <==> exists|q: int| 0 <= q < p && carries_id((#[trigger] before[q]).0, key@),
                                forall|q: int| 0 <= q < p ==> {
                                    if carries_id((#[trigger] before[q]).0, key@) {
                                        &&& list@[q].0 == before[q].0
                                        &&& call_ensures(*merge, (method, &before[q].1, &d), list@[q].1)
                                    } else {
                                        list@[q] == before[q]
                                    }
                                },
                                forall|q: int| p <= q < list@.len() ==> list@[q] == before[q],
                            decreases list.len() - p,
                        {
                            let own_id: Option<String> = match &list[p].0 {
                                Some(x) => if *x == *key {
                                    Some(x.clone())
                                } else {
                                    None
                                },
                                None => None,
                            };
                            match own_id {
                                Some(x) => {
                                    assert(carries_id(before[p as int].0, key@));
                                    assert(Some(x) == before[p as int].0);
                                    let merged = merge(method, &list[p].1, &d);
                                    list.set(p, (Some(x), merged));
                                    matched = true;
                                },
                                None => {
                                    assert(!carries_id(before[p as int].0, key@));
                                },
                            }
                            p += 1;
                        }
                        proof {
                            assert(p == before.len());
                            assert forall|q: int| 0 <= q < before.len() implies {
                                if carries_id((#[trigger] before[q]).0, id->Some_0@) {
                                    &&& list@[q].0 == before[q].0
                                    &&& call_ensures(*merge, (method, &before[q].1, &d), list@[q].1)
                                } else {
                                    list@[q] == before[q]
                                }
                            } by {
                                assert(id->Some_0 == *key);
                            }
                        }
                    },
                    None => {},
                }
                proof {
                    if matched {
                        assert(has_match(before, id));
                    } else {
                        assert(!has_match(before, id));
                        assert(list@ =~= before);
                    }
                }
                if !matched {
                    list.push((id, d));
                }
                assert(joined(before, list@, method, id, d, *merge));
                self.list.insert(event, list);
                assert(self.list@.dom() =~= old(self).list@.dom().insert(k));
            },
            Content::Empty => {},
        }
    }

    /// Applies the contents of a message, in order.
    pub fn apply_message<R: Fn(&TemplateEnv, B) -> B, M: Fn(Method, &B, &B) -> B>(
        &mut self,
        contents: Vec<Content<B>>,
        render: &R,
        merge: &M,
    )
        requires
            forall|t: &TemplateEnv, b: B| #[trigger] call_requires(*render, (t, b)),
            forall|m: Method, a: &B, b: &B| #[trigger] call_requires(*merge, (m, a, b)),
        ensures
            applied_seq(*old(self), contents@, *final(self), *render, *merge),
    {
        let ghost items = contents@;
        let ghost start = *self;
        assert(applied_seq(start, items.take(0), *self, *render, *merge));
        for item in it: contents.into_iter()
            invariant
                it.seq() == items,
                forall|t: &TemplateEnv, b: B| #[trigger] call_requires(*render, (t, b)),
                forall|m: Method, a: &B, b: &B| #[trigger] call_requires(*merge, (m, a, b)),
                applied_seq(start, items.take(it.index() as int), *self, *render, *merge),
        {
            let ghost prev = *self;
            let ghost i = it.index();
            self.apply(item, render, merge);
            proof {
                let t = items.take(i + 1);
                assert(t.drop_last() =~= items.take(i as int));
                lemma_applied_step(start, t, prev, *self, *render, *merge);
            }
        }
        assert(items.take(items.len() as int) =~= items);
    }
}

} // verus!

verus! {

/// No two elements of a list carry the same id.
pub open spec fn ids_distinct<B>(list: Seq<(Option<String>, B)>) -> bool {
    forall|p: int, q: int| 0 <= p < list.len() && 0 <= q < list.len() && p != q
        ==> !(#[trigger] list[p].0 matches Some(a) && #[trigger] list[q].0 matches Some(b) && a@ == b@)
}

/// Joining by id never makes a list hold two elements with the same id: an
/// element whose id is present is merged, not appended.
pub proof fn law_join_keeps_ids_distinct<B, M: Fn(Method, &B, &B) -> B>(
    before: Seq<(Option<String>, B)>,
    after: Seq<(Option<String>, B)>,
    method: Method,
    id: Option<String>,
    data: B,
    merge: M,
)
    requires
        ids_distinct(before),
        joined(before, after, method, id, data, merge),
    ensures
        ids_distinct(after),
{
    if has_match(before, id) {
        assert forall|p: int, q: int| 0 <= p < after.len() && 0 <= q < after.len() && p != q
            implies !(#[trigger] after[p].0 matches Some(a) && #[trigger] after[q].0 matches Some(b) && a@ == b@) by {
            assert(after[p].0 == before[p].0) by {
                if !carries_id(before[p].0, id->Some_0@) {
                    assert(after[p] == before[p]);
                }
            }
            assert(after[q].0 == before[q].0) by {
                if !carries_id(before[q].0, id->Some_0@) {
                    assert(after[q] == before[q]);
                }
            }
        }
    } else {
        assert forall|p: int, q: int| 0 <= p < after.len() && 0 <= q < after.len() && p != q
            implies !(#[trigger] after[p].0 matches Some(a) && #[trigger] after[q].0 matches Some(b) && a@ == b@) by {
            let n = before.len() as int;
            if p < n && q < n {
                assert(after[p] == before[p] && after[q] == before[q]);
            } else if p == n {
                assert(after[q] == before[q]);
                if let Some(i) = id {
                    if (before[q].0 matches Some(b) && i@ == b@) {
                        assert(carries_id(before[q].0, i@));
                    }
                }
            } else {
                assert(after[p] == before[p]);
                if let Some(i) = id {
                    if (before[p].0 matches Some(a) && a@ == i@) {
                        assert(carries_id(before[p].0, i@));
                    }
                }
            }
        }
    }
}


/// Applying the contents of a message together is applying a first part of
/// them and then the rest, from the store the first part left.
pub proof fn law_apply_in_parts<B, R: Fn(&TemplateEnv, B) -> B, M: Fn(Method, &B, &B) -> B>(
    s0: Store<B>,
    first: Seq<Content<B>>,
    rest: Seq<Content<B>>,
    s2: Store<B>,
    render: R,
    merge: M,
)
    ensures
        applied_seq(s0, first + rest, s2, render, merge) <==> exists|mid: Store<B>|
            #[trigger] applied_seq(s0, first, mid, render, merge) && applied_seq(mid, rest, s2, render, merge),
    decreases rest.len(),
{
    if rest.len() == 0 {
        assert(first + rest =~= first);
        if applied_seq(s0, first, s2, render, merge) {
            assert(applied_seq(s2, rest, s2, render, merge));
        }
    } else {
        let x = rest.last();
        let init = rest.drop_last();
        assert((first + rest).drop_last() =~= first + init);
        assert((first + rest).last() == x);
        if applied_seq(s0, first + rest, s2, render, merge) {
            let m = choose|m: Store<B>|
                applied_seq(s0, first + init, m, render, merge) && #[trigger] applied(m, x, s2, render, merge);
            law_apply_in_parts(s0, first, init, m, render, merge);
            let mid = choose|mid: Store<B>|
                #[trigger] applied_seq(s0, first, mid, render, merge) && applied_seq(mid, init, m, render, merge);
            lemma_applied_step(mid, rest, m, s2, render, merge);
        }
        if exists|mid: Store<B>|
            #[trigger] applied_seq(s0, first, mid, render, merge) && applied_seq(mid, rest, s2, render, merge) {
            let mid = choose|mid: Store<B>|
                #[trigger] applied_seq(s0, first, mid, render, merge) && applied_seq(mid, rest, s2, render, merge);
            let m = choose|m: Store<B>|
                applied_seq(mid, init, m, render, merge) && #[trigger] applied(m, x, s2, render, merge);
            law_apply_in_parts(s0, first, init, m, render, merge);
            lemma_applied_step(s0, first + rest, m, s2, render, merge);
        }
    }
}


/// Whether two environments hold the same owned templates and compile alike.
pub open spec fn same_env(e1: TemplateEnv, e2: TemplateEnv) -> bool {
    &&& owned_templates(e1) == owned_templates(e2)
    &&& forall|n: Seq<char>, t: Seq<char>| #[trigger] template_compiles(e1, n, t) == template_compiles(e2, n, t)
}

/// Whether two stores show the same state: the same layout, values, lists and
/// templates.
pub open spec fn same_state<B>(s: Store<B>, t: Store<B>) -> bool {
    &&& s.layout == t.layout
    &&& s.data@ == t.data@
    &&& s.list@.dom() == t.list@.dom()
    &&& forall|k: Seq<char>| #[trigger] s.list@.contains_key(k) ==> s.list@[k]@ == t.list@[k]@
    &&& same_env(s.templates, t.templates)
}

/// Whether rendering gives one result for a component and environments that
/// hold the same templates.
pub open spec fn render_deterministic<B, R: Fn(&TemplateEnv, B) -> B>(render: R) -> bool {
    forall|e1: TemplateEnv, e2: TemplateEnv, b: B, r1: B, r2: B|
        #![trigger call_ensures(render, (&e1, b), r1), call_ensures(render, (&e2, b), r2)]
        same_env(e1, e2) && call_ensures(render, (&e1, b), r1) && call_ensures(render, (&e2, b), r2) ==> r1 == r2
}

/// Whether merging gives one result for the same arguments.
pub open spec fn merge_deterministic<B, M: Fn(Method, &B, &B) -> B>(merge: M) -> bool {
    forall|m: Method, a: B, b: B, r1: B, r2: B|
        #![trigger call_ensures(merge, (m, &a, &b), r1), call_ensures(merge, (m, &a, &b), r2)]
        call_ensures(merge, (m, &a, &b), r1) && call_ensures(merge, (m, &a, &b), r2) ==> r1 == r2
}

/// With deterministic rendering and merging, joining the same element into
/// the same list gives the same list.
proof fn lemma_joined_unique<B, M: Fn(Method, &B, &B) -> B>(
    before: Seq<(Option<String>, B)>,
    a1: Seq<(Option<String>, B)>,
    a2: Seq<(Option<String>, B)>,
    method: Method,
    id: Option<String>,
    data: B,
    merge: M,
)
    requires
        merge_deterministic(merge),
        joined(before, a1, method, id, data, merge),
        joined(before, a2, method, id, data, merge),
    ensures
        a1 == a2,
{
    if has_match(before, id) {
        assert forall|p: int| 0 <= p < a1.len() implies a1[p] == a2[p] by {
            if carries_id(before[p].0, id->Some_0@) {
                assert(call_ensures(merge, (method, &before[p].1, &data), a1[p].1));
                assert(call_ensures(merge, (method, &before[p].1, &data), a2[p].1));
            }
        }
        assert(a1 =~= a2);
    }
}

/// Applying the same content item to stores in the same state, with
/// deterministic rendering and merging, leaves them in the same state.
pub proof fn law_apply_deterministic<B, R: Fn(&TemplateEnv, B) -> B, M: Fn(Method, &B, &B) -> B>(
    s0: Store<B>,
    t0: Store<B>,
    item: Content<B>,
    s1: Store<B>,
    t1: Store<B>,
    render: R,
    merge: M,
)
    requires
        render_deterministic(render),
        merge_deterministic(merge),
        same_state(s0, t0),
        applied(s0, item, s1, render, merge),
        applied(t0, item, t1, render, merge),
    ensures
        same_state(s1, t1),
{
    match item {
        Content::Tmpl { name, source } => {
            assert(template_compiles(s0.templates, name@, source@) == template_compiles(t0.templates, name@, source@));
            assert forall|k: Seq<char>| #[trigger] s1.list@.contains_key(k) implies s1.list@[k]@ == t1.list@[k]@ by {
                assert(s0.list@.contains_key(k));
            }
        },
        Content::Create(b) => {
            assert(call_ensures(render, (&s0.templates, b), s1.layout));
            assert(call_ensures(render, (&t0.templates, b), t1.layout));
            assert forall|k: Seq<char>| #[trigger] s1.list@.contains_key(k) implies s1.list@[k]@ == t1.list@[k]@ by {
                assert(s0.list@.contains_key(k));
            }
        },
        Content::SetValue { event, data } => {
            assert(call_ensures(render, (&s0.templates, data), s1.data@[event@]));
            assert(call_ensures(render, (&t0.templates, data), t1.data@[event@]));
            assert(s1.data@[event@] == t1.data@[event@]);
            assert(s1.data@ =~= t1.data@);
            assert forall|k: Seq<char>| #[trigger] s1.list@.contains_key(k) implies s1.list@[k]@ == t1.list@[k]@ by {
                assert(s0.list@.contains_key(k));
            }
        },
        Content::Join { event, method, id, data } => {
            let rs = choose|r: B| #[trigger] call_ensures(render, (&s0.templates, data), r)
                && joined(list_before(s0, event@), s1.list@[event@]@, method, id, r, merge);
            let rt = choose|r: B| #[trigger] call_ensures(render, (&t0.templates, data), r)
                && joined(list_before(t0, event@), t1.list@[event@]@, method, id, r, merge);
            assert(rs == rt);
            assert(list_before(s0, event@) == list_before(t0, event@));
            lemma_joined_unique(list_before(s0, event@), s1.list@[event@]@, t1.list@[event@]@, method, id, rs, merge);
            assert(s1.list@.dom() =~= t1.list@.dom());
            assert forall|k: Seq<char>| #[trigger] s1.list@.contains_key(k) implies s1.list@[k]@ == t1.list@[k]@ by {
                if k != event@ {
                    assert(s0.list@.contains_key(k));
                }
            }
        },
        Content::Empty => {},
    }
}

/// Applying the same contents to stores in the same state, with deterministic
/// rendering and merging, leaves them in the same state.
pub proof fn law_apply_seq_deterministic<B, R: Fn(&TemplateEnv, B) -> B, M: Fn(Method, &B, &B) -> B>(
    s0: Store<B>,
    t0: Store<B>,
    items: Seq<Content<B>>,
    s1: Store<B>,
    t1: Store<B>,
    render: R,
    merge: M,
)
    requires
        render_deterministic(render),
        merge_deterministic(merge),
        same_state(s0, t0),
        applied_seq(s0, items, s1, render, merge),
        applied_seq(t0, items, t1, render, merge),
    ensures
        same_state(s1, t1),
    decreases items.len(),
{
    if items.len() > 0 {
        let ms = choose|mid: Store<B>|
            applied_seq(s0, items.drop_last(), mid, render, merge) && #[trigger] applied(mid, items.last(), s1, render, merge);
        let mt = choose|mid: Store<B>|
            applied_seq(t0, items.drop_last(), mid, render, merge) && #[trigger] applied(mid, items.last(), t1, render, merge);
        law_apply_seq_deterministic(s0, t0, items.drop_last(), ms, mt, render, merge);
        law_apply_deterministic(ms, mt, items.last(), s1, t1, render, merge);
    }
}

/// With deterministic rendering and merging, applying the contents of a
/// message at once, or its first part and then the rest, ends in the same
/// state.
pub proof fn law_message_in_parts<B, R: Fn(&TemplateEnv, B) -> B, M: Fn(Method, &B, &B) -> B>(
    s0: Store<B>,
    first: Seq<Content<B>>,
    rest: Seq<Content<B>>,
    whole: Store<B>,
    mid: Store<B>,
    parts: Store<B>,
    render: R,
    merge: M,
)
    requires
        render_deterministic(render),
        merge_deterministic(merge),
        applied_seq(s0, first + rest, whole, render, merge),
        applied_seq(s0, first, mid, render, merge),
        applied_seq(mid, rest, parts, render, merge),
    ensures
        same_state(whole, parts),
{
    law_apply_in_parts(s0, first, rest, whole, render, merge);
    let m = choose|m: Store<B>|
        #[trigger] applied_seq(s0, first, m, render, merge) && applied_seq(m, rest, whole, render, merge);
    law_apply_seq_deterministic(s0, s0, first, m, mid, render, merge);
    law_apply_seq_deterministic(m, mid, rest, whole, parts, render, merge);
}


/// Joining an element without an id never merges it into the list: the
/// event's list afterwards is the list before with the rendered element
/// appended, and the element carries no id.
pub proof fn law_join_without_id_appends<B, R: Fn(&TemplateEnv, B) -> B, M: Fn(Method, &B, &B) -> B>(
    s0: Store<B>,
    event: String,
    method: Method,
    data: B,
    s1: Store<B>,
    render: R,
    merge: M,
)
    requires
        applied(s0, Content::Join { event, method, id: None, data }, s1, render, merge),
    ensures
        exists|r: B| #[trigger] call_ensures(render, (&s0.templates, data), r)
            && s1.list@[event@]@ == list_before(s0, event@).push((None, r)),
        s1.list@[event@]@.len() == list_before(s0, event@).len() + 1,
{
    let r = choose|r: B| #[trigger] call_ensures(render, (&s0.templates, data), r)
        && joined(list_before(s0, event@), s1.list@[event@]@, method, None, r, merge);
    assert(!has_match(list_before(s0, event@), None));
}

} // verus!
